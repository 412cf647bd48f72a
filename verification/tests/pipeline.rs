use std::collections::HashMap;

use filededupe::digest::{ContentHasher, HashStep, ReadOutcome, BUFFER_SIZE};
use filededupe::entry::{FileRecord, PendingEntry};
use filededupe::flush::{begin, FlushStep};
use filededupe::report::{Failure, FailureKind};
use filededupe::schema::{CREATE_INDEX, CREATE_TABLE, LOOKUP, UPSERT};
use filededupe::walker::{WalkEvent, WalkStep, Walker};
use rusqlite::{Connection, OptionalExtension};

/// A tree in memory: a file holds its bytes, or none if it cannot be read.
enum Node {
    File(&'static str, Option<&'static [u8]>),
    Dir(&'static str, Vec<Node>),
}

/// What a run did, as the driver saw it.
struct Report {
    lines: Vec<String>,
    flushes: Vec<usize>,
    writes: usize,
    hashed: Vec<String>,
}

fn new_report() -> Report {
    Report { lines: Vec::new(), flushes: Vec::new(), writes: 0, hashed: Vec::new() }
}

fn open_store() -> Connection {
    let store = Connection::open_in_memory().unwrap();
    store.execute(CREATE_TABLE, ()).unwrap();
    store.execute(CREATE_INDEX, ()).unwrap();
    store
}

fn store_failure(error: rusqlite::Error) -> Failure {
    Failure::new(FailureKind::Store, error.to_string())
}

fn lookup(store: &Connection, path: &str) -> Result<Option<(String, i64)>, Failure> {
    store
        .query_row(LOOKUP, (path,), |row| Ok((row.get::<_, String>(0)?, row.get::<_, i64>(1)?)))
        .optional()
        .map_err(store_failure)
}

fn upsert(store: &Connection, record: &FileRecord) -> Result<(), Failure> {
    store
        .execute(UPSERT, (record.path.as_str(), record.digest.as_str(), record.size))
        .map(|_| ())
        .map_err(store_failure)
}

fn rows(store: &Connection) -> Vec<(String, String, i64)> {
    let mut statement =
        store.prepare("SELECT path, digest, size FROM file_hashes ORDER BY path").unwrap();
    let found = statement
        .query_map((), |row| Ok((row.get(0)?, row.get(1)?, row.get(2)?)))
        .unwrap()
        .map(|row| row.unwrap())
        .collect();
    found
}

fn hash(content: Option<&'static [u8]>) -> Result<String, Failure> {
    let mut hasher = ContentHasher::new();
    let mut offset = 0;
    loop {
        let read = match content {
            Some(bytes) => {
                let end = usize::min(bytes.len(), offset + BUFFER_SIZE);
                let chunk = &bytes[offset..end];
                offset = end;
                ReadOutcome::Data(chunk)
            }
            None => ReadOutcome::Failed(Failure::new(
                FailureKind::Io,
                String::from("Permission denied"),
            )),
        };
        match hasher.step(read) {
            HashStep::More(next) => hasher = next,
            HashStep::Digest(digest) => return Ok(digest),
            HashStep::Abort(failure) => return Err(failure),
        }
    }
}

fn flush(
    store: &Connection,
    contents: &HashMap<String, Option<&'static [u8]>>,
    entries: Vec<PendingEntry>,
    report: &mut Report,
) -> Result<(), Failure> {
    report.flushes.push(entries.len());
    let mut step = begin(entries);
    loop {
        let pending = match step {
            FlushStep::Lookup(pending) => pending,
            FlushStep::Done => return Ok(()),
        };
        let (notice, next) = match lookup(store, pending.path())? {
            Some((digest, _)) => pending.found(digest),
            None => {
                let pending = pending.missing();
                report.hashed.push(String::from(pending.path()));
                let digest = hash(contents[pending.path()])?;
                let pending = pending.hashed(digest);
                upsert(store, &pending.record())?;
                report.writes += 1;
                pending.stored()
            }
        };
        report.lines.push(notice.render());
        step = next;
    }
}

fn flush_if_any(
    store: &Connection,
    contents: &HashMap<String, Option<&'static [u8]>>,
    batch: Option<Vec<PendingEntry>>,
    report: &mut Report,
) -> Option<Failure> {
    match batch {
        Some(entries) => flush(store, contents, entries, report).err(),
        None => None,
    }
}

fn collect(node: &Node, contents: &mut HashMap<String, Option<&'static [u8]>>) {
    match node {
        Node::File(path, bytes) => {
            contents.insert(String::from(*path), *bytes);
        }
        Node::Dir(_, children) => {
            for child in children {
                collect(child, contents);
            }
        }
    }
}

/// Runs the walker over the children of `root`, flushing against `store`.
fn run(store: &Connection, root: &Node, capacity: usize, report: &mut Report) -> Result<(), Failure> {
    let mut contents = HashMap::new();
    collect(root, &mut contents);
    let children = match root {
        Node::Dir(_, children) => children,
        Node::File(..) => panic!("the root is a directory"),
    };
    let mut open: Vec<std::slice::Iter<'_, Node>> = vec![children.iter()];
    let mut walker = Walker::new(capacity);
    let mut failed: Option<Failure> = None;
    loop {
        let event = match failed.take() {
            Some(failure) => WalkEvent::Failed(failure),
            None => match open.last_mut().unwrap().next() {
                None => WalkEvent::EndOfDirectory,
                Some(Node::Dir(path, _)) => WalkEvent::Directory(String::from(*path)),
                Some(Node::File(path, bytes)) => WalkEvent::File(PendingEntry::new(
                    String::from(*path),
                    bytes.map_or(0, |bytes| bytes.len() as i64),
                )),
            },
        };
        let step = walker.step(event);
        if let Some(notice) = step.notice() {
            report.lines.push(notice.render());
        }
        match step {
            WalkStep::Read { walker: next, flush: batch } => {
                failed = flush_if_any(store, &contents, batch, report);
                walker = next;
            }
            WalkStep::Descend { walker: next, directory } => {
                let children = find(root, &directory);
                open.push(children.iter());
                walker = next;
            }
            WalkStep::Ascend { walker: next, flush: batch } => {
                failed = flush_if_any(store, &contents, batch, report);
                open.pop();
                walker = next;
            }
            WalkStep::Finish { flush: batch } => {
                return match flush_if_any(store, &contents, batch, report) {
                    Some(failure) => Err(failure),
                    None => Ok(()),
                };
            }
            WalkStep::Abort { failure } => return Err(failure),
        }
    }
}

fn find<'a>(node: &'a Node, wanted: &str) -> &'a Vec<Node> {
    fn search<'a>(node: &'a Node, wanted: &str) -> Option<&'a Vec<Node>> {
        match node {
            Node::File(..) => None,
            Node::Dir(path, children) => {
                if *path == wanted {
                    Some(children)
                } else {
                    children.iter().find_map(|child| search(child, wanted))
                }
            }
        }
    }
    search(node, wanted).unwrap()
}

const HELLO: &str = "5d41402abc4b2a76b9719d911017c592";

#[test]
fn two_files_with_the_same_content_get_a_record_each() {
    let store = open_store();
    let tree = Node::Dir(
        "X",
        vec![Node::File("X/f1", Some(b"hello")), Node::File("X/f2", Some(b"hello"))],
    );
    let mut report = new_report();
    assert_eq!(run(&store, &tree, 20, &mut report), Ok(()));
    assert_eq!(
        rows(&store),
        vec![
            (String::from("X/f1"), String::from(HELLO), 5),
            (String::from("X/f2"), String::from(HELLO), 5),
        ]
    );
    assert_eq!(
        report.lines,
        vec![format!("processed: X/f1: {}", HELLO), format!("processed: X/f2: {}", HELLO)]
    );
    assert_eq!(report.writes, 2);
}

#[test]
fn an_empty_directory_writes_nothing() {
    let store = open_store();
    let tree = Node::Dir("empty", Vec::new());
    let mut report = new_report();
    assert_eq!(run(&store, &tree, 20, &mut report), Ok(()));
    assert!(rows(&store).is_empty());
    assert!(report.flushes.is_empty());
    assert!(report.lines.is_empty());
    assert_eq!(report.writes, 0);
}

#[test]
fn a_second_run_writes_nothing_and_skips_every_file() {
    let store = open_store();
    let tree = Node::Dir(
        "root",
        vec![
            Node::File("root/a.txt", Some(b"alpha")),
            Node::Dir("root/sub", vec![Node::File("root/sub/b.txt", Some(b"beta"))]),
            Node::File("root/c.txt", Some(b"hello")),
        ],
    );
    let mut first = new_report();
    assert_eq!(run(&store, &tree, 2, &mut first), Ok(()));
    assert_eq!(first.writes, 3);
    let recorded = rows(&store);
    assert_eq!(recorded.len(), 3);

    let mut second = new_report();
    assert_eq!(run(&store, &tree, 2, &mut second), Ok(()));
    assert_eq!(second.writes, 0);
    assert!(second.hashed.is_empty());
    assert_eq!(rows(&store), recorded);
    let mut skipped: Vec<String> =
        second.lines.iter().filter(|line| line.starts_with("skipped: ")).cloned().collect();
    skipped.sort();
    let expected: Vec<String> = recorded
        .iter()
        .map(|(path, digest, _)| format!("skipped: {}: {}", path, digest))
        .collect();
    assert_eq!(skipped, expected);
    assert!(second.lines.iter().all(|line| !line.starts_with("processed: ")));
}

#[test]
fn a_file_that_changed_after_it_was_indexed_is_still_skipped() {
    let store = open_store();
    let before = Node::Dir("root", vec![Node::File("root/a.txt", Some(b"hello"))]);
    let after = Node::Dir("root", vec![Node::File("root/a.txt", Some(b"changed"))]);
    assert_eq!(run(&store, &before, 20, &mut new_report()), Ok(()));
    let mut report = new_report();
    assert_eq!(run(&store, &after, 20, &mut report), Ok(()));
    assert_eq!(report.lines, vec![format!("skipped: root/a.txt: {}", HELLO)]);
    assert_eq!(rows(&store), vec![(String::from("root/a.txt"), String::from(HELLO), 5)]);
}

#[test]
fn one_file_more_than_a_batch_takes_two_flushes() {
    for capacity in [1usize, 3, 20] {
        let store = open_store();
        let names: Vec<&'static str> = vec![
            "d/00", "d/01", "d/02", "d/03", "d/04", "d/05", "d/06", "d/07", "d/08", "d/09", "d/10",
            "d/11", "d/12", "d/13", "d/14", "d/15", "d/16", "d/17", "d/18", "d/19", "d/20",
        ];
        let files: Vec<Node> =
            names[..capacity + 1].iter().map(|name| Node::File(*name, Some(b"x"))).collect();
        let tree = Node::Dir("d", files);
        let mut report = new_report();
        assert_eq!(run(&store, &tree, capacity, &mut report), Ok(()));
        assert_eq!(report.flushes, vec![capacity, 1]);
        assert_eq!(rows(&store).len(), capacity + 1);
        assert_eq!(report.writes, capacity + 1);
    }
}

#[test]
fn the_same_files_are_indexed_whatever_the_batch_capacity() {
    let mut outcomes: Vec<Vec<(String, String, i64)>> = Vec::new();
    for capacity in [1usize, 2, 4, 5, 20] {
        let store = open_store();
        let tree = Node::Dir(
            "d",
            vec![
                Node::File("d/1", Some(b"one")),
                Node::File("d/2", Some(b"two")),
                Node::File("d/3", Some(b"three")),
                Node::File("d/4", Some(b"four")),
                Node::File("d/5", Some(b"five")),
            ],
        );
        assert_eq!(run(&store, &tree, capacity, &mut new_report()), Ok(()));
        outcomes.push(rows(&store));
    }
    assert_eq!(outcomes[0].len(), 5);
    for outcome in &outcomes {
        assert_eq!(outcome, &outcomes[0]);
    }
}

#[test]
fn nested_files_are_indexed_once_in_any_listing_order() {
    let orders = vec![
        Node::Dir(
            "root",
            vec![
                Node::File("root/a.txt", Some(b"a")),
                Node::Dir(
                    "root/sub",
                    vec![
                        Node::File("root/sub/b.txt", Some(b"b")),
                        Node::Dir("root/sub/sub2", vec![Node::File("root/sub/sub2/c.txt", Some(b"c"))]),
                    ],
                ),
            ],
        ),
        Node::Dir(
            "root",
            vec![
                Node::Dir(
                    "root/sub",
                    vec![
                        Node::Dir("root/sub/sub2", vec![Node::File("root/sub/sub2/c.txt", Some(b"c"))]),
                        Node::File("root/sub/b.txt", Some(b"b")),
                    ],
                ),
                Node::File("root/a.txt", Some(b"a")),
            ],
        ),
    ];
    for tree in orders {
        let store = open_store();
        let mut report = new_report();
        assert_eq!(run(&store, &tree, 20, &mut report), Ok(()));
        assert_eq!(
            rows(&store),
            vec![
                (String::from("root/a.txt"), String::from("0cc175b9c0f1b6a831c399e269772661"), 1),
                (String::from("root/sub/b.txt"), String::from("92eb5ffee6ae2fec3ad71c777531578f"), 1),
                (
                    String::from("root/sub/sub2/c.txt"),
                    String::from("4a8a08f09d37b73795649038408b5f33"),
                    1
                ),
            ]
        );
        assert_eq!(report.writes, 3);
        let mut hashed = report.hashed.clone();
        hashed.sort();
        assert_eq!(hashed, vec!["root/a.txt", "root/sub/b.txt", "root/sub/sub2/c.txt"]);
        assert!(report.lines.contains(&String::from("Processing directory: root/sub")));
        assert!(report.lines.contains(&String::from("Processing directory: root/sub/sub2")));
    }
}

#[test]
fn an_unreadable_file_ends_the_run_and_keeps_what_was_flushed() {
    let store = open_store();
    let tree = Node::Dir(
        "root",
        vec![
            Node::File("root/1", Some(b"hello")),
            Node::File("root/2", Some(b"hello")),
            Node::File("root/3", None),
            Node::File("root/4", Some(b"hello")),
            Node::File("root/5", Some(b"hello")),
        ],
    );
    let mut report = new_report();
    let outcome = run(&store, &tree, 2, &mut report);
    assert_eq!(outcome, Err(Failure::new(FailureKind::Io, String::from("Permission denied"))));
    assert_eq!(
        rows(&store),
        vec![
            (String::from("root/1"), String::from(HELLO), 5),
            (String::from("root/2"), String::from(HELLO), 5),
        ]
    );
    assert_eq!(report.flushes, vec![2, 2]);
    assert_eq!(report.writes, 2);
}

#[test]
fn a_store_that_refuses_ends_the_run() {
    let store = Connection::open_in_memory().unwrap();
    let tree = Node::Dir("root", vec![Node::File("root/1", Some(b"hello"))]);
    let mut report = new_report();
    match run(&store, &tree, 20, &mut report) {
        Err(failure) => assert_eq!(failure.kind, FailureKind::Store),
        Ok(()) => panic!("a store without its table cannot answer"),
    }
    assert_eq!(report.writes, 0);
}

#[test]
fn an_upsert_for_a_path_on_record_replaces_the_record() {
    let store = open_store();
    let entry = PendingEntry::new(String::from("p"), 1);
    upsert(&store, &FileRecord::of(&entry, String::from("D1"))).unwrap();
    assert_eq!(lookup(&store, "p"), Ok(Some((String::from("D1"), 1))));
    let grown = PendingEntry::new(String::from("p"), 2);
    upsert(&store, &FileRecord::of(&grown, String::from("D2"))).unwrap();
    assert_eq!(rows(&store), vec![(String::from("p"), String::from("D2"), 2)]);
    assert_eq!(lookup(&store, "p"), Ok(Some((String::from("D2"), 2))));
}

#[test]
fn an_upsert_may_be_repeated() {
    let store = open_store();
    let entry = PendingEntry::new(String::from("p"), 1);
    upsert(&store, &FileRecord::of(&entry, String::from("D1"))).unwrap();
    upsert(&store, &FileRecord::of(&entry, String::from("D1"))).unwrap();
    assert_eq!(rows(&store), vec![(String::from("p"), String::from("D1"), 1)]);
}

#[test]
fn a_path_that_was_never_indexed_is_not_found() {
    let store = open_store();
    assert_eq!(lookup(&store, "nowhere"), Ok(None));
}
