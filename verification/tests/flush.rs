use filededupe::entry::{FileRecord, PendingEntry};
use filededupe::flush::{begin, FlushStep};
use filededupe::report::Notice;

fn entry(path: &str, size: i64) -> PendingEntry {
    PendingEntry::new(String::from(path), size)
}

#[test]
fn an_empty_batch_is_flushed_at_once() {
    assert!(matches!(begin(Vec::new()), FlushStep::Done));
}

#[test]
fn a_path_on_record_is_skipped_with_the_recorded_fingerprint() {
    let pending = match begin(vec![entry("x/f1", 5)]) {
        FlushStep::Lookup(pending) => pending,
        FlushStep::Done => panic!("one entry is to be looked up"),
    };
    assert_eq!(pending.path(), "x/f1");
    let (notice, step) = pending.found(String::from("0123"));
    assert_eq!(notice, Notice::Skipped { path: String::from("x/f1"), digest: String::from("0123") });
    assert!(matches!(step, FlushStep::Done));
}

#[test]
fn a_path_not_on_record_is_hashed_and_recorded() {
    let pending = match begin(vec![entry("x/f1", 5)]) {
        FlushStep::Lookup(pending) => pending,
        FlushStep::Done => panic!("one entry is to be looked up"),
    };
    let pending = pending.missing();
    assert_eq!(pending.path(), "x/f1");
    let pending = pending.hashed(String::from("5d41402abc4b2a76b9719d911017c592"));
    assert_eq!(
        pending.record(),
        FileRecord {
            path: String::from("x/f1"),
            digest: String::from("5d41402abc4b2a76b9719d911017c592"),
            size: 5,
        }
    );
    let (notice, step) = pending.stored();
    assert_eq!(
        notice,
        Notice::Processed {
            path: String::from("x/f1"),
            digest: String::from("5d41402abc4b2a76b9719d911017c592"),
        }
    );
    assert!(matches!(step, FlushStep::Done));
}

#[test]
fn entries_are_dealt_with_in_batch_order() {
    let mut step = begin(vec![entry("x/a", 1), entry("x/b", 2), entry("x/c", 3)]);
    let mut seen: Vec<String> = Vec::new();
    let mut notices: Vec<Notice> = Vec::new();
    loop {
        let pending = match step {
            FlushStep::Lookup(pending) => pending,
            FlushStep::Done => break,
        };
        seen.push(String::from(pending.path()));
        let (notice, next) = if pending.path() == "x/b" {
            pending.found(String::from("on-record"))
        } else {
            let pending = pending.missing().hashed(String::from("fresh"));
            assert_eq!(pending.record().digest, "fresh");
            pending.stored()
        };
        notices.push(notice);
        step = next;
    }
    assert_eq!(seen, vec![String::from("x/a"), String::from("x/b"), String::from("x/c")]);
    assert_eq!(
        notices,
        vec![
            Notice::Processed { path: String::from("x/a"), digest: String::from("fresh") },
            Notice::Skipped { path: String::from("x/b"), digest: String::from("on-record") },
            Notice::Processed { path: String::from("x/c"), digest: String::from("fresh") },
        ]
    );
}
