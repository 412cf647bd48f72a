use filededupe::batch::{BatchCollector, BATCH_SIZE};
use filededupe::entry::PendingEntry;

fn entry(path: &str, size: i64) -> PendingEntry {
    PendingEntry::new(String::from(path), size)
}

#[test]
fn batch_size_is_twenty() {
    assert_eq!(BATCH_SIZE, 20);
}

#[test]
fn a_new_batch_is_empty() {
    let batch = BatchCollector::new(3);
    assert_eq!(batch.capacity(), 3);
    assert_eq!(batch.len(), 0);
    assert!(batch.is_empty());
    assert!(!batch.is_full());
}

#[test]
fn a_capacity_of_zero_is_taken_as_one() {
    let mut batch = BatchCollector::new(0);
    assert_eq!(batch.capacity(), 1);
    assert!(!batch.is_full());
    batch.push(entry("a", 1));
    assert!(batch.is_full());
}

#[test]
fn a_batch_is_full_at_its_capacity() {
    let mut batch = BatchCollector::new(2);
    batch.push(entry("a", 1));
    assert_eq!(batch.len(), 1);
    assert!(!batch.is_empty());
    assert!(!batch.is_full());
    batch.push(entry("b", 2));
    assert_eq!(batch.len(), 2);
    assert!(batch.is_full());
    assert_eq!(batch.capacity(), 2);
}

#[test]
fn drain_hands_out_the_entries_in_order_and_empties_the_batch() {
    let mut batch = BatchCollector::new(BATCH_SIZE);
    batch.push(entry("x/one", 10));
    batch.push(entry("x/two", 20));
    batch.push(entry("x/three", 30));
    let entries = batch.drain();
    assert_eq!(entries, vec![entry("x/one", 10), entry("x/two", 20), entry("x/three", 30)]);
    assert!(batch.is_empty());
    assert_eq!(batch.capacity(), BATCH_SIZE);
    batch.push(entry("x/four", 40));
    assert_eq!(batch.drain(), vec![entry("x/four", 40)]);
}

#[test]
fn clear_forgets_the_entries() {
    let mut batch = BatchCollector::new(2);
    batch.push(entry("a", 1));
    batch.push(entry("b", 2));
    batch.clear();
    assert!(batch.is_empty());
    assert!(!batch.is_full());
    assert_eq!(batch.capacity(), 2);
    assert!(batch.drain().is_empty());
}
