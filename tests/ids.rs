use rrr_tui::ids::IdAllocator;
use std::collections::HashSet;

#[test]
fn thousand_ids_are_distinct() {
    let mut ids = IdAllocator::new();
    let mut seen = HashSet::new();
    for _ in 0..1000 {
        assert!(seen.insert(ids.next()));
    }
    assert_eq!(seen.len(), 1000);
}

#[test]
fn interleaved_callers_get_distinct_ids() {
    let ids = std::sync::Mutex::new(IdAllocator::new());
    let mut a = Vec::new();
    let mut b = Vec::new();
    for k in 0..1200 {
        let id = ids.lock().unwrap().next();
        if k % 3 == 0 {
            a.push(id);
        } else {
            b.push(id);
        }
    }
    let all: HashSet<_> = a.iter().chain(b.iter()).map(|i| i.value()).collect();
    assert_eq!(all.len(), 1200);
}

#[test]
fn allocator_counts_down() {
    let mut ids = IdAllocator::new();
    assert_eq!(ids.remaining_count(), u64::MAX);
    assert!(!ids.is_exhausted());
    let first = ids.next();
    let second = ids.next();
    assert_ne!(first, second);
    assert_eq!(ids.remaining_count(), u64::MAX - 2);
}
