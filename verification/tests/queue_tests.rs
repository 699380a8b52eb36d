use chum::queue::{Queue, QueueItem, QueueMode, QueueModeError};
use chum::utils::populate_queue;

fn item(s: &str) -> QueueItem {
    QueueItem { obj: s.to_string() }
}

#[test]
fn test_queue_mode_from_str() {
    assert!(matches!(QueueMode::from_str("lru"), Ok(QueueMode::Lru)));
    assert!(matches!(QueueMode::from_str("mru"), Ok(QueueMode::Mru)));
    assert!(matches!(QueueMode::from_str("rand"), Ok(QueueMode::Rand)));
    assert_eq!(QueueMode::from_str("fifo"), Err(QueueModeError));
    assert_eq!(QueueMode::Lru.label(), "lru");
    assert_eq!(QueueMode::Mru.label(), "mru");
    assert_eq!(QueueMode::Rand.label(), "rand");
}

#[test]
fn test_capacity_never_exceeded() {
    // whatever the policy and however many inserts, length stays under the bound
    for mode in [QueueMode::Lru, QueueMode::Mru, QueueMode::Rand] {
        let mut q = Queue::new(mode, 3);
        for i in 0..100 {
            q.insert(item(&format!("key-{}", i)));
            assert!(q.len() <= 3);
        }
        assert_eq!(q.len(), 3);
    }
}

#[test]
fn test_capacity_zero_drops_everything() {
    let mut q = Queue::new(QueueMode::Lru, 0);
    q.insert(item("a"));
    q.insert(item("b"));
    assert_eq!(q.len(), 0);
    assert!(q.get().is_none());
    assert!(q.remove().is_none());
}

#[test]
fn test_oldest_first_fifo_window() {
    // inserting A,B,C into a capacity-2 oldest-first queue evicts A:
    // only B and C remain retrievable
    let mut q = Queue::new(QueueMode::Lru, 2);
    q.insert(item("A"));
    q.insert(item("B"));
    q.insert(item("C"));
    assert_eq!(q.len(), 2);
    assert_eq!(q.get().unwrap().obj, "B");
    assert_eq!(q.remove().unwrap().obj, "B");
    assert_eq!(q.remove().unwrap().obj, "C");
    assert!(q.remove().is_none());
}

#[test]
fn test_newest_first_targets_fresh_entries() {
    let mut q = Queue::new(QueueMode::Mru, 2);
    q.insert(item("A"));
    q.insert(item("B"));
    // sampling targets the most recently inserted entry
    assert_eq!(q.get().unwrap().obj, "B");
    // eviction still removes the longest-resident entry
    q.insert(item("C"));
    assert_eq!(q.len(), 2);
    assert_eq!(q.remove().unwrap().obj, "C");
    assert_eq!(q.remove().unwrap().obj, "B");
}

#[test]
fn test_sampling_is_non_destructive() {
    let mut q = Queue::new(QueueMode::Rand, 4);
    q.insert(item("only"));
    for _ in 0..10 {
        assert_eq!(q.get().unwrap().obj, "only");
    }
    assert_eq!(q.len(), 1);
}

#[test]
fn test_random_take_returns_member() {
    let mut q = Queue::new(QueueMode::Rand, 8);
    q.insert(item("x"));
    q.insert(item("y"));
    q.insert(item("z"));
    let taken = q.remove().unwrap().obj;
    assert!(taken == "x" || taken == "y" || taken == "z");
    assert_eq!(q.len(), 2);
}

#[test]
fn test_populate_queue_in_order() {
    let mut q = Queue::new(QueueMode::Lru, 5);
    populate_queue(&mut q, vec!["a".to_string(), "b".to_string(), "c".to_string()]);
    assert_eq!(q.len(), 3);
    assert_eq!(q.remove().unwrap().obj, "a");
    assert_eq!(q.remove().unwrap().obj, "b");
    assert_eq!(q.remove().unwrap().obj, "c");
}
