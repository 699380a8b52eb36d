use chum::queue::{Queue, QueueItem, QueueMode};
use chum::stats::StatsCollector;
use chum::worker::{build_payload, Backend, Mem, Operation, Worker};

fn mem(queue: Queue, fail_deletes: bool) -> Mem {
    Mem::new(queue, vec![10], true, 0, false, false, fail_deletes)
}

#[test]
fn test_skip_semantics_on_empty_queue() {
    // read and delete against an empty queue skip; they never fail and
    // never complete
    let mut b = mem(Queue::new(QueueMode::Lru, 4), false);
    assert!(matches!(b.read(), Ok(None)));
    assert!(matches!(b.delete(), Ok(None)));
    // even a backend configured to fail skips first
    let mut f = Mem::new(Queue::new(QueueMode::Lru, 4), vec![10], true, 0, true, true, true);
    assert!(matches!(f.read(), Ok(None)));
    assert!(matches!(f.delete(), Ok(None)));
}

#[test]
fn test_delete_failure_requeues_key() {
    // a backend whose delete always fails puts the taken key back: the
    // object still exists on the target and stays eligible
    let mut q = Queue::new(QueueMode::Lru, 4);
    q.insert(QueueItem { obj: "K".to_string() });
    let mut b = mem(q, true);
    let r = b.delete();
    assert!(r.is_err());
    assert_eq!(b.queue_len(), 1);
    assert_eq!(b.sample().unwrap().obj, "K");
    assert_eq!(b.take().unwrap().obj, "K");
}

#[test]
fn test_read_success_on_populated_queue() {
    // with a key registered and no failure configured, a read is owed a
    // completed outcome, stamped with the worker's id
    let mut q = Queue::new(QueueMode::Lru, 4);
    q.insert(QueueItem { obj: "K".to_string() });
    let mut b = Mem::new(q, vec![10], true, 7, false, false, false);
    match b.read() {
        Ok(Some(wi)) => {
            assert_eq!(wi.op, Operation::Read);
            assert_eq!(wi.id, 7);
            assert_eq!(wi.size, 0);
        },
        _ => panic!("read over a populated queue must complete"),
    }
    assert_eq!(b.queue_len(), 1);
}

#[test]
fn test_delete_success_consumes_key() {
    let mut q = Queue::new(QueueMode::Lru, 4);
    q.insert(QueueItem { obj: "K".to_string() });
    let mut b = mem(q, false);
    let r = b.delete();
    assert!(matches!(r, Ok(Some(wi)) if wi.op == Operation::Delete));
    assert_eq!(b.queue_len(), 0);
}

#[test]
fn test_write_feeds_queue_with_fresh_ids() {
    let mut b = mem(Queue::new(QueueMode::Lru, 4), false);
    let r = b.write();
    match r {
        Ok(Some(wi)) => {
            assert_eq!(wi.op, Operation::Write);
            assert_eq!(wi.size, 10);
        },
        _ => panic!("write must complete"),
    }
    assert_eq!(b.queue_len(), 1);
    // generated object identifiers are hyphenated UUIDs
    let key = b.sample().unwrap().obj;
    assert_eq!(key.len(), 36);
    assert_eq!(key.matches('-').count(), 4);
}

#[test]
fn test_write_failure_registers_nothing() {
    let mut b = Mem::new(Queue::new(QueueMode::Lru, 4), vec![10], true, 0, true, false, false);
    assert!(b.write().is_err());
    assert_eq!(b.queue_len(), 0);
}

#[test]
fn test_worker_step_classification() {
    // a write-only worker publishes a completed write each step
    let b = mem(Queue::new(QueueMode::Lru, 8), false);
    let mut w = Worker::new(b, vec![Operation::Write], 0);
    let p = w.step();
    match p {
        Some(Ok(wi)) => {
            assert_eq!(wi.op, Operation::Write);
            assert_eq!(wi.size, 10);
        },
        _ => panic!("write step must publish a success"),
    }
    // a read-only worker over an empty registry publishes nothing
    let b2 = Mem::new(Queue::new(QueueMode::Lru, 8), vec![10], false, 1, false, false, false);
    let mut w2 = Worker::new(b2, vec![Operation::Read], 0);
    assert!(w2.step().is_none());
    assert_eq!(w2.pause(), 0);
}

#[test]
fn test_worker_publishes_failures() {
    let b = Mem::new(Queue::new(QueueMode::Lru, 8), vec![10], true, 0, true, false, false);
    let mut w = Worker::new(b, vec![Operation::Write], 5);
    match w.step() {
        Some(Err(e)) => assert_eq!(e.msg(), "synthetic write failure"),
        _ => panic!("failed write must publish the error"),
    }
    assert_eq!(w.pause(), 5);
}

#[test]
fn test_end_to_end_write_run_with_cap() {
    // two write-only workers, a ten-byte size, a twenty-byte cap: the run
    // observes exactly two writes, then the collector ends it
    let b1 = Mem::new(Queue::new(QueueMode::Lru, 16), vec![10], true, 0, false, false, false);
    let b2 = Mem::new(Queue::new(QueueMode::Lru, 16), vec![10], true, 1, false, false, false);
    let mut w1 = Worker::new(b1, vec![Operation::Write], 0);
    let mut w2 = Worker::new(b2, vec![Operation::Write], 0);
    let mut c = StatsCollector::new(2, 20);
    let mut writes: u32 = 0;
    'run: for _ in 0..100 {
        for turn in 0..2 {
            let p = if turn == 0 { w1.step() } else { w2.step() };
            if let Some(msg) = p {
                let wi = msg.expect("the stub backend always succeeds");
                assert_eq!(wi.op, Operation::Write);
                assert_eq!(wi.size, 10);
                writes += 1;
                c.record(Ok(wi));
            }
            if c.cap_reached() {
                break 'run;
            }
        }
    }
    assert_eq!(writes, 2);
    assert_eq!(w1.backend_ref().queue_len(), 1);
    assert_eq!(w2.backend_ref().queue_len(), 1);
}

#[test]
fn test_weighted_draw_ratio() {
    // a worker drawing uniformly from [r, r, r, w] performs reads and
    // writes in a ratio that approaches 3:1 over many iterations
    let mut q = Queue::new(QueueMode::Lru, 100);
    q.insert(QueueItem { obj: "seed".to_string() });
    let b = Mem::new(q, vec![1], true, 0, false, false, false);
    let ops = vec![
        Operation::Read,
        Operation::Read,
        Operation::Read,
        Operation::Write,
    ];
    let mut w = Worker::new(b, ops, 0);
    let mut reads: u64 = 0;
    let mut writes: u64 = 0;
    for _ in 0..8000 {
        match w.step() {
            Some(Ok(wi)) if wi.op == Operation::Read => reads += 1,
            Some(Ok(wi)) if wi.op == Operation::Write => writes += 1,
            _ => panic!("the stub backend neither fails nor skips here"),
        }
    }
    assert_eq!(reads + writes, 8000);
    let ratio = reads as f64 / writes as f64;
    assert!(ratio > 2.4 && ratio < 3.75, "ratio {} strayed from 3:1", ratio);
}

#[test]
fn test_build_payload_cycles_template() {
    let template = vec![1u8, 2, 3];
    let p = build_payload(&template, 7);
    assert_eq!(p, vec![1, 2, 3, 1, 2, 3, 1]);
    let empty = build_payload(&template, 0);
    assert!(empty.is_empty());
    let big = build_payload(&vec![9u8], 4096);
    assert_eq!(big.len(), 4096);
    assert!(big.iter().all(|b| *b == 9));
}
