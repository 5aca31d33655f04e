use flare_core::error::ErrorCode;
use flare_core::manager::ConnectionManager;
use flare_core::write_queue::{enqueue_or_isolate, WriteQueue, WriterStep};

#[test]
fn full_queue_refuses_without_waiting() {
    let mut q = WriteQueue::new(2);
    assert!(q.try_enqueue(b"a").is_ok());
    assert!(q.try_enqueue(b"b").is_ok());
    let e = q.try_enqueue(b"c").unwrap_err();
    assert_eq!(e.code, ErrorCode::ConnectionTimeout);
    assert_eq!(e.message, "Connection write queue is full");
    assert_eq!(q.len(), 2);
    assert_eq!(q.next_write(), Some(b"a".to_vec()));
    assert!(q.try_enqueue(b"c").is_ok());
    assert_eq!(q.next_write(), Some(b"b".to_vec()));
    assert_eq!(q.next_write(), Some(b"c".to_vec()));
    assert_eq!(q.next_write(), None);
}

#[test]
fn zero_capacity_holds_one_write() {
    let mut q = WriteQueue::new(0);
    assert!(q.try_enqueue(b"a").is_ok());
    assert_eq!(q.try_enqueue(b"b").unwrap_err().code, ErrorCode::ConnectionTimeout);
}

#[test]
fn failed_write_closes_the_queue() {
    let mut q = WriteQueue::new(4);
    q.try_enqueue(b"a").unwrap();
    q.try_enqueue(b"b").unwrap();
    assert_eq!(q.write_finished(true), WriterStep::Continue);
    assert!(!q.closed());
    assert_eq!(q.write_finished(false), WriterStep::Isolate);
    assert!(q.closed());
    assert_eq!(q.next_write(), None);
    let e = q.try_enqueue(b"c").unwrap_err();
    assert_eq!(e.code, ErrorCode::ConnectionClosed);
    assert!(!q.mark_closed());
}

#[test]
fn slow_consumer_is_isolated_and_others_keep_writing() {
    let mut m: ConnectionManager<u8> = ConnectionManager::new();
    m.add_connection_with_limit_at("slow".to_string(), 1, None, false, usize::MAX, 1).unwrap();
    m.add_connection_with_limit_at("fast".to_string(), 2, None, false, usize::MAX, 1).unwrap();
    let mut slow = WriteQueue::new(1);
    let mut fast = WriteQueue::new(1);
    assert!(enqueue_or_isolate(&mut m, "slow", &mut slow, b"1").0.is_ok());
    let (r, close) = enqueue_or_isolate(&mut m, "slow", &mut slow, b"2");
    assert_eq!(r.unwrap_err().code, ErrorCode::ConnectionTimeout);
    assert!(close);
    assert!(slow.closed());
    assert_eq!(m.connection_count(), 1);
    assert!(m.get_connection("slow").is_none());
    assert!(enqueue_or_isolate(&mut m, "fast", &mut fast, b"1").0.is_ok());
    let (r, close) = enqueue_or_isolate(&mut m, "slow", &mut slow, b"3");
    assert_eq!(r.unwrap_err().code, ErrorCode::ConnectionClosed);
    assert!(!close);
}
