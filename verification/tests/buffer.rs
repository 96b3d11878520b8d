use emitter::buffer::{Batcher, BufferAction, BufferEvent};

fn flushed(a: BufferAction<u32>) -> Option<Vec<u32>> {
    match a {
        BufferAction::Flush(v) => Some(v),
        _ => None,
    }
}

#[test]
fn flushes_when_capacity_is_reached() {
    let mut b = Batcher::new(3);
    assert!(matches!(b.step(BufferEvent::Received(1)), BufferAction::Wait));
    assert!(matches!(b.step(BufferEvent::Received(2)), BufferAction::Wait));
    assert_eq!(b.pending_len(), 2);
    assert_eq!(flushed(b.step(BufferEvent::Received(3))), Some(vec![1, 2, 3]));
    assert_eq!(b.pending_len(), 0);
    assert_eq!(b.get_capacity(), 3);
}

#[test]
fn timeout_flushes_only_pending_entries() {
    let mut b = Batcher::new(10);
    assert!(matches!(b.step(BufferEvent::TimedOut), BufferAction::Wait));
    b.step(BufferEvent::Received(7));
    assert_eq!(flushed(b.step(BufferEvent::TimedOut)), Some(vec![7]));
    assert!(matches!(b.step(BufferEvent::TimedOut), BufferAction::Wait));
}

#[test]
fn close_flushes_rest_and_stops() {
    let mut b = Batcher::new(10);
    b.step(BufferEvent::Received(4));
    b.step(BufferEvent::Received(5));
    match b.step(BufferEvent::Closed) {
        BufferAction::FlushAndStop(v) => assert_eq!(v, vec![4, 5]),
        _ => panic!("expected a final flush"),
    }
    let mut empty: Batcher<u32> = Batcher::new(10);
    assert!(matches!(empty.step(BufferEvent::Closed), BufferAction::Stop));
}

#[test]
fn zero_capacity_flushes_each_entry() {
    let mut b = Batcher::new(0);
    assert_eq!(flushed(b.step(BufferEvent::Received(1))), Some(vec![1]));
    assert_eq!(flushed(b.step(BufferEvent::Received(2))), Some(vec![2]));
}

#[test]
fn every_entry_is_written_once_in_order() {
    let mut b = Batcher::new(4);
    let mut written = Vec::new();
    let mut events = Vec::new();
    for i in 0..23u32 {
        events.push(BufferEvent::Received(i));
        if i % 7 == 6 {
            events.push(BufferEvent::TimedOut);
        }
    }
    events.push(BufferEvent::Closed);
    let mut stopped = false;
    for e in events {
        match b.step(e) {
            BufferAction::Flush(v) => {
                assert!(!v.is_empty() && v.len() <= 4);
                written.extend(v);
            }
            BufferAction::FlushAndStop(v) => {
                assert!(!v.is_empty());
                written.extend(v);
                stopped = true;
            }
            BufferAction::Stop => stopped = true,
            BufferAction::Wait => {}
        }
    }
    assert!(stopped);
    assert_eq!(written, (0..23).collect::<Vec<u32>>());
}
