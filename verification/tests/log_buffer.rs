use watercontroller::log_buffer::{
    console_line, LogBuffer, LogLevel, LogRecord, Received, Receiver,
};

fn rec(ms: u64, msg: &str) -> LogRecord {
    LogRecord { monotonic_ms: ms, level: 3, target: "test".into(), message: msg.into() }
}

fn message(rx: &Receiver, buf: &mut LogBuffer) -> Option<String> {
    match rx.recv(buf) {
        Received::Record(r) => Some(r.message),
        _ => None,
    }
}

#[test]
fn ring_buffer_evicts_oldest() {
    let mut buf = LogBuffer::new(3);
    for i in 0..5 {
        buf.push(rec(i, &format!("m{i}")));
    }
    let snap = buf.snapshot(10);
    assert_eq!(snap.len(), 3);
    assert_eq!(snap[0].message, "m2");
    assert_eq!(snap[2].message, "m4");
}

#[test]
fn subscriber_receives_new_records() {
    let mut buf = LogBuffer::new(10);
    let (_id, rx) = buf.subscribe(8);
    buf.push(rec(1, "hello"));
    let r = message(&rx, &mut buf).unwrap();
    assert_eq!(r, "hello");
}

#[test]
fn slow_subscriber_does_not_block_pushes() {
    let mut buf = LogBuffer::new(10);
    let (_id, _rx) = buf.subscribe(2); // small channel
    // push more than the channel can hold; pushes must succeed regardless
    for i in 0..100 {
        buf.push(rec(i, "spam"));
    }
    assert_eq!(buf.snapshot(100).len(), 10); // ring buffer still consistent
}

#[test]
fn unsubscribe_drops_sender() {
    let mut buf = LogBuffer::new(10);
    let (id, rx) = buf.subscribe(4);
    buf.unsubscribe(id);
    buf.hang_up(rx);
    // Pushing now is fine; no panics, no leftover senders.
    buf.push(rec(1, "after-unsub"));
    assert_eq!(buf.snapshot(10).len(), 1);
}

#[test]
fn slow_subscriber_keeps_what_fitted() {
    let mut buf = LogBuffer::new(10);
    let (_id, rx) = buf.subscribe(2);
    for i in 0..5 {
        buf.push(rec(i, &format!("m{i}")));
    }
    assert_eq!(message(&rx, &mut buf).unwrap(), "m0");
    buf.push(rec(5, "m5"));
    assert_eq!(message(&rx, &mut buf).unwrap(), "m1");
    assert_eq!(message(&rx, &mut buf).unwrap(), "m5");
    assert_eq!(rx.recv(&mut buf), Received::Empty);
}

#[test]
fn what_waits_can_be_taken_after_unsubscribing() {
    let mut buf = LogBuffer::new(10);
    let (id, rx) = buf.subscribe(4);
    buf.push(rec(1, "before"));
    buf.unsubscribe(id);
    buf.push(rec(2, "after"));
    assert_eq!(message(&rx, &mut buf).unwrap(), "before");
    assert_eq!(rx.recv(&mut buf), Received::Closed);
}

#[test]
fn subscribers_are_independent() {
    let mut buf = LogBuffer::new(10);
    let (a, rx_a) = buf.subscribe(4);
    let (b, rx_b) = buf.subscribe(4);
    assert!(a != b);
    buf.push(rec(1, "one"));
    buf.hang_up(rx_a);
    buf.push(rec(2, "two"));
    assert_eq!(message(&rx_b, &mut buf).unwrap(), "one");
    assert_eq!(message(&rx_b, &mut buf).unwrap(), "two");
}

#[test]
fn snapshot_gives_the_last_records() {
    let mut buf = LogBuffer::new(5);
    for i in 0..4 {
        buf.push(rec(i, &format!("m{i}")));
    }
    let two = buf.snapshot(2);
    assert_eq!(two.len(), 2);
    assert_eq!(two[0].message, "m2");
    assert_eq!(two[1].message, "m3");
    assert!(buf.snapshot(0).is_empty());
}

#[test]
fn records_have_a_fixed_layout() {
    assert_eq!(rec(1234, "hi").formatted(), "[      1234ms] INFO  test: hi");
    let mut r = rec(0, "m");
    r.level = 1;
    assert_eq!(r.formatted(), "[         0ms] ERROR test: m");
    r.level = 9;
    assert_eq!(r.formatted(), "[         0ms] ?     test: m");
}

#[test]
fn console_lines_and_level_numbers() {
    assert_eq!(console_line(42, LogLevel::Warn, "wifi", "lost"), "42 W wifi: lost");
    assert_eq!(LogLevel::Error.number(), 1);
    assert_eq!(LogLevel::Trace.number(), 5);
    assert_eq!(LogLevel::Debug.letter(), "D");
}

#[test]
fn buffer_without_room_keeps_nothing() {
    let mut buf = LogBuffer::new(0);
    let (_id, rx) = buf.subscribe(2);
    buf.push(rec(1, "a"));
    buf.push(rec(2, "b"));
    assert!(buf.snapshot(10).is_empty());
    assert_eq!(message(&rx, &mut buf).unwrap(), "a");
}

#[test]
fn queue_without_capacity_serves_who_waits() {
    let mut buf = LogBuffer::new(4);
    let (_id, rx) = buf.subscribe(0);
    buf.push(rec(1, "unseen"));
    assert_eq!(rx.recv(&mut buf), Received::Empty);
    rx.wait(&mut buf);
    buf.push(rec(2, "handed over"));
    buf.push(rec(3, "too late"));
    assert_eq!(message(&rx, &mut buf).unwrap(), "handed over");
    assert_eq!(rx.recv(&mut buf), Received::Empty);
}

#[test]
fn others_go_on_after_an_unsubscription() {
    let mut buf = LogBuffer::new(4);
    let (a, rx_a) = buf.subscribe(4);
    let (_b, rx_b) = buf.subscribe(4);
    buf.push(rec(1, "one"));
    buf.unsubscribe(a);
    buf.unsubscribe(77);
    buf.push(rec(2, "two"));
    assert_eq!(message(&rx_a, &mut buf).unwrap(), "one");
    assert_eq!(rx_a.recv(&mut buf), Received::Closed);
    assert_eq!(message(&rx_b, &mut buf).unwrap(), "one");
    assert_eq!(message(&rx_b, &mut buf).unwrap(), "two");
    assert_eq!(buf.snapshot(9).len(), 2);
    assert_eq!(buf.next_subscriber_id(), 2);
}
