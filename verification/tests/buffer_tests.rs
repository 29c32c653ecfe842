use oxipulse::backoff::Backoff;
use oxipulse::buffer::OfflineBuffer;

#[test]
fn buffer_drops_oldest_when_full() {
    let mut b = OfflineBuffer::new(3);
    for i in 1..=5 {
        b.push(i);
    }
    assert_eq!(b.len(), 3);
    assert_eq!(b.drain_all(), vec![3, 4, 5]);
    assert_eq!(b.len(), 0);
    assert_eq!(b.drain_all(), Vec::<i32>::new());
}

#[test]
fn buffer_keeps_everything_below_capacity() {
    let mut b = OfflineBuffer::new(8640);
    for i in 0..100u32 {
        b.push(i);
    }
    assert_eq!(b.drain_all(), (0..100u32).collect::<Vec<_>>());
}

#[test]
fn buffer_of_size_zero_keeps_the_newest_entry() {
    let mut b = OfflineBuffer::new(0);
    b.push('a');
    b.push('b');
    assert_eq!(b.len(), 1);
    assert_eq!(b.drain_all(), vec!['b']);
}

#[test]
fn backoff_waits_double_up_to_ceiling() {
    // 300 / 60 = 5 ticks ceiling.
    let mut b = Backoff::new(60);
    let mut waits = Vec::new();
    for _ in 0..5 {
        assert!(b.should_check());
        b.on_failure();
        let mut skipped = 0;
        while !b.should_check() {
            skipped += 1;
        }
        waits.push(skipped);
    }
    assert_eq!(waits, vec![1, 2, 4, 5, 5]);
    b.on_success();
    assert!(b.should_check());
    b.on_failure();
    assert!(!b.should_check());
    assert!(b.should_check());
}

#[test]
fn backoff_ceiling_is_at_least_one_tick() {
    let mut b = Backoff::new(1000);
    for _ in 0..3 {
        b.on_failure();
        assert!(!b.should_check());
        assert!(b.should_check());
    }
}

#[test]
fn push_reports_full_buffer() {
    let mut b = OfflineBuffer::new(2);
    assert!(!b.push(1));
    assert!(!b.push(2));
    assert!(b.push(3));
    assert_eq!(b.drain_all(), vec![2, 3]);
}
