use ai_task::sink::{EventBuffer, FLUSH_INTERVAL_MS, MAX_BATCH, MAX_PENDING};

#[test]
fn flush_interval_leaves_room_for_the_one_second_budget() {
    assert!(
        FLUSH_INTERVAL_MS <= 300,
        "a flush interval of {FLUSH_INTERVAL_MS} ms is too long for live events within a second"
    );
    assert!(FLUSH_INTERVAL_MS >= 50, "too short degenerates into one transaction per event");
}

#[test]
fn batch_cap_is_bounded() {
    assert!((8..=128).contains(&MAX_BATCH));
}

#[test]
fn a_full_batch_is_due_before_the_interval() {
    let mut buf: EventBuffer<u32> = EventBuffer::new(1_000);
    for i in 0..(MAX_BATCH as u32 - 1) {
        assert!(!buf.push(i, 1_001));
    }
    assert!(buf.push(99, 1_001));
    assert_eq!(buf.pending(), MAX_BATCH);
}

#[test]
fn the_interval_alone_makes_a_write_due() {
    let mut buf: EventBuffer<u32> = EventBuffer::new(1_000);
    assert!(!buf.push(1, 1_000 + FLUSH_INTERVAL_MS - 1));
    assert!(buf.push(2, 1_000 + FLUSH_INTERVAL_MS));
    assert_eq!(buf.until_next_flush(1_050), FLUSH_INTERVAL_MS - 50);
    assert_eq!(buf.until_next_flush(1_000 + 5 * FLUSH_INTERVAL_MS), 0);
}

#[test]
fn a_failed_batch_goes_back_in_front_of_newer_events() {
    let mut buf: EventBuffer<u32> = EventBuffer::new(0);
    buf.push(1, 0);
    buf.push(2, 0);
    let batch = buf.take_batch(10);
    assert_eq!(batch, vec![1, 2]);
    assert_eq!(buf.pending(), 0);
    buf.push(3, 11);
    assert!(buf.restore_failed(batch));
    assert_eq!(buf.take_batch(20), vec![1, 2, 3]);
}

#[test]
fn a_failed_batch_is_dropped_when_the_backlog_is_full() {
    let mut buf: EventBuffer<u32> = EventBuffer::new(0);
    buf.push(7, 0);
    let too_many: Vec<u32> = (0..MAX_PENDING as u32).collect();
    assert!(!buf.restore_failed(too_many));
    assert_eq!(buf.take_batch(1), vec![7]);
}
