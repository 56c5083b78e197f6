use nsq_async_rs::consumer::RdyCounter;
use nsq_async_rs::protocol::Command;

#[test]
fn rdy_count_is_initialized_before_first_message() {
    let max_in_flight: i32 = 1;
    let mut counter = RdyCounter::start(max_in_flight);
    assert_eq!(counter.total, 1);

    let previous_rdy = counter.total;
    let replenish = counter.message_done();
    let remaining_rdy = counter.total;

    assert_eq!(previous_rdy, 1);
    assert_eq!(remaining_rdy, 0);
    assert!(remaining_rdy <= max_in_flight / 2);
    assert!(matches!(replenish, Some(Command::Ready(1))));

    counter.replenished();
    assert_eq!(counter.total, 1);
}

#[test]
fn rdy_replenish_uses_remaining_not_previous_value() {
    let max_in_flight: i32 = 2;
    let mut rdy_sent_count = 0i32;

    rdy_sent_count += 1;
    let mut counter = RdyCounter::start(max_in_flight);

    let previous_rdy = counter.total;
    let replenish = counter.message_done();
    let remaining_rdy = counter.total;

    assert_eq!(previous_rdy, 2);
    assert_eq!(remaining_rdy, 1);

    if let Some(Command::Ready(n)) = replenish {
        assert_eq!(n, 2);
        rdy_sent_count += 1;
        counter.replenished();
    }

    assert_eq!(rdy_sent_count, 2);
    assert_eq!(counter.total, 2);
}

#[test]
fn rdy_is_not_replenished_above_half() {
    let mut counter = RdyCounter::start(10);
    for _ in 0..4 {
        assert!(counter.message_done().is_none());
    }
    assert_eq!(counter.total, 6);
    assert!(counter.message_done().is_some());
    assert_eq!(counter.total, 5);
}

#[test]
fn rdy_half_rounds_toward_zero_for_negative_limits() {
    // -3 / 2 is -1 in Rust; a remaining count of -2 is below it.
    let mut counter = RdyCounter { total: -1, max_in_flight: -3 };
    assert!(matches!(counter.message_done(), Some(Command::Ready(n)) if n == (-3i32) as u32));
}
