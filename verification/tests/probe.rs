use uptime_monitor::probe::{latency_between, ProbeStart};
use uptime_monitor::record::{Outcome, ProbeRecord};

#[test]
fn latency_is_the_difference_of_the_two_readings() {
    assert_eq!(latency_between(1_000, 1_500), 500);
    assert_eq!(latency_between(1_700_000_000_000, 1_700_000_000_020), 20);
    assert_eq!(latency_between(42, 42), 0);
    assert_eq!(latency_between(-10, 10), 20);
}

#[test]
fn latency_is_negative_where_the_clock_was_set_back() {
    assert_eq!(latency_between(5, 3), -2);
}

#[test]
fn latency_stays_in_range() {
    assert_eq!(latency_between(i64::MIN, i64::MAX), i64::MAX);
    assert_eq!(latency_between(-1, i64::MAX), i64::MAX);
    assert_eq!(latency_between(i64::MAX, i64::MIN), i64::MIN);
    assert_eq!(latency_between(1, i64::MIN), i64::MIN);
    assert_eq!(latency_between(0, i64::MAX), i64::MAX);
    assert_eq!(latency_between(0, i64::MIN), i64::MIN);
    assert_eq!(latency_between(i64::MAX, 0), -i64::MAX);
}

#[test]
fn a_completed_get_is_a_success() {
    assert_eq!(Outcome::from_completion(true), Outcome::Success);
    let start = ProbeStart { timestamp: 200, sent_millis: 200_000 };
    assert_eq!(
        start.finish(true, 200_035),
        ProbeRecord { timestamp: 200, outcome: Outcome::Success, latency_millis: 35 }
    );
}

#[test]
fn a_failed_get_is_no_response_and_its_latency_is_recorded() {
    assert_eq!(Outcome::from_completion(false), Outcome::NoResponse);
    let start = ProbeStart { timestamp: 200, sent_millis: 200_000 };
    assert_eq!(
        start.finish(false, 230_000),
        ProbeRecord { timestamp: 200, outcome: Outcome::NoResponse, latency_millis: 30_000 }
    );
}
