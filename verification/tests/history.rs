use uptime_monitor::history::History;
use uptime_monitor::record::{Outcome, ProbeRecord};
use uptime_monitor::recorder::{step, Action, Event, Phase};
use uptime_monitor::store::{read_history, write_history};

fn at(timestamp: i64) -> ProbeRecord {
    ProbeRecord { timestamp, outcome: Outcome::Success, latency_millis: 1 }
}

#[test]
fn a_new_history_is_empty() {
    let history = History::new();
    assert!(history.is_empty());
    assert_eq!(history.len(), 0);
    assert_eq!(history.newest(), None);
    assert!(history.is_newest_first());
}

#[test]
fn the_newest_record_is_the_one_put_in_last() {
    let mut history = History::new();
    history.prepend(at(10));
    assert_eq!(history.newest(), Some(at(10)));
    history.prepend(at(20));
    history.prepend(at(30));
    assert_eq!(history.newest(), Some(at(30)));
    assert_eq!(history.len(), 3);
    assert!(!history.is_empty());
    assert_eq!(history.records, vec![at(30), at(20), at(10)]);
}

#[test]
fn records_in_the_order_of_the_clock_stand_newest_first() {
    let mut history = History::new();
    for t in [5, 5, 6, 9, 9, 100] {
        history.prepend(at(t));
        assert!(history.is_newest_first());
    }
}

#[test]
fn a_record_older_than_the_newest_breaks_the_order() {
    assert!(!History { records: vec![at(1), at(2)] }.is_newest_first());
    assert!(!History { records: vec![at(9), at(8), at(7), at(8)] }.is_newest_first());
    assert!(!History { records: vec![at(9), at(10), at(7), at(6)] }.is_newest_first());
    assert!(History { records: vec![at(9), at(9), at(7), at(-6)] }.is_newest_first());
    assert!(History { records: vec![at(3)] }.is_newest_first());
}

#[test]
fn two_runs_on_one_snapshot_leave_one_new_record() {
    let mut history = History::new();
    history.prepend(at(100));
    let snapshot = write_history(&history);
    let write_of = |record: ProbeRecord| match step(
        Phase::Reading(record),
        Event::HistoryRead { stored: Some(snapshot.clone()) },
    ) {
        (Phase::Writing, Action::WriteHistory(value)) => value,
        other => panic!("{:?}", other),
    };
    let _lost = write_of(at(200));
    let last = write_of(at(201));
    let after = read_history(Some(&last)).unwrap();
    assert_eq!(after.records, vec![at(201), at(100)]);
}
