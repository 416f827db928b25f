use timely::error::TrackerError;
use timely::history::{elapsed_duration, get_actual_complete, get_actual_start, TaskWorkHistory};
use timely::ledger::{select_entries, Selection, WorkHistoryLedger};
use timely::status::{LedgerEffect, Status};
use timely::timestamp::{OptionalUnixTimestamp, UnixTimestamp};

fn closed(id: i64, task_id: i64, start: i64, end: i64) -> TaskWorkHistory {
    TaskWorkHistory { id, task_id, start_date: UnixTimestamp(start), end_date: OptionalUnixTimestamp(Some(end)) }
}

fn open(id: i64, task_id: i64, start: i64) -> TaskWorkHistory {
    TaskWorkHistory { id, task_id, start_date: UnixTimestamp(start), end_date: OptionalUnixTimestamp(None) }
}

#[test]
fn elapsed_is_the_sum_over_closed_intervals() {
    let history = vec![closed(1, 1, 100, 160), closed(2, 1, 200, 230), closed(3, 1, 500, 500)];
    assert_eq!(elapsed_duration(&history, UnixTimestamp(1000)), 90);
    assert_eq!(elapsed_duration(&history, UnixTimestamp(0)), 90);
    assert_eq!(elapsed_duration(&Vec::new(), UnixTimestamp(0)), 0);
}

#[test]
fn elapsed_counts_the_open_interval_up_to_now() {
    let history = vec![closed(1, 1, 100, 160), closed(2, 1, 200, 230), open(3, 1, 300)];
    assert_eq!(elapsed_duration(&history, UnixTimestamp(345)), 60 + 30 + 45);
    assert_eq!(elapsed_duration(&history, UnixTimestamp(300)), 90);
}

#[test]
fn elapsed_does_not_overflow() {
    let history = vec![closed(1, 1, i64::MIN, i64::MAX), closed(2, 1, i64::MIN, i64::MAX)];
    assert_eq!(elapsed_duration(&history, UnixTimestamp(0)), 2 * (u64::MAX as u128));
}

#[test]
fn actual_start_is_the_earliest_start() {
    let history = vec![closed(1, 1, 300, 360), closed(2, 1, 100, 130), open(3, 1, 500)];
    assert_eq!(get_actual_start(&history), OptionalUnixTimestamp(Some(100)));
    assert_eq!(get_actual_start(&Vec::new()), OptionalUnixTimestamp(None));
}

#[test]
fn actual_complete_is_the_latest_end_of_a_done_task() {
    let history = vec![closed(1, 1, 300, 360), closed(2, 1, 100, 130)];
    let now = UnixTimestamp(1000);
    assert_eq!(get_actual_complete(&Status::Done, &history, now), Some(UnixTimestamp(360)));
    assert_eq!(get_actual_complete(&Status::Paused, &history, now), None);
    assert_eq!(get_actual_complete(&Status::Done, &Vec::new(), now), None);
    let with_open = vec![closed(1, 1, 300, 360), open(2, 1, 400)];
    assert_eq!(get_actual_complete(&Status::Done, &with_open, now), Some(now));
}

#[test]
fn open_creates_an_open_interval() {
    let mut ledger = WorkHistoryLedger::new();
    assert!(ledger.can_open());
    assert!(!ledger.has_open(7));
    assert_eq!(ledger.open(7, UnixTimestamp(100)), Ok(1));
    assert!(ledger.has_open(7));
    assert_eq!(ledger.all_intervals(), vec![open(1, 7, 100)]);
    assert_eq!(ledger.open(8, UnixTimestamp(110)), Ok(2));
    assert_eq!(ledger.all_intervals(), vec![open(1, 7, 100), open(2, 8, 110)]);
}

#[test]
fn open_fails_while_an_interval_is_open() {
    let mut ledger = WorkHistoryLedger::new();
    assert_eq!(ledger.open(7, UnixTimestamp(100)), Ok(1));
    assert_eq!(ledger.open(7, UnixTimestamp(120)), Err(TrackerError::LedgerInvariantViolation(7)));
    assert_eq!(ledger.all_intervals(), vec![open(1, 7, 100)]);
    assert!(ledger.close(7, UnixTimestamp(130)));
    assert_eq!(ledger.open(7, UnixTimestamp(140)), Ok(2));
    assert_eq!(ledger.all_intervals(), vec![closed(1, 7, 100, 130), open(2, 7, 140)]);
}

#[test]
fn close_sets_the_end_of_the_open_interval() {
    let mut ledger = WorkHistoryLedger::new();
    ledger.open(7, UnixTimestamp(100)).unwrap();
    ledger.open(8, UnixTimestamp(105)).unwrap();
    assert!(ledger.close(7, UnixTimestamp(160)));
    assert_eq!(ledger.all_intervals(), vec![closed(1, 7, 100, 160), open(2, 8, 105)]);
    assert!(!ledger.has_open(7));
    assert!(ledger.has_open(8));
}

#[test]
fn close_without_an_open_interval_does_nothing() {
    let mut ledger = WorkHistoryLedger::new();
    assert!(!ledger.close(7, UnixTimestamp(160)));
    assert_eq!(ledger.all_intervals(), vec![]);
    ledger.open(7, UnixTimestamp(100)).unwrap();
    ledger.close(7, UnixTimestamp(160));
    assert!(!ledger.close(7, UnixTimestamp(190)));
    assert_eq!(ledger.all_intervals(), vec![closed(1, 7, 100, 160)]);
}

#[test]
fn close_before_the_start_ends_at_the_start() {
    let mut ledger = WorkHistoryLedger::new();
    ledger.open(7, UnixTimestamp(100)).unwrap();
    assert!(ledger.close(7, UnixTimestamp(40)));
    assert_eq!(ledger.all_intervals(), vec![closed(1, 7, 100, 100)]);
    assert_eq!(ledger.elapsed(7, UnixTimestamp(500)), 0);
}

#[test]
fn delete_all_removes_the_intervals_of_the_task_only() {
    let mut ledger = WorkHistoryLedger::new();
    ledger.open(7, UnixTimestamp(100)).unwrap();
    ledger.open(8, UnixTimestamp(105)).unwrap();
    ledger.close(7, UnixTimestamp(160));
    ledger.open(7, UnixTimestamp(200)).unwrap();
    ledger.delete_all(7);
    assert_eq!(ledger.intervals_for(7), vec![]);
    assert_eq!(ledger.all_intervals(), vec![open(2, 8, 105)]);
}

#[test]
fn delete_open_removes_the_open_interval_only() {
    let mut ledger = WorkHistoryLedger::new();
    ledger.open(7, UnixTimestamp(100)).unwrap();
    ledger.close(7, UnixTimestamp(160));
    ledger.open(7, UnixTimestamp(200)).unwrap();
    assert!(ledger.delete_open(7));
    assert!(!ledger.delete_open(7));
    assert_eq!(ledger.all_intervals(), vec![closed(1, 7, 100, 160)]);
}

#[test]
fn intervals_are_listed_most_recent_first() {
    let mut ledger = WorkHistoryLedger::new();
    ledger.open(7, UnixTimestamp(100)).unwrap();
    ledger.close(7, UnixTimestamp(160));
    ledger.open(8, UnixTimestamp(170)).unwrap();
    ledger.open(7, UnixTimestamp(200)).unwrap();
    ledger.close(7, UnixTimestamp(230));
    ledger.open(7, UnixTimestamp(300)).unwrap();
    assert_eq!(ledger.intervals_for(7), vec![open(4, 7, 300), closed(3, 7, 200, 230), closed(1, 7, 100, 160)]);
    assert_eq!(ledger.intervals_for(8), vec![open(2, 8, 170)]);
    assert_eq!(ledger.intervals_for(9), vec![]);
    assert_eq!(ledger.elapsed(7, UnixTimestamp(345)), 60 + 30 + 45);
    assert_eq!(ledger.elapsed(8, UnixTimestamp(345)), 175);
    assert_eq!(ledger.elapsed(9, UnixTimestamp(345)), 0);
}

#[test]
fn selection_keeps_the_order() {
    let entries = vec![closed(1, 7, 0, 5), open(2, 8, 6), closed(3, 7, 7, 9), open(4, 7, 10)];
    assert_eq!(
        select_entries(&entries, Selection::OfTask(7)),
        vec![closed(1, 7, 0, 5), closed(3, 7, 7, 9), open(4, 7, 10)]
    );
    assert_eq!(select_entries(&entries, Selection::NotOfTask(7)), vec![open(2, 8, 6)]);
    assert_eq!(
        select_entries(&entries, Selection::NotOpenOf(7)),
        vec![closed(1, 7, 0, 5), open(2, 8, 6), closed(3, 7, 7, 9)]
    );
}

#[test]
fn effects_apply_to_the_ledger() {
    let mut ledger = WorkHistoryLedger::new();
    assert!(!ledger.apply(7, LedgerEffect::Open, UnixTimestamp(100)));
    assert!(ledger.apply(7, LedgerEffect::Open, UnixTimestamp(120)));
    assert_eq!(ledger.all_intervals(), vec![open(2, 7, 120)]);
    assert!(!ledger.apply(7, LedgerEffect::Close, UnixTimestamp(150)));
    assert_eq!(ledger.all_intervals(), vec![closed(2, 7, 120, 150)]);
    assert!(!ledger.apply(8, LedgerEffect::Open, UnixTimestamp(160)));
    assert!(!ledger.apply(7, LedgerEffect::CloseAndDeleteAll, UnixTimestamp(170)));
    assert_eq!(ledger.all_intervals(), vec![open(3, 8, 160)]);
}

#[test]
fn ledger_is_built_from_consistent_entries_only() {
    let good = vec![closed(1, 7, 0, 5), open(2, 8, 6), closed(3, 7, 7, 9), open(4, 7, 10)];
    let mut ledger = WorkHistoryLedger::from_entries(good.clone(), 5).unwrap();
    assert_eq!(ledger.all_intervals(), good);
    assert_eq!(ledger.open(9, UnixTimestamp(20)), Ok(5));
    assert!(WorkHistoryLedger::from_entries(vec![], 1).is_some());
    // two open intervals of one task
    assert!(WorkHistoryLedger::from_entries(vec![open(1, 7, 0), closed(2, 8, 1, 2), open(3, 7, 5)], 4).is_none());
    // an interval that ends before it starts
    assert!(WorkHistoryLedger::from_entries(vec![closed(1, 7, 10, 5)], 4).is_none());
    // an id that the next interval could get again
    assert!(WorkHistoryLedger::from_entries(vec![closed(4, 7, 0, 5)], 4).is_none());
    assert!(WorkHistoryLedger::from_entries(vec![closed(4, 7, 0, 5)], 5).is_some());
}

#[test]
fn full_ledger_cannot_open() {
    let ledger = WorkHistoryLedger::from_entries(vec![], i64::MAX).unwrap();
    assert!(!ledger.can_open());
    let ledger = WorkHistoryLedger::from_entries(vec![], i64::MAX - 1).unwrap();
    assert!(ledger.can_open());
}
