use timely::duration::OptionalDurationInSeconds;
use timely::error::TrackerError;
use timely::history::TaskWorkHistory;
use timely::ledger::WorkHistoryLedger;
use timely::lifecycle::{
    cancel_task, finish_task, pause_task, reopen_task, restore_task, restore_task_with, resume_task, run_command,
    start_task, RestorePolicy, Task,
};
use timely::status::{transition, Command, LedgerEffect, Status};
use timely::timestamp::{OptionalUnixTimestamp, UnixTimestamp};

fn task(id: i64, status: Status) -> Task {
    Task {
        id,
        title: format!("task {}", id),
        description: String::from("something to do"),
        status,
        scheduled_start_date: OptionalUnixTimestamp::none(),
        scheduled_complete_date: OptionalUnixTimestamp::from_seconds(900),
        estimated_duration: OptionalDurationInSeconds::from_option(Some(3600)),
    }
}

fn closed(id: i64, task_id: i64, start: i64, end: i64) -> TaskWorkHistory {
    TaskWorkHistory { id, task_id, start_date: UnixTimestamp(start), end_date: OptionalUnixTimestamp(Some(end)) }
}

fn open(id: i64, task_id: i64, start: i64) -> TaskWorkHistory {
    TaskWorkHistory { id, task_id, start_date: UnixTimestamp(start), end_date: OptionalUnixTimestamp(None) }
}

#[test]
fn every_command_has_its_status_and_effect() {
    let all = [Status::Todo, Status::Doing, Status::Paused, Status::Done, Status::Cancelled];
    for current in all {
        assert_eq!(transition(current, Command::Start), (Status::Doing, LedgerEffect::Open));
        assert_eq!(transition(current, Command::Resume), (Status::Doing, LedgerEffect::Open));
        assert_eq!(transition(current, Command::Reopen), (Status::Doing, LedgerEffect::Open));
        assert_eq!(transition(current, Command::Pause), (Status::Paused, LedgerEffect::Close));
        assert_eq!(transition(current, Command::Finish), (Status::Done, LedgerEffect::Close));
        assert_eq!(transition(current, Command::Restore), (Status::Todo, LedgerEffect::Close));
        assert_eq!(transition(current, Command::Cancel), (Status::Cancelled, LedgerEffect::CloseAndDeleteAll));
    }
    assert_eq!(Status::default(), Status::Todo);
    assert!(Status::Done.is_done());
    assert!(!Status::Doing.is_done());
    assert!(Status::Doing.is_active());
    assert!(!Status::Paused.is_active());
}

#[test]
fn start_pause_start_pause_leaves_two_closed_intervals() {
    let mut ledger = WorkHistoryLedger::new();
    let t = start_task(&mut ledger, Some(task(5, Status::Todo)), 5, UnixTimestamp(1000)).unwrap().task;
    assert_eq!(t.status, Status::Doing);
    let t = pause_task(&mut ledger, Some(t), 5, UnixTimestamp(1600)).unwrap().task;
    assert_eq!(t.status, Status::Paused);
    let t = start_task(&mut ledger, Some(t), 5, UnixTimestamp(2000)).unwrap().task;
    assert_eq!(t.status, Status::Doing);
    let t = pause_task(&mut ledger, Some(t), 5, UnixTimestamp(2300)).unwrap().task;
    assert_eq!(t.status, Status::Paused);
    assert_eq!(ledger.all_intervals(), vec![closed(1, 5, 1000, 1600), closed(2, 5, 2000, 2300)]);
    assert_eq!(ledger.intervals_for(5), vec![closed(2, 5, 2000, 2300), closed(1, 5, 1000, 1600)]);
    assert_eq!(ledger.elapsed(5, UnixTimestamp(9999)), 600 + 300);
    assert!(!ledger.has_open(5));
}

#[test]
fn command_keeps_the_rest_of_the_task() {
    let mut ledger = WorkHistoryLedger::new();
    let done = start_task(&mut ledger, Some(task(5, Status::Todo)), 5, UnixTimestamp(1000)).unwrap();
    assert!(!done.reconciled);
    assert_eq!(done.task.id, 5);
    assert_eq!(done.task.title, "task 5");
    assert_eq!(done.task.description, "something to do");
    assert_eq!(done.task.scheduled_start_date, OptionalUnixTimestamp(None));
    assert_eq!(done.task.scheduled_complete_date, OptionalUnixTimestamp(Some(900)));
    assert_eq!(done.task.estimated_duration, OptionalDurationInSeconds(Some(3600)));
}

#[test]
fn command_on_a_missing_task_is_not_found() {
    let mut ledger = WorkHistoryLedger::new();
    start_task(&mut ledger, Some(task(5, Status::Todo)), 5, UnixTimestamp(1000)).unwrap();
    let before = ledger.all_intervals();
    assert_eq!(start_task(&mut ledger, None, 6, UnixTimestamp(1100)).unwrap_err(), TrackerError::NotFound(6));
    assert_eq!(pause_task(&mut ledger, None, 6, UnixTimestamp(1100)).unwrap_err(), TrackerError::NotFound(6));
    assert_eq!(resume_task(&mut ledger, None, 6, UnixTimestamp(1100)).unwrap_err(), TrackerError::NotFound(6));
    assert_eq!(finish_task(&mut ledger, None, 6, UnixTimestamp(1100)).unwrap_err(), TrackerError::NotFound(6));
    assert_eq!(cancel_task(&mut ledger, None, 5, UnixTimestamp(1100)).unwrap_err(), TrackerError::NotFound(5));
    assert_eq!(reopen_task(&mut ledger, None, 6, UnixTimestamp(1100)).unwrap_err(), TrackerError::NotFound(6));
    assert_eq!(restore_task(&mut ledger, None, 6, UnixTimestamp(1100)).unwrap_err(), TrackerError::NotFound(6));
    assert_eq!(
        run_command(&mut ledger, None, 9, Command::Cancel, UnixTimestamp(1100)).unwrap_err(),
        TrackerError::NotFound(9)
    );
    assert_eq!(ledger.all_intervals(), before);
}

#[test]
fn start_drops_a_stray_open_interval() {
    let mut ledger = WorkHistoryLedger::new();
    start_task(&mut ledger, Some(task(5, Status::Todo)), 5, UnixTimestamp(1000)).unwrap();
    start_task(&mut ledger, Some(task(6, Status::Todo)), 6, UnixTimestamp(1050)).unwrap();
    let again = start_task(&mut ledger, Some(task(5, Status::Doing)), 5, UnixTimestamp(1200)).unwrap();
    assert!(again.reconciled);
    assert_eq!(again.task.status, Status::Doing);
    assert_eq!(ledger.all_intervals(), vec![open(2, 6, 1050), open(3, 5, 1200)]);
}

#[test]
fn pause_without_an_open_interval_still_sets_the_status() {
    let mut ledger = WorkHistoryLedger::new();
    let paused = pause_task(&mut ledger, Some(task(5, Status::Todo)), 5, UnixTimestamp(1000)).unwrap();
    assert_eq!(paused.task.status, Status::Paused);
    assert!(!paused.reconciled);
    assert_eq!(ledger.all_intervals(), vec![]);
}

#[test]
fn finish_closes_the_open_interval() {
    let mut ledger = WorkHistoryLedger::new();
    let t = start_task(&mut ledger, Some(task(5, Status::Todo)), 5, UnixTimestamp(1000)).unwrap().task;
    let t = finish_task(&mut ledger, Some(t), 5, UnixTimestamp(1900)).unwrap().task;
    assert_eq!(t.status, Status::Done);
    assert_eq!(ledger.all_intervals(), vec![closed(1, 5, 1000, 1900)]);
    let t = reopen_task(&mut ledger, Some(t), 5, UnixTimestamp(2000)).unwrap().task;
    assert_eq!(t.status, Status::Doing);
    assert_eq!(ledger.all_intervals(), vec![closed(1, 5, 1000, 1900), open(2, 5, 2000)]);
    let t = resume_task(&mut ledger, Some(t), 5, UnixTimestamp(2100)).unwrap().task;
    assert_eq!(t.status, Status::Doing);
    assert_eq!(ledger.all_intervals(), vec![closed(1, 5, 1000, 1900), open(3, 5, 2100)]);
}

#[test]
fn cancel_removes_all_intervals() {
    let mut ledger = WorkHistoryLedger::new();
    let t = start_task(&mut ledger, Some(task(5, Status::Todo)), 5, UnixTimestamp(1000)).unwrap().task;
    let t = pause_task(&mut ledger, Some(t), 5, UnixTimestamp(1600)).unwrap().task;
    start_task(&mut ledger, Some(task(6, Status::Todo)), 6, UnixTimestamp(1700)).unwrap();
    let t = start_task(&mut ledger, Some(t), 5, UnixTimestamp(2000)).unwrap().task;
    let t = cancel_task(&mut ledger, Some(t), 5, UnixTimestamp(2300)).unwrap().task;
    assert_eq!(t.status, Status::Cancelled);
    assert_eq!(ledger.intervals_for(5), vec![]);
    assert_eq!(ledger.elapsed(5, UnixTimestamp(5000)), 0);
    assert_eq!(ledger.all_intervals(), vec![open(2, 6, 1700)]);
}

#[test]
fn restore_keeps_the_history() {
    let mut ledger = WorkHistoryLedger::new();
    let t = start_task(&mut ledger, Some(task(5, Status::Todo)), 5, UnixTimestamp(1000)).unwrap().task;
    let t = pause_task(&mut ledger, Some(t), 5, UnixTimestamp(1600)).unwrap().task;
    let t = start_task(&mut ledger, Some(t), 5, UnixTimestamp(2000)).unwrap().task;
    let t = restore_task(&mut ledger, Some(t), 5, UnixTimestamp(2300)).unwrap().task;
    assert_eq!(t.status, Status::Todo);
    assert_eq!(ledger.all_intervals(), vec![closed(1, 5, 1000, 1600), closed(2, 5, 2000, 2300)]);
    assert_eq!(ledger.elapsed(5, UnixTimestamp(5000)), 900);
}

#[test]
fn statuses_are_shown_under_their_labels() {
    assert_eq!(Status::Todo.label(), "To Do");
    assert_eq!(Status::Doing.label(), "Doing");
    assert_eq!(Status::Done.label(), "Done");
    assert_eq!(Status::Paused.label(), "Paused");
    assert_eq!(Status::Cancelled.label(), "Cancelled");
    for status in [Status::Todo, Status::Doing, Status::Paused, Status::Done, Status::Cancelled] {
        assert_eq!(Status::from_label(status.label()), Some(status));
    }
    assert_eq!(Status::from_label("Todo"), None);
    assert_eq!(Status::from_label("to do"), None);
    assert_eq!(Status::from_label(""), None);
}

#[test]
fn restore_under_a_policy() {
    let mut ledger = WorkHistoryLedger::new();
    let t = start_task(&mut ledger, Some(task(5, Status::Todo)), 5, UnixTimestamp(1000)).unwrap().task;
    let t = restore_task_with(RestorePolicy::PausedIfStarted, &mut ledger, Some(t), 5, UnixTimestamp(1300)).unwrap().task;
    assert_eq!(t.status, Status::Paused);
    assert_eq!(ledger.all_intervals(), vec![closed(1, 5, 1000, 1300)]);
    let t = restore_task_with(RestorePolicy::AlwaysTodo, &mut ledger, Some(t), 5, UnixTimestamp(1400)).unwrap().task;
    assert_eq!(t.status, Status::Todo);
    assert_eq!(ledger.all_intervals(), vec![closed(1, 5, 1000, 1300)]);
    let never = restore_task_with(RestorePolicy::PausedIfStarted, &mut ledger, Some(task(6, Status::Done)), 6, UnixTimestamp(1500))
        .unwrap();
    assert_eq!(never.task.status, Status::Todo);
    assert!(!never.reconciled);
    let u = start_task(&mut ledger, Some(task(7, Status::Todo)), 7, UnixTimestamp(1600)).unwrap().task;
    let u = restore_task_with(RestorePolicy::PausedIfStarted, &mut ledger, Some(u), 7, UnixTimestamp(1600)).unwrap().task;
    assert_eq!(u.status, Status::Todo);
    assert_eq!(
        restore_task_with(RestorePolicy::AlwaysTodo, &mut ledger, None, 9, UnixTimestamp(1700)).unwrap_err(),
        TrackerError::NotFound(9)
    );
}
