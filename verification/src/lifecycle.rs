//! The lifecycle of a task: each command sets the task's status and drives
//! the ledger of its work intervals.

use vstd::prelude::*;
use crate::duration::OptionalDurationInSeconds;
use crate::error::TrackerError;
use crate::history::{total_seconds, TaskWorkHistory};
use crate::ledger::{
    after_effect, closed_at, lemma_close_nothing, lemma_closed_open_count, lemma_effect_elsewhere,
    lemma_effect_on_task, lemma_no_interval_left, lemma_select_all, lemma_select_members, lemma_select_open_count,
    open_count, opened, select, Selection, WorkHistoryLedger,
};
use crate::status::{effect_of, next_status, transition, Command, LedgerEffect, Status};
use crate::timestamp::{OptionalUnixTimestamp, UnixTimestamp};

verus! {

/// A unit of work, as the store of tasks holds it.
#[derive(Clone, Debug)]
pub struct Task {
    pub id: i64,
    pub title: String,
    pub description: String,
    pub status: Status,
    pub scheduled_start_date: OptionalUnixTimestamp,
    pub scheduled_complete_date: OptionalUnixTimestamp,
    pub estimated_duration: OptionalDurationInSeconds,
}

/// What a command did.
#[derive(Clone, Debug)]
pub struct Transitioned {
    /// The task with its new status, to be stored.
    pub task: Task,
    /// A stray open interval of the task was removed before the new one
    /// opened.
    pub reconciled: bool,
}

/// The task with the status that the command leaves it in.
pub open spec fn with_status(task: Task, status: Status) -> Task {
    Task { status, ..task }
}

/// What `command` does at `now`, given `found`, the task that the store
/// holds under `task_id`, if any. Without a task the command fails as not
/// found and the ledger stays as it was; with one it succeeds, the task
/// gets its new status and the ledger the command's effect.
pub open spec fn command_outcome(
    before: WorkHistoryLedger,
    after: WorkHistoryLedger,
    found: Option<Task>,
    task_id: i64,
    command: Command,
    now: UnixTimestamp,
    result: Result<Transitioned, TrackerError>,
) -> bool {
    match found {
        None => {
            &&& result == Err::<Transitioned, TrackerError>(TrackerError::NotFound(task_id))
            &&& after == before
        },
        Some(task) => {
            &&& result is Ok
            &&& result->Ok_0.task == with_status(task, next_status(command))
            &&& result->Ok_0.reconciled == (effect_of(command) == LedgerEffect::Open && open_count(before@, task.id)
                > 0)
            &&& after@ == after_effect(before@, before.next_id(), task.id, effect_of(command), now)
            &&& after.wf()
            &&& open_count(after@, task.id) == if next_status(command) == Status::Doing {
                1nat
            } else {
                0nat
            }
        },
    }
}

/// What a command needs: a well-formed ledger and, where an interval is to
/// open, an id for it.
pub open spec fn command_ready(ledger: WorkHistoryLedger, found: Option<Task>, command: Command) -> bool {
    &&& ledger.wf()
    &&& found is Some && effect_of(command) == LedgerEffect::Open ==> ledger.has_room()
}

/// Runs `command` on the task that the store holds under `task_id`.
pub fn run_command(
    ledger: &mut WorkHistoryLedger,
    found: Option<Task>,
    task_id: i64,
    command: Command,
    now: UnixTimestamp,
) -> (r: Result<Transitioned, TrackerError>)
    requires
        command_ready(*old(ledger), found, command),
    ensures
        final(ledger).wf(),
        command_outcome(*old(ledger), *final(ledger), found, task_id, command, now, r),
{
    match found {
        None => Err(TrackerError::NotFound(task_id)),
        Some(task) => {
            let (status, effect) = transition(task.status, command);
            let reconciled: bool = ledger.apply(task.id, effect, now);
            let mut task = task;
            task.status = status;
            Ok(Transitioned { task, reconciled })
        },
    }
}

/// Starts work on the task: it is then being done, and an interval opens
/// at `now`.
pub fn start_task(ledger: &mut WorkHistoryLedger, found: Option<Task>, task_id: i64, now: UnixTimestamp) -> (r: Result<
    Transitioned,
    TrackerError,
>)
    requires
        command_ready(*old(ledger), found, Command::Start),
    ensures
        final(ledger).wf(),
        command_outcome(*old(ledger), *final(ledger), found, task_id, Command::Start, now, r),
{
    run_command(ledger, found, task_id, Command::Start, now)
}

/// Pauses the task: its open interval, if any, closes at `now`.
pub fn pause_task(ledger: &mut WorkHistoryLedger, found: Option<Task>, task_id: i64, now: UnixTimestamp) -> (r: Result<
    Transitioned,
    TrackerError,
>)
    requires
        command_ready(*old(ledger), found, Command::Pause),
    ensures
        final(ledger).wf(),
        command_outcome(*old(ledger), *final(ledger), found, task_id, Command::Pause, now, r),
{
    run_command(ledger, found, task_id, Command::Pause, now)
}

/// Resumes the task: it is being done again, and an interval opens at `now`.
pub fn resume_task(ledger: &mut WorkHistoryLedger, found: Option<Task>, task_id: i64, now: UnixTimestamp) -> (r:
    Result<Transitioned, TrackerError>)
    requires
        command_ready(*old(ledger), found, Command::Resume),
    ensures
        final(ledger).wf(),
        command_outcome(*old(ledger), *final(ledger), found, task_id, Command::Resume, now, r),
{
    run_command(ledger, found, task_id, Command::Resume, now)
}

/// Finishes the task: it is done, and its open interval, if any, closes
/// at `now`.
pub fn finish_task(ledger: &mut WorkHistoryLedger, found: Option<Task>, task_id: i64, now: UnixTimestamp) -> (r:
    Result<Transitioned, TrackerError>)
    requires
        command_ready(*old(ledger), found, Command::Finish),
    ensures
        final(ledger).wf(),
        command_outcome(*old(ledger), *final(ledger), found, task_id, Command::Finish, now, r),
{
    run_command(ledger, found, task_id, Command::Finish, now)
}

/// Cancels the task: every interval of it is deleted, so that none of its
/// time counts any more.
pub fn cancel_task(ledger: &mut WorkHistoryLedger, found: Option<Task>, task_id: i64, now: UnixTimestamp) -> (r:
    Result<Transitioned, TrackerError>)
    requires
        command_ready(*old(ledger), found, Command::Cancel),
    ensures
        final(ledger).wf(),
        command_outcome(*old(ledger), *final(ledger), found, task_id, Command::Cancel, now, r),
{
    run_command(ledger, found, task_id, Command::Cancel, now)
}

/// Reopens a task that was done or cancelled: it is being done again, and
/// an interval opens at `now`.
pub fn reopen_task(ledger: &mut WorkHistoryLedger, found: Option<Task>, task_id: i64, now: UnixTimestamp) -> (r:
    Result<Transitioned, TrackerError>)
    requires
        command_ready(*old(ledger), found, Command::Reopen),
    ensures
        final(ledger).wf(),
        command_outcome(*old(ledger), *final(ledger), found, task_id, Command::Reopen, now, r),
{
    run_command(ledger, found, task_id, Command::Reopen, now)
}

/// Puts the task back among those to do: its open interval, if any,
/// closes at `now`, and its intervals are kept.
pub fn restore_task(ledger: &mut WorkHistoryLedger, found: Option<Task>, task_id: i64, now: UnixTimestamp) -> (r:
    Result<Transitioned, TrackerError>)
    requires
        command_ready(*old(ledger), found, Command::Restore),
    ensures
        final(ledger).wf(),
        command_outcome(*old(ledger), *final(ledger), found, task_id, Command::Restore, now, r),
{
    run_command(ledger, found, task_id, Command::Restore, now)
}

/// What restoring makes of a task that has been worked on.
#[derive(Clone, Copy, Debug, PartialEq, Eq, Structural)]
pub enum RestorePolicy {
    /// Every restored task is to do.
    AlwaysTodo,
    /// A restored task that has time worked is paused, so that a task
    /// that was started and reset can be told from one that was never
    /// started; one without time worked is to do.
    PausedIfStarted,
}

/// The status of a restored task with `elapsed` seconds worked.
pub open spec fn restored_status(policy: RestorePolicy, elapsed: nat) -> Status {
    if policy == RestorePolicy::PausedIfStarted && elapsed > 0 {
        Status::Paused
    } else {
        Status::Todo
    }
}

/// Restores the task under `policy`: its open interval, if any, closes at
/// `now`, its intervals are kept, and its status is what the policy makes
/// of the time worked on it by then.
pub fn restore_task_with(
    policy: RestorePolicy,
    ledger: &mut WorkHistoryLedger,
    found: Option<Task>,
    task_id: i64,
    now: UnixTimestamp,
) -> (r: Result<Transitioned, TrackerError>)
    requires
        old(ledger).wf(),
    ensures
        final(ledger).wf(),
        found is None ==> r == Err::<Transitioned, TrackerError>(TrackerError::NotFound(task_id)) && *final(ledger)
            == *old(ledger),
        found is Some ==> {
            &&& r is Ok
            &&& final(ledger)@ == after_effect(old(ledger)@, old(ledger).next_id(), found->0.id, LedgerEffect::Close, now)
            &&& r->Ok_0.task == with_status(
                found->0,
                restored_status(policy, total_seconds(select(final(ledger)@, Selection::OfTask(found->0.id)), now@)),
            )
            &&& !r->Ok_0.reconciled
            &&& open_count(final(ledger)@, found->0.id) == 0
        },
{
    match found {
        None => Err(TrackerError::NotFound(task_id)),
        Some(task) => {
            ledger.apply(task.id, LedgerEffect::Close, now);
            let elapsed: u128 = ledger.elapsed(task.id, now);
            let status: Status = match policy {
                RestorePolicy::AlwaysTodo => Status::Todo,
                RestorePolicy::PausedIfStarted => if elapsed > 0 {
                    Status::Paused
                } else {
                    Status::Todo
                },
            };
            let mut task = task;
            task.status = status;
            Ok(Transitioned { task, reconciled: false })
        },
    }
}

/// The interval of the task that ran from `start` to `end`.
pub open spec fn closed_interval(id: i64, task_id: i64, start: UnixTimestamp, end: UnixTimestamp) -> TaskWorkHistory {
    TaskWorkHistory { id, task_id, start_date: start, end_date: OptionalUnixTimestamp(Some(end.0)) }
}

/// A task that is started, paused, started again and paused again has
/// two more closed intervals than it had closed intervals before, one
/// for each time it was being done, and its time worked has grown by the
/// time from each start to the pause after it. An interval that was open
/// before the first start is dropped by it.
pub proof fn lemma_two_sessions(
    entries: Seq<TaskWorkHistory>,
    task_id: i64,
    first_id: i64,
    second_id: i64,
    start: UnixTimestamp,
    pause: UnixTimestamp,
    restart: UnixTimestamp,
    stop: UnixTimestamp,
    now: int,
)
    requires
        start@ <= pause@,
        restart@ <= stop@,
    ensures
        ({
            let started = after_effect(entries, first_id, task_id, effect_of(Command::Start), start);
            let paused = after_effect(started, second_id, task_id, effect_of(Command::Pause), pause);
            let restarted = after_effect(paused, second_id, task_id, effect_of(Command::Start), restart);
            let stopped = after_effect(restarted, second_id, task_id, effect_of(Command::Pause), stop);
            let before = select(select(entries, Selection::OfTask(task_id)), Selection::NotOpenOf(task_id));
            let after = select(stopped, Selection::OfTask(task_id));
            &&& after == before.push(closed_interval(first_id, task_id, start, pause)).push(
                closed_interval(second_id, task_id, restart, stop),
            )
            &&& open_count(after, task_id) == 0
            &&& total_seconds(after, now) == total_seconds(before, now) + (pause@ - start@) + (stop@ - restart@)
        }),
{
    let mine = Selection::OfTask(task_id);
    let settled = Selection::NotOpenOf(task_id);
    let started = after_effect(entries, first_id, task_id, LedgerEffect::Open, start);
    let paused = after_effect(started, second_id, task_id, LedgerEffect::Close, pause);
    let restarted = after_effect(paused, second_id, task_id, LedgerEffect::Open, restart);
    let stopped = after_effect(restarted, second_id, task_id, LedgerEffect::Close, stop);
    let before = select(select(entries, mine), settled);
    let first_open = opened(first_id, task_id, start);
    let first = closed_interval(first_id, task_id, start, pause);
    let second_open = opened(second_id, task_id, restart);
    let second = closed_interval(second_id, task_id, restart, stop);

    lemma_effect_on_task(entries, first_id, task_id, LedgerEffect::Open, start);
    assert(select(started, mine) == before.push(first_open));

    lemma_select_members(select(entries, mine), settled);
    lemma_close_nothing(before, task_id, pause);
    lemma_effect_on_task(started, second_id, task_id, LedgerEffect::Close, pause);
    assert(closed_at(before.push(first_open), task_id, pause) =~= closed_at(before, task_id, pause).push(first));
    assert(select(paused, mine) == before.push(first));

    lemma_effect_on_task(paused, second_id, task_id, LedgerEffect::Open, restart);
    assert forall|i: int| 0 <= i < before.push(first).len() implies settled.picks(
        #[trigger] before.push(first)[i],
    ) by {
        if i < before.len() {
            assert(before.push(first)[i] == before[i]);
        }
    }
    lemma_select_all(before.push(first), settled);
    assert(select(restarted, mine) == before.push(first).push(second_open));

    lemma_effect_on_task(restarted, second_id, task_id, LedgerEffect::Close, stop);
    lemma_close_nothing(before.push(first), task_id, stop);
    assert(closed_at(before.push(first).push(second_open), task_id, stop) =~= closed_at(
        before.push(first),
        task_id,
        stop,
    ).push(second));
    let after = before.push(first).push(second);
    assert(select(stopped, mine) == after);

    assert(after.drop_last() =~= before.push(first));
    assert(before.push(first).drop_last() =~= before);
    lemma_closed_open_count(restarted, task_id, stop, task_id);
    lemma_select_open_count(stopped, mine, task_id);
    assert(open_count(after, task_id) == 0);
    assert(after.last() == second);
    assert(before.push(first).last() == first);
    assert(first.seconds(now) == pause@ - start@);
    assert(second.seconds(now) == stop@ - restart@);
    assert(total_seconds(before.push(first), now) == total_seconds(before, now) + first.seconds(now));
    assert(total_seconds(after, now) == total_seconds(before.push(first), now) + second.seconds(now));
}

/// Once a task is cancelled the ledger holds no interval of it: its time
/// worked is zero, and the intervals of the other tasks are as they were.
pub proof fn lemma_cancel_discards(
    entries: Seq<TaskWorkHistory>,
    id: i64,
    task_id: i64,
    at: UnixTimestamp,
    now: int,
)
    ensures
        ({
            let after = after_effect(entries, id, task_id, effect_of(Command::Cancel), at);
            &&& select(after, Selection::OfTask(task_id)) == Seq::<TaskWorkHistory>::empty()
            &&& total_seconds(select(after, Selection::OfTask(task_id)), now) == 0
            &&& forall|i: int| 0 <= i < after.len() ==> (#[trigger] after[i]).task_id != task_id
            &&& forall|other: i64|
                other != task_id ==> #[trigger] select(after, Selection::OfTask(other)) == select(
                    entries,
                    Selection::OfTask(other),
                )
        }),
{
    let after = after_effect(entries, id, task_id, LedgerEffect::CloseAndDeleteAll, at);
    lemma_no_interval_left(entries, task_id);
    lemma_select_members(entries, Selection::NotOfTask(task_id));
    assert forall|other: i64| other != task_id implies #[trigger] select(after, Selection::OfTask(other)) == select(
        entries,
        Selection::OfTask(other),
    ) by {
        lemma_effect_elsewhere(entries, id, task_id, LedgerEffect::CloseAndDeleteAll, at, other);
    }
}

} // verus!
