//! Tasks as they are created, edited and shown.

use vstd::prelude::*;
use crate::comment::{read_comments, Comment, CommentRead};
use crate::duration::OptionalDurationInSeconds;
use crate::history::{
    elapsed_duration, get_actual_complete, get_actual_start, is_earliest_start, is_latest_end, total_seconds,
    TaskWorkHistory,
};
use crate::lifecycle::Task;
use crate::status::Status;
use crate::tags::Tag;
use crate::timestamp::{OptionalUnixTimestamp, UnixTimestamp};

verus! {

/// A work interval as it is shown: an open one runs up to the instant at
/// which it is shown.
#[derive(Clone, Copy, Debug, PartialEq, Eq, Structural)]
pub struct TaskWorkHistoryRead {
    pub id: i64,
    pub task_id: i64,
    pub start_date: UnixTimestamp,
    pub end_date: UnixTimestamp,
    pub elapsed_duration: u64,
}

/// A work interval that the user adds by hand.
#[derive(Clone, Copy, Debug, PartialEq, Eq, Structural)]
pub struct NewTaskWorkHistory {
    pub task_id: i64,
    pub start_date: UnixTimestamp,
    pub end_date: UnixTimestamp,
}

/// New bounds for a work interval.
#[derive(Clone, Copy, Debug, PartialEq, Eq, Structural)]
pub struct EditTaskWorkHistory {
    pub id: i64,
    pub task_id: i64,
    pub start_date: UnixTimestamp,
    pub end_date: UnixTimestamp,
}

impl TaskWorkHistoryRead {
    /// The interval as it is shown at `now`.
    pub open spec fn shown(value: TaskWorkHistory, now: UnixTimestamp) -> TaskWorkHistoryRead {
        TaskWorkHistoryRead {
            id: value.id,
            task_id: value.task_id,
            start_date: value.start_date,
            end_date: UnixTimestamp(value.end_or(now@) as i64),
            elapsed_duration: value.seconds(now@) as u64,
        }
    }

    /// The interval as it is shown at `now`, with the seconds worked in it.
    pub fn from_history(value: TaskWorkHistory, now: UnixTimestamp) -> (r: Self)
        ensures
            r == Self::shown(value, now),
            r.end_date@ == value.end_or(now@),
            r.elapsed_duration == value.seconds(now@),
    {
        Self {
            id: value.id,
            task_id: value.task_id,
            start_date: value.start_date,
            end_date: value.end_date.unwrap_or(now),
            elapsed_duration: value.elapsed(now),
        }
    }
}

/// The intervals as they are shown at `now`, in their order.
pub fn read_history(history: &Vec<TaskWorkHistory>, now: UnixTimestamp) -> (r: Vec<TaskWorkHistoryRead>)
    ensures
        r@.len() == history@.len(),
        forall|k: int| 0 <= k < history@.len() ==> #[trigger] r@[k] == TaskWorkHistoryRead::shown(history@[k], now),
{
    let n: usize = history.len();
    let mut out: Vec<TaskWorkHistoryRead> = Vec::new();
    let mut k: usize = 0;
    while k < n
        invariant
            k <= n,
            n == history.len(),
            out@.len() == k,
            forall|j: int| 0 <= j < k ==> #[trigger] out@[j] == TaskWorkHistoryRead::shown(history@[j], now),
        decreases n - k,
    {
        out.push(TaskWorkHistoryRead::from_history(history[k], now));
        k += 1;
    }
    out
}

/// A task to store.
#[derive(Clone, Debug)]
pub struct NewTask {
    pub title: String,
    pub description: String,
    pub status: Status,
    pub scheduled_start_date: OptionalUnixTimestamp,
    pub scheduled_complete_date: OptionalUnixTimestamp,
    pub estimated_duration: Option<i64>,
}

/// A task as the user creates it.
#[derive(Clone, Debug)]
pub struct CreateTask {
    pub title: String,
    pub description: String,
    pub status: Status,
    pub scheduled_start_date: Option<UnixTimestamp>,
    pub scheduled_complete_date: Option<UnixTimestamp>,
    pub estimated_duration: Option<i64>,
    pub tags: Option<Vec<Tag>>,
}

/// New values for a task. The status is not among what an edit changes.
#[derive(Clone, Debug)]
pub struct EditTask {
    pub id: i64,
    pub title: String,
    pub description: String,
    pub status: Status,
    pub scheduled_start_date: Option<UnixTimestamp>,
    pub scheduled_complete_date: Option<UnixTimestamp>,
    pub estimated_duration: Option<i64>,
}

/// A task as it is shown, with what is derived from its work intervals.
#[derive(Clone, Debug)]
pub struct TaskRead {
    pub id: i64,
    pub title: String,
    pub description: String,
    pub status: Status,
    pub scheduled_start_date: Option<UnixTimestamp>,
    pub scheduled_complete_date: Option<UnixTimestamp>,
    pub actual_start_date: Option<UnixTimestamp>,
    pub actual_complete_date: Option<UnixTimestamp>,
    pub estimated_duration: Option<i64>,
    pub elapsed_duration: u128,
    pub comments: Vec<CommentRead>,
    pub tags: Vec<Tag>,
    pub work_history: Vec<TaskWorkHistoryRead>,
}

/// The instant that an optional timestamp holds, if any.
pub open spec fn instant_of(value: OptionalUnixTimestamp) -> Option<UnixTimestamp> {
    match value.0 {
        Some(seconds) => Some(UnixTimestamp(seconds)),
        None => None,
    }
}

/// The optional timestamp of an instant, if any.
pub open spec fn timestamp_of(value: Option<UnixTimestamp>) -> OptionalUnixTimestamp {
    match value {
        Some(instant) => OptionalUnixTimestamp(Some(instant.0)),
        None => OptionalUnixTimestamp(None),
    }
}

impl NewTask {
    /// The task to store for what the user created; the tags are stored
    /// apart.
    pub fn from_create(value: CreateTask) -> (r: Self)
        ensures
            r == (NewTask {
                title: value.title,
                description: value.description,
                status: value.status,
                scheduled_start_date: timestamp_of(value.scheduled_start_date),
                scheduled_complete_date: timestamp_of(value.scheduled_complete_date),
                estimated_duration: value.estimated_duration,
            }),
    {
        NewTask {
            title: value.title,
            description: value.description,
            status: value.status,
            scheduled_start_date: OptionalUnixTimestamp::from_instant(value.scheduled_start_date),
            scheduled_complete_date: OptionalUnixTimestamp::from_instant(value.scheduled_complete_date),
            estimated_duration: value.estimated_duration,
        }
    }
}

/// The task with the edit applied: title, description, schedule and
/// estimate are the edit's; id and status stay.
pub open spec fn edited(existing: Task, edit: EditTask) -> Task {
    Task {
        id: existing.id,
        title: edit.title,
        description: edit.description,
        status: existing.status,
        scheduled_start_date: timestamp_of(edit.scheduled_start_date),
        scheduled_complete_date: timestamp_of(edit.scheduled_complete_date),
        estimated_duration: OptionalDurationInSeconds(edit.estimated_duration),
    }
}

/// Applies an edit to the task that the store holds under the edit's id.
/// The task's status and work intervals are not touched.
pub fn apply_edit(existing: Task, edit: EditTask) -> (r: Task)
    ensures
        r == edited(existing, edit),
{
    Task {
        id: existing.id,
        title: edit.title,
        description: edit.description,
        status: existing.status,
        scheduled_start_date: OptionalUnixTimestamp::from_instant(edit.scheduled_start_date),
        scheduled_complete_date: OptionalUnixTimestamp::from_instant(edit.scheduled_complete_date),
        estimated_duration: OptionalDurationInSeconds::from_option(edit.estimated_duration),
    }
}

/// `read` shows `task` at `now` with its comments, tags and work
/// intervals: the time worked is the seconds of all intervals, work began
/// at the earliest start, and a task that is done was completed at the
/// latest end.
pub open spec fn is_read_of(
    read: TaskRead,
    task: Task,
    comments: Vec<CommentRead>,
    tags: Vec<Tag>,
    history: Seq<TaskWorkHistory>,
    now: UnixTimestamp,
) -> bool {
    &&& read.id == task.id
    &&& read.title == task.title
    &&& read.description == task.description
    &&& read.status == task.status
    &&& read.scheduled_start_date == instant_of(task.scheduled_start_date)
    &&& read.scheduled_complete_date == instant_of(task.scheduled_complete_date)
    &&& read.estimated_duration == task.estimated_duration.0
    &&& read.elapsed_duration == total_seconds(history, now@)
    &&& read.actual_start_date is Some <==> history.len() > 0
    &&& read.actual_start_date is Some ==> is_earliest_start(history, read.actual_start_date->0@)
    &&& read.actual_complete_date is Some <==> task.status == Status::Done && history.len() > 0
    &&& read.actual_complete_date is Some ==> is_latest_end(history, now@, read.actual_complete_date->0@)
    &&& read.comments == comments
    &&& read.tags == tags
    &&& read.work_history@.len() == history.len()
    &&& forall|k: int|
        0 <= k < history.len() ==> #[trigger] read.work_history@[k] == TaskWorkHistoryRead::shown(history[k], now)
}

/// The task as it is shown at `now`, with its comments, its tags and what
/// is derived from its work intervals.
pub fn read_task(
    task: Task,
    comments: &Vec<Comment>,
    tags: Vec<Tag>,
    history: &Vec<TaskWorkHistory>,
    now: UnixTimestamp,
) -> (r: TaskRead)
    ensures
        is_read_of(r, task, r.comments, tags, history@, now),
        r.comments@.len() == comments@.len(),
        forall|k: int|
            0 <= k < comments@.len() ==> #[trigger] r.comments@[k] == (CommentRead {
                id: comments@[k].id,
                task_id: comments@[k].task_id,
                message: comments@[k].message,
                created: comments@[k].created,
                modified: comments@[k].modified,
            }),
{
    let elapsed: u128 = elapsed_duration(history, now);
    let actual_start: OptionalUnixTimestamp = get_actual_start(history);
    let actual_complete: Option<UnixTimestamp> = get_actual_complete(&task.status, history, now);
    TaskRead {
        id: task.id,
        title: task.title,
        description: task.description,
        status: task.status,
        scheduled_start_date: task.scheduled_start_date.to_instant(),
        scheduled_complete_date: task.scheduled_complete_date.to_instant(),
        actual_start_date: actual_start.to_instant(),
        actual_complete_date: actual_complete,
        estimated_duration: task.estimated_duration.to_option(),
        elapsed_duration: elapsed,
        comments: read_comments(comments),
        tags,
        work_history: read_history(history, now),
    }
}

} // verus!
