//! Comments on tasks.

use vstd::prelude::*;
use crate::timestamp::{OptionalUnixTimestamp, UnixTimestamp};

verus! {

/// A comment as it is stored.
#[derive(Clone, Debug)]
pub struct Comment {
    pub id: i64,
    pub task_id: i64,
    pub message: String,
    pub created: UnixTimestamp,
    pub modified: OptionalUnixTimestamp,
}

/// A comment as it is shown.
#[derive(Clone, Debug)]
pub struct CommentRead {
    pub id: i64,
    pub task_id: i64,
    pub message: String,
    pub created: UnixTimestamp,
    pub modified: OptionalUnixTimestamp,
}

/// A comment as the user writes it: the instants are not the user's to
/// give.
#[derive(Clone, Debug)]
pub struct CreateComment {
    pub task_id: i64,
    pub message: String,
}

/// A comment to store.
#[derive(Clone, Debug)]
pub struct NewComment {
    pub task_id: i64,
    pub message: String,
    pub created: UnixTimestamp,
    pub modified: Option<UnixTimestamp>,
}

/// A new message for a comment.
#[derive(Clone, Debug)]
pub struct EditComment {
    pub id: i64,
    pub message: String,
}

impl From<Comment> for CommentRead {
    fn from(value: Comment) -> (r: Self) {
        Self {
            id: value.id,
            task_id: value.task_id,
            message: value.message,
            created: value.created,
            modified: value.modified,
        }
    }
}

impl vstd::std_specs::convert::FromSpecImpl<Comment> for CommentRead {
    open spec fn obeys_from_spec() -> bool {
        true
    }

    open spec fn from_spec(value: Comment) -> Self {
        CommentRead {
            id: value.id,
            task_id: value.task_id,
            message: value.message,
            created: value.created,
            modified: value.modified,
        }
    }
}

impl NewComment {
    /// The comment to store for what the user wrote at `now`: created
    /// then, and not modified.
    pub fn at(value: CreateComment, now: UnixTimestamp) -> (r: Self)
        ensures
            r == (NewComment { task_id: value.task_id, message: value.message, created: now, modified: None }),
    {
        NewComment { task_id: value.task_id, message: value.message, created: now, modified: None }
    }

    /// The comment to store for what the user wrote, created at the
    /// current instant of the system clock.
    pub fn create(value: CreateComment) -> (r: Self)
        ensures
            r.task_id == value.task_id,
            r.message == value.message,
            r.created.in_clock_range(),
            r.modified is None,
    {
        NewComment::at(value, UnixTimestamp::now())
    }
}

impl Comment {
    /// The comment with the new message, modified at `now`.
    pub open spec fn edited(self, edit: EditComment, now: UnixTimestamp) -> Comment {
        Comment { message: edit.message, modified: OptionalUnixTimestamp(Some(now.0)), ..self }
    }

    /// The comment with the new message, modified at `now`.
    pub fn with_edit(self, edit: EditComment, now: UnixTimestamp) -> (r: Comment)
        ensures
            r == self.edited(edit, now),
    {
        Comment {
            id: self.id,
            task_id: self.task_id,
            message: edit.message,
            created: self.created,
            modified: OptionalUnixTimestamp::from_seconds(now.0),
        }
    }
}

/// The comments as they are shown, in their order.
pub fn read_comments(comments: &Vec<Comment>) -> (r: Vec<CommentRead>)
    ensures
        r@.len() == comments@.len(),
        forall|k: int|
            0 <= k < comments@.len() ==> #[trigger] r@[k] == (CommentRead {
                id: comments@[k].id,
                task_id: comments@[k].task_id,
                message: comments@[k].message,
                created: comments@[k].created,
                modified: comments@[k].modified,
            }),
{
    let n: usize = comments.len();
    let mut out: Vec<CommentRead> = Vec::new();
    let mut k: usize = 0;
    while k < n
        invariant
            k <= n,
            n == comments.len(),
            out@.len() == k,
            forall|j: int|
                0 <= j < k ==> #[trigger] out@[j] == (CommentRead {
                    id: comments@[j].id,
                    task_id: comments@[j].task_id,
                    message: comments@[j].message,
                    created: comments@[j].created,
                    modified: comments@[j].modified,
                }),
        decreases n - k,
    {
        out.push(
            CommentRead {
                id: comments[k].id,
                task_id: comments[k].task_id,
                message: comments[k].message.clone(),
                created: comments[k].created,
                modified: comments[k].modified,
            },
        );
        k += 1;
    }
    out
}

} // verus!
