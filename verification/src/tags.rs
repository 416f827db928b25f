//! Tags, the labels that scope a report to some of the tasks.

use vstd::prelude::*;
use crate::models::SortOrder;

verus! {

/// A label that tasks can carry.
#[derive(Clone, Debug)]
pub struct Tag {
    pub id: i64,
    pub value: String,
}

/// How to search the tags: one page of those whose value holds the query
/// string, in the given order.
#[derive(Clone, Debug)]
pub struct TagSearchParams {
    pub page: i64,
    pub page_size: i64,
    pub query_string: Option<String>,
    pub ordering: SortOrder,
}

/// The task carries the tag.
#[derive(Clone, Copy, Debug, PartialEq, Eq, Structural)]
pub struct TaskTag {
    pub task_id: i64,
    pub tag_id: i64,
}

/// The task carries the tag.
pub open spec fn task_has_tag(task_tags: Seq<TaskTag>, task_id: i64, tag_id: i64) -> bool {
    exists|k: int| 0 <= k < task_tags.len() && #[trigger] task_tags[k] == (TaskTag { task_id, tag_id })
}

/// The task carries every one of the tags.
pub open spec fn task_has_all_tags(task_tags: Seq<TaskTag>, tag_ids: Seq<i64>, task_id: i64) -> bool {
    forall|g: int| 0 <= g < tag_ids.len() ==> task_has_tag(task_tags, task_id, #[trigger] tag_ids[g])
}

/// Whether the task carries the tag.
pub fn has_tag(task_tags: &Vec<TaskTag>, task_id: i64, tag_id: i64) -> (r: bool)
    ensures
        r == task_has_tag(task_tags@, task_id, tag_id),
{
    let n: usize = task_tags.len();
    let mut k: usize = 0;
    while k < n
        invariant
            k <= n,
            n == task_tags.len(),
            forall|j: int| 0 <= j < k ==> #[trigger] task_tags@[j] != (TaskTag { task_id, tag_id }),
        decreases n - k,
    {
        if task_tags[k].task_id == task_id && task_tags[k].tag_id == tag_id {
            return true;
        }
        k += 1;
    }
    false
}

/// Whether the task carries every one of the tags.
pub fn has_all_tags(task_tags: &Vec<TaskTag>, tag_ids: &Vec<i64>, task_id: i64) -> (r: bool)
    ensures
        r == task_has_all_tags(task_tags@, tag_ids@, task_id),
{
    let n: usize = tag_ids.len();
    let mut g: usize = 0;
    while g < n
        invariant
            g <= n,
            n == tag_ids.len(),
            forall|j: int| 0 <= j < g ==> task_has_tag(task_tags@, task_id, #[trigger] tag_ids@[j]),
        decreases n - g,
    {
        if !has_tag(task_tags, task_id, tag_ids[g]) {
            return false;
        }
        g += 1;
    }
    true
}

/// The ids of the tags, in their order.
pub open spec fn ids_of(tags: Seq<Tag>) -> Seq<i64> {
    Seq::new(tags.len(), |k: int| tags[k].id)
}

/// The ids of the tags, in their order.
pub fn tag_ids(tags: &Vec<Tag>) -> (r: Vec<i64>)
    ensures
        r@ == ids_of(tags@),
{
    let n: usize = tags.len();
    let mut ids: Vec<i64> = Vec::new();
    let mut k: usize = 0;
    while k < n
        invariant
            k <= n,
            n == tags.len(),
            ids@.len() == k,
            forall|j: int| 0 <= j < k ==> ids@[j] == tags@[j].id,
        decreases n - k,
    {
        ids.push(tags[k].id);
        k += 1;
    }
    proof {
        assert(ids@ =~= ids_of(tags@));
    }
    ids
}

} // verus!
