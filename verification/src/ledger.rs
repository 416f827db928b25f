//! The ledger of work intervals: it opens, closes and deletes them, and
//! keeps at most one interval open for each task.

use vstd::prelude::*;
use crate::error::TrackerError;
use crate::history::{all_chronological, elapsed_duration, total_seconds, TaskWorkHistory};
use crate::status::LedgerEffect;
use crate::timestamp::{OptionalUnixTimestamp, UnixTimestamp};

verus! {

/// Which intervals to keep out of a list.
#[derive(Clone, Copy, Debug, PartialEq, Eq, Structural)]
pub enum Selection {
    /// The intervals of the task.
    OfTask(i64),
    /// The intervals of every other task.
    NotOfTask(i64),
    /// Every interval but the open ones of the task.
    NotOpenOf(i64),
}

impl Selection {
    pub open spec fn picks(self, entry: TaskWorkHistory) -> bool {
        match self {
            Selection::OfTask(task_id) => entry.task_id == task_id,
            Selection::NotOfTask(task_id) => entry.task_id != task_id,
            Selection::NotOpenOf(task_id) => !(entry.task_id == task_id && entry.is_open()),
        }
    }

    pub fn keeps(&self, entry: &TaskWorkHistory) -> (r: bool)
        ensures
            r == self.picks(*entry),
    {
        match self {
            Selection::OfTask(task_id) => entry.task_id == *task_id,
            Selection::NotOfTask(task_id) => entry.task_id != *task_id,
            Selection::NotOpenOf(task_id) => !(entry.task_id == *task_id && entry.end_date.0.is_none()),
        }
    }
}

/// The intervals of `entries` that `selection` picks, in their order.
pub open spec fn select(entries: Seq<TaskWorkHistory>, selection: Selection) -> Seq<TaskWorkHistory>
    decreases entries.len(),
{
    if entries.len() == 0 {
        Seq::empty()
    } else if selection.picks(entries.last()) {
        select(entries.drop_last(), selection).push(entries.last())
    } else {
        select(entries.drop_last(), selection)
    }
}

/// How many intervals of the task are open.
pub open spec fn open_count(entries: Seq<TaskWorkHistory>, task_id: i64) -> nat
    decreases entries.len(),
{
    if entries.len() == 0 {
        0
    } else if entries.last().task_id == task_id && entries.last().is_open() {
        open_count(entries.drop_last(), task_id) + 1
    } else {
        open_count(entries.drop_last(), task_id)
    }
}

/// No task has more than one open interval.
pub open spec fn one_open_per_task(entries: Seq<TaskWorkHistory>) -> bool {
    forall|task_id: i64| #[trigger] open_count(entries, task_id) <= 1
}

/// Every id in use is below `next_id`.
pub open spec fn ids_below(entries: Seq<TaskWorkHistory>, next_id: i64) -> bool {
    forall|i: int| 0 <= i < entries.len() ==> (#[trigger] entries[i]).id < next_id
}

/// `entry` closed at `at` if it is the open interval of the task, else
/// unchanged. An interval never ends before it starts: closed at an
/// instant before its start, it ends at its start.
pub open spec fn close_entry(entry: TaskWorkHistory, task_id: i64, at: UnixTimestamp) -> TaskWorkHistory {
    if entry.task_id == task_id && entry.is_open() {
        TaskWorkHistory {
            end_date: OptionalUnixTimestamp(Some(if at.0 >= entry.start_date.0 { at.0 } else { entry.start_date.0 })),
            ..entry
        }
    } else {
        entry
    }
}

/// `entries` with the open interval of the task closed at `at`.
pub open spec fn closed_at(entries: Seq<TaskWorkHistory>, task_id: i64, at: UnixTimestamp) -> Seq<TaskWorkHistory> {
    Seq::new(entries.len(), |i: int| close_entry(entries[i], task_id, at))
}

/// The interval that opens for the task at `at`.
pub open spec fn opened(id: i64, task_id: i64, at: UnixTimestamp) -> TaskWorkHistory {
    TaskWorkHistory { id, task_id, start_date: at, end_date: OptionalUnixTimestamp(None) }
}

/// `entries` after `effect` has been applied for the task at `now`, where
/// `id` is given to an interval that opens.
pub open spec fn after_effect(
    entries: Seq<TaskWorkHistory>,
    id: i64,
    task_id: i64,
    effect: LedgerEffect,
    now: UnixTimestamp,
) -> Seq<TaskWorkHistory> {
    match effect {
        LedgerEffect::Open => select(entries, Selection::NotOpenOf(task_id)).push(opened(id, task_id, now)),
        LedgerEffect::Close => closed_at(entries, task_id, now),
        LedgerEffect::CloseAndDeleteAll => select(entries, Selection::NotOfTask(task_id)),
    }
}

/// Every selected interval is one of `entries` that the selection picks.
pub proof fn lemma_select_members(entries: Seq<TaskWorkHistory>, selection: Selection)
    ensures
        forall|i: int|
            0 <= i < select(entries, selection).len() ==> {
                &&& entries.contains(#[trigger] select(entries, selection)[i])
                &&& selection.picks(select(entries, selection)[i])
            },
        select(entries, selection).len() <= entries.len(),
    decreases entries.len(),
{
    if entries.len() > 0 {
        let rest = entries.drop_last();
        lemma_select_members(rest, selection);
        assert forall|i: int| 0 <= i < select(entries, selection).len() implies {
            &&& entries.contains(#[trigger] select(entries, selection)[i])
            &&& selection.picks(select(entries, selection)[i])
        } by {
            if i < select(rest, selection).len() {
                let entry = select(rest, selection)[i];
                assert(rest.contains(entry));
                let k = choose|k: int| 0 <= k < rest.len() && rest[k] == entry;
                assert(entries[k] == entry);
            } else {
                assert(entries[entries.len() - 1] == entries.last());
            }
        }
    }
}

/// A selection opens no interval; the two that drop the open intervals of
/// a task leave it none.
pub proof fn lemma_select_open_count(entries: Seq<TaskWorkHistory>, selection: Selection, task_id: i64)
    ensures
        open_count(select(entries, selection), task_id) <= open_count(entries, task_id),
        selection == Selection::NotOpenOf(task_id) || selection == Selection::NotOfTask(task_id) ==> open_count(
            select(entries, selection),
            task_id,
        ) == 0,
        selection == Selection::OfTask(task_id) ==> open_count(select(entries, selection), task_id) == open_count(
            entries,
            task_id,
        ),
    decreases entries.len(),
{
    if entries.len() > 0 {
        lemma_select_open_count(entries.drop_last(), selection, task_id);
        if selection.picks(entries.last()) {
            assert(select(entries, selection).drop_last() =~= select(entries.drop_last(), selection));
        }
    }
}

/// Closing leaves the task no open interval and the others theirs.
pub proof fn lemma_closed_open_count(
    entries: Seq<TaskWorkHistory>,
    task_id: i64,
    at: UnixTimestamp,
    other: i64,
)
    ensures
        open_count(closed_at(entries, task_id, at), other) == if other == task_id {
            0
        } else {
            open_count(entries, other)
        },
    decreases entries.len(),
{
    if entries.len() > 0 {
        lemma_closed_open_count(entries.drop_last(), task_id, at, other);
        assert(closed_at(entries, task_id, at).drop_last() =~= closed_at(entries.drop_last(), task_id, at));
    }
}

/// The work intervals of all tasks, in the order in which they were opened.
pub struct WorkHistoryLedger {
    entries: Vec<TaskWorkHistory>,
    next_id: i64,
}

impl View for WorkHistoryLedger {
    type V = Seq<TaskWorkHistory>;

    closed spec fn view(&self) -> Seq<TaskWorkHistory> {
        self.entries@
    }
}

impl WorkHistoryLedger {
    /// The id that the next interval to open gets.
    pub closed spec fn next_id(&self) -> i64 {
        self.next_id
    }

    /// The ledger's invariant: no task has more than one open interval,
    /// no closed interval ends before it starts, and the id that the next
    /// interval gets is above the ids in use.
    pub open spec fn wf(&self) -> bool {
        &&& one_open_per_task(self@)
        &&& all_chronological(self@)
        &&& ids_below(self@, self.next_id())
    }

    /// Another interval can get an id.
    pub open spec fn has_room(&self) -> bool {
        self.next_id() < i64::MAX
    }

    /// An empty ledger.
    pub fn new() -> (r: Self)
        ensures
            r@ == Seq::<TaskWorkHistory>::empty(),
            r.next_id() == 1,
            r.wf(),
            r.has_room(),
    {
        WorkHistoryLedger { entries: Vec::new(), next_id: 1 }
    }

    /// The ledger that holds `entries`, in their order, and gives
    /// `next_id` to the next interval to open; none if `entries` breaks
    /// the ledger's invariant.
    pub fn from_entries(entries: Vec<TaskWorkHistory>, next_id: i64) -> (r: Option<Self>)
        ensures
            r is Some <==> one_open_per_task(entries@) && all_chronological(entries@) && ids_below(entries@, next_id),
            r is Some ==> r->0@ == entries@ && r->0.next_id() == next_id && r->0.wf(),
    {
        let n: usize = entries.len();
        let mut i: usize = 0;
        while i < n
            invariant
                i <= n,
                n == entries.len(),
                one_open_per_task(entries@.take(i as int)),
                all_chronological(entries@.take(i as int)),
                ids_below(entries@.take(i as int), next_id),
            decreases n - i,
        {
            let entry: TaskWorkHistory = entries[i];
            let ghost before = entries@.take(i as int);
            let ghost after = entries@.take(i + 1);
            proof {
                assert(after.drop_last() =~= before);
                assert(after.last() == entry);
            }
            if entry.id >= next_id {
                return None;
            }
            match entry.end_date.0 {
                Some(end) => {
                    if end < entry.start_date.0 {
                        return None;
                    }
                },
                None => {
                    if open_before(&entries, i, entry.task_id) {
                        proof {
                            lemma_open_count_prefix(entries@, i + 1, entry.task_id);
                        }
                        return None;
                    }
                },
            }
            proof {
                assert forall|other: i64| #[trigger] open_count(after, other) <= 1 by {
                    assert(open_count(before, other) <= 1);
                }
                assert forall|k: int| 0 <= k < after.len() implies (#[trigger] after[k]).chronological() && after[k].id
                    < next_id by {
                    if k < before.len() {
                        assert(after[k] == before[k]);
                    }
                }
            }
            i += 1;
        }
        proof {
            assert(entries@.take(n as int) =~= entries@);
        }
        Some(WorkHistoryLedger { entries, next_id })
    }

    /// Whether another interval can get an id.
    pub fn can_open(&self) -> (r: bool)
        ensures
            r == self.has_room(),
    {
        self.next_id < i64::MAX
    }

    /// Whether the task has an open interval.
    pub fn has_open(&self, task_id: i64) -> (r: bool)
        ensures
            r == (open_count(self@, task_id) > 0),
    {
        let n: usize = self.entries.len();
        let mut found: bool = false;
        let mut i: usize = 0;
        while i < n
            invariant
                i <= n,
                n == self.entries.len(),
                found == (open_count(self.entries@.take(i as int), task_id) > 0),
            decreases n - i,
        {
            proof {
                assert(self.entries@.take(i + 1).drop_last() =~= self.entries@.take(i as int));
            }
            if self.entries[i].task_id == task_id && self.entries[i].end_date.0.is_none() {
                found = true;
            }
            i += 1;
        }
        proof {
            assert(self.entries@.take(n as int) =~= self.entries@);
        }
        found
    }

    /// Opens an interval for the task at `at` and returns its id. Fails,
    /// and leaves the ledger as it was, if the task has an open interval.
    pub fn open(&mut self, task_id: i64, at: UnixTimestamp) -> (r: Result<i64, TrackerError>)
        requires
            old(self).wf(),
            old(self).has_room(),
        ensures
            final(self).wf(),
            r is Err <==> open_count(old(self)@, task_id) > 0,
            r is Err ==> r == Err::<i64, TrackerError>(TrackerError::LedgerInvariantViolation(task_id)) && *final(self) == *old(
                self,
            ),
            r is Ok ==> {
                &&& r == Ok::<i64, TrackerError>(old(self).next_id())
                &&& final(self)@ == old(self)@.push(opened(old(self).next_id(), task_id, at))
                &&& final(self).next_id() == old(self).next_id() + 1
            },
    {
        if self.has_open(task_id) {
            return Err(TrackerError::LedgerInvariantViolation(task_id));
        }
        let id: i64 = self.next_id;
        self.push_opened(task_id, at);
        Ok(id)
    }

    fn push_opened(&mut self, task_id: i64, at: UnixTimestamp)
        requires
            old(self).wf(),
            old(self).has_room(),
            open_count(old(self)@, task_id) == 0,
        ensures
            final(self).wf(),
            final(self)@ == old(self)@.push(opened(old(self).next_id(), task_id, at)),
            final(self).next_id() == old(self).next_id() + 1,
    {
        let id: i64 = self.next_id;
        let entry = TaskWorkHistory { id, task_id, start_date: at, end_date: OptionalUnixTimestamp(None) };
        proof {
            let before = self.entries@;
            let after = before.push(entry);
            assert(after.drop_last() =~= before);
            assert forall|other: i64| #[trigger] open_count(after, other) <= 1 by {
                assert(open_count(before, other) <= 1);
            }
            assert forall|i: int| 0 <= i < after.len() implies (#[trigger] after[i]).id < id + 1 by {
                if i < before.len() {
                    assert(after[i] == before[i]);
                }
            }
        }
        self.entries.push(entry);
        self.next_id = id + 1;
    }

    /// Closes the task's open interval at `at`; does nothing if it has
    /// none. An interval closed at an instant before its start ends at
    /// its start. Returns whether an interval was closed.
    pub fn close(&mut self, task_id: i64, at: UnixTimestamp) -> (r: bool)
        requires
            old(self).wf(),
        ensures
            final(self).wf(),
            final(self)@ == closed_at(old(self)@, task_id, at),
            final(self).next_id() == old(self).next_id(),
            r == (open_count(old(self)@, task_id) > 0),
            open_count(final(self)@, task_id) == 0,
    {
        let closed: bool = self.has_open(task_id);
        let n: usize = self.entries.len();
        let mut i: usize = 0;
        while i < n
            invariant
                i <= n,
                n == self.entries.len(),
                n == old(self).entries.len(),
                self.next_id == old(self).next_id,
                forall|k: int| 0 <= k < i ==> self.entries@[k] == close_entry(old(self).entries@[k], task_id, at),
                forall|k: int| i <= k < n ==> self.entries@[k] == old(self).entries@[k],
            decreases n - i,
        {
            let entry: TaskWorkHistory = self.entries[i];
            if entry.task_id == task_id && entry.end_date.0.is_none() {
                let end: i64 = if at.0 >= entry.start_date.0 {
                    at.0
                } else {
                    entry.start_date.0
                };
                self.entries[i] = TaskWorkHistory {
                    id: entry.id,
                    task_id: entry.task_id,
                    start_date: entry.start_date,
                    end_date: OptionalUnixTimestamp(Some(end)),
                };
            }
            i += 1;
        }
        proof {
            assert(self.entries@ =~= closed_at(old(self).entries@, task_id, at));
            assert forall|other: i64| #[trigger] open_count(self.entries@, other) <= 1 by {
                lemma_closed_open_count(old(self).entries@, task_id, at, other);
                assert(open_count(old(self).entries@, other) <= 1);
            }
            lemma_closed_open_count(old(self).entries@, task_id, at, task_id);
        }
        closed
    }

    fn retain(&mut self, selection: Selection)
        requires
            old(self).wf(),
        ensures
            final(self).wf(),
            final(self)@ == select(old(self)@, selection),
            final(self).next_id() == old(self).next_id(),
    {
        let kept: Vec<TaskWorkHistory> = select_entries(&self.entries, selection);
        proof {
            lemma_select_members(self.entries@, selection);
            assert forall|other: i64| #[trigger] open_count(kept@, other) <= 1 by {
                lemma_select_open_count(self.entries@, selection, other);
                assert(open_count(self.entries@, other) <= 1);
            }
            assert forall|i: int| 0 <= i < kept@.len() implies (#[trigger] kept@[i]).chronological() && kept@[i].id
                < self.next_id by {
                assert(self.entries@.contains(kept@[i]));
            }
        }
        self.entries = kept;
    }

    /// Removes every interval of the task.
    pub fn delete_all(&mut self, task_id: i64)
        requires
            old(self).wf(),
        ensures
            final(self).wf(),
            final(self)@ == select(old(self)@, Selection::NotOfTask(task_id)),
            final(self).next_id() == old(self).next_id(),
            select(final(self)@, Selection::OfTask(task_id)) == Seq::<TaskWorkHistory>::empty(),
    {
        self.retain(Selection::NotOfTask(task_id));
        proof {
            lemma_no_interval_left(old(self)@, task_id);
        }
    }

    /// Removes the task's open interval, if it has one. Returns whether
    /// one was removed.
    pub fn delete_open(&mut self, task_id: i64) -> (r: bool)
        requires
            old(self).wf(),
        ensures
            final(self).wf(),
            final(self)@ == select(old(self)@, Selection::NotOpenOf(task_id)),
            final(self).next_id() == old(self).next_id(),
            r == (open_count(old(self)@, task_id) > 0),
            open_count(final(self)@, task_id) == 0,
    {
        let stray: bool = self.has_open(task_id);
        self.retain(Selection::NotOpenOf(task_id));
        proof {
            lemma_select_open_count(old(self)@, Selection::NotOpenOf(task_id), task_id);
        }
        stray
    }

    /// Every interval of every task, in the order in which they were opened.
    pub fn all_intervals(&self) -> (r: Vec<TaskWorkHistory>)
        ensures
            r@ == self@,
    {
        let n: usize = self.entries.len();
        let mut out: Vec<TaskWorkHistory> = Vec::new();
        let mut i: usize = 0;
        while i < n
            invariant
                i <= n,
                n == self.entries.len(),
                out@ == self.entries@.take(i as int),
            decreases n - i,
        {
            out.push(self.entries[i]);
            proof {
                assert(self.entries@.take(i + 1) =~= self.entries@.take(i as int).push(self.entries@[i as int]));
            }
            i += 1;
        }
        proof {
            assert(self.entries@.take(n as int) =~= self.entries@);
        }
        out
    }

    /// The intervals of the task, the one opened last first.
    pub fn intervals_for(&self, task_id: i64) -> (r: Vec<TaskWorkHistory>)
        ensures
            r@ == select(self@, Selection::OfTask(task_id)).reverse(),
    {
        let kept: Vec<TaskWorkHistory> = select_entries(&self.entries, Selection::OfTask(task_id));
        let n: usize = kept.len();
        let mut out: Vec<TaskWorkHistory> = Vec::new();
        let mut i: usize = 0;
        while i < n
            invariant
                i <= n,
                n == kept.len(),
                out@.len() == i,
                forall|k: int| 0 <= k < i ==> out@[k] == kept@[n - 1 - k],
            decreases n - i,
        {
            out.push(kept[n - 1 - i]);
            i += 1;
        }
        proof {
            assert(out@ =~= kept@.reverse());
        }
        out
    }

    /// The time worked on the task: the seconds of its closed intervals
    /// and, if one is open, the seconds from its start up to `now`.
    pub fn elapsed(&self, task_id: i64, now: UnixTimestamp) -> (r: u128)
        ensures
            r == total_seconds(select(self@, Selection::OfTask(task_id)), now@),
    {
        let kept: Vec<TaskWorkHistory> = select_entries(&self.entries, Selection::OfTask(task_id));
        elapsed_duration(&kept, now)
    }

    /// Applies the effect of a command to the intervals of the task, at
    /// `now`. For an interval to open, a stray open interval of the task is
    /// removed first; the result says whether there was one.
    pub fn apply(&mut self, task_id: i64, effect: LedgerEffect, now: UnixTimestamp) -> (reconciled: bool)
        requires
            old(self).wf(),
            effect == LedgerEffect::Open ==> old(self).has_room(),
        ensures
            final(self).wf(),
            final(self)@ == after_effect(old(self)@, old(self).next_id(), task_id, effect, now),
            reconciled == (effect == LedgerEffect::Open && open_count(old(self)@, task_id) > 0),
            final(self).next_id() == if effect == LedgerEffect::Open {
                old(self).next_id() + 1
            } else {
                old(self).next_id() as int
            },
            effect == LedgerEffect::Open ==> open_count(final(self)@, task_id) == 1,
            effect != LedgerEffect::Open ==> open_count(final(self)@, task_id) == 0,
    {
        match effect {
            LedgerEffect::Open => {
                let stray: bool = self.delete_open(task_id);
                self.push_opened(task_id, now);
                proof {
                    assert(final(self)@.drop_last() =~= select(old(self)@, Selection::NotOpenOf(task_id)));
                }
                stray
            },
            LedgerEffect::Close => {
                self.close(task_id, now);
                false
            },
            LedgerEffect::CloseAndDeleteAll => {
                self.close(task_id, now);
                self.delete_all(task_id);
                proof {
                    lemma_delete_after_close(old(self)@, task_id, now);
                    lemma_select_open_count(old(self)@, Selection::NotOfTask(task_id), task_id);
                }
                false
            },
        }
    }
}

/// Whether the task has an open interval among the first `count` entries.
fn open_before(entries: &Vec<TaskWorkHistory>, count: usize, task_id: i64) -> (r: bool)
    requires
        count <= entries.len(),
    ensures
        r == (open_count(entries@.take(count as int), task_id) > 0),
{
    let mut found: bool = false;
    let mut i: usize = 0;
    while i < count
        invariant
            i <= count,
            count <= entries.len(),
            found == (open_count(entries@.take(i as int), task_id) > 0),
        decreases count - i,
    {
        proof {
            assert(entries@.take(i + 1).drop_last() =~= entries@.take(i as int));
        }
        if entries[i].task_id == task_id && entries[i].end_date.0.is_none() {
            found = true;
        }
        i += 1;
    }
    found
}

/// The first intervals of a list hold no more open intervals of a task
/// than the whole list.
pub proof fn lemma_open_count_prefix(entries: Seq<TaskWorkHistory>, count: int, task_id: i64)
    requires
        0 <= count <= entries.len(),
    ensures
        open_count(entries.take(count), task_id) <= open_count(entries, task_id),
    decreases entries.len() - count,
{
    if count < entries.len() {
        lemma_open_count_prefix(entries, count + 1, task_id);
        assert(entries.take(count + 1).drop_last() =~= entries.take(count));
    } else {
        assert(entries.take(count) =~= entries);
    }
}

/// The intervals of `entries` that `selection` picks, in their order.
pub fn select_entries(entries: &Vec<TaskWorkHistory>, selection: Selection) -> (r: Vec<TaskWorkHistory>)
    ensures
        r@ == select(entries@, selection),
{
    let n: usize = entries.len();
    let mut out: Vec<TaskWorkHistory> = Vec::new();
    let mut i: usize = 0;
    while i < n
        invariant
            i <= n,
            n == entries.len(),
            out@ == select(entries@.take(i as int), selection),
        decreases n - i,
    {
        proof {
            assert(entries@.take(i + 1).drop_last() =~= entries@.take(i as int));
        }
        if selection.keeps(&entries[i]) {
            out.push(entries[i]);
        }
        i += 1;
    }
    proof {
        assert(entries@.take(n as int) =~= entries@);
    }
    out
}

/// Once the intervals of a task are deleted, none is left for it.
pub proof fn lemma_no_interval_left(entries: Seq<TaskWorkHistory>, task_id: i64)
    ensures
        select(select(entries, Selection::NotOfTask(task_id)), Selection::OfTask(task_id)) == Seq::<
            TaskWorkHistory,
        >::empty(),
    decreases entries.len(),
{
    if entries.len() > 0 {
        lemma_no_interval_left(entries.drop_last(), task_id);
        if Selection::NotOfTask(task_id).picks(entries.last()) {
            let kept = select(entries, Selection::NotOfTask(task_id));
            assert(kept.drop_last() =~= select(entries.drop_last(), Selection::NotOfTask(task_id)));
        }
    }
}

/// Deleting the intervals of a task gives the same whether or not its open
/// interval was closed before.
pub proof fn lemma_delete_after_close(entries: Seq<TaskWorkHistory>, task_id: i64, at: UnixTimestamp)
    ensures
        select(closed_at(entries, task_id, at), Selection::NotOfTask(task_id)) == select(
            entries,
            Selection::NotOfTask(task_id),
        ),
    decreases entries.len(),
{
    if entries.len() > 0 {
        lemma_delete_after_close(entries.drop_last(), task_id, at);
        assert(closed_at(entries, task_id, at).drop_last() =~= closed_at(entries.drop_last(), task_id, at));
    }
}

/// Selecting from a list with one more interval.
pub proof fn lemma_select_push(entries: Seq<TaskWorkHistory>, entry: TaskWorkHistory, selection: Selection)
    ensures
        select(entries.push(entry), selection) == if selection.picks(entry) {
            select(entries, selection).push(entry)
        } else {
            select(entries, selection)
        },
{
    assert(entries.push(entry).drop_last() =~= entries);
}

/// A selection that picks every interval leaves the list as it is.
pub proof fn lemma_select_all(entries: Seq<TaskWorkHistory>, selection: Selection)
    requires
        forall|i: int| 0 <= i < entries.len() ==> selection.picks(#[trigger] entries[i]),
    ensures
        select(entries, selection) == entries,
    decreases entries.len(),
{
    if entries.len() > 0 {
        assert forall|i: int| 0 <= i < entries.drop_last().len() implies selection.picks(
            #[trigger] entries.drop_last()[i],
        ) by {
            assert(entries.drop_last()[i] == entries[i]);
        }
        lemma_select_all(entries.drop_last(), selection);
        assert(selection.picks(entries[entries.len() - 1]));
        assert(entries.drop_last().push(entries.last()) =~= entries);
    }
}

/// Two selections give the same in either order.
pub proof fn lemma_select_commutes(entries: Seq<TaskWorkHistory>, first: Selection, second: Selection)
    ensures
        select(select(entries, first), second) == select(select(entries, second), first),
    decreases entries.len(),
{
    if entries.len() > 0 {
        lemma_select_commutes(entries.drop_last(), first, second);
        lemma_select_push(select(entries.drop_last(), first), entries.last(), second);
        lemma_select_push(select(entries.drop_last(), second), entries.last(), first);
    }
}

/// Closing an interval and selecting the intervals of a task give the
/// same in either order.
pub proof fn lemma_select_closed(entries: Seq<TaskWorkHistory>, task_id: i64, at: UnixTimestamp, of: i64)
    ensures
        select(closed_at(entries, task_id, at), Selection::OfTask(of)) == closed_at(
            select(entries, Selection::OfTask(of)),
            task_id,
            at,
        ),
    decreases entries.len(),
{
    if entries.len() > 0 {
        lemma_select_closed(entries.drop_last(), task_id, at, of);
        assert(closed_at(entries, task_id, at).drop_last() =~= closed_at(entries.drop_last(), task_id, at));
        let kept = select(entries.drop_last(), Selection::OfTask(of));
        if Selection::OfTask(of).picks(entries.last()) {
            assert(closed_at(kept.push(entries.last()), task_id, at) =~= closed_at(kept, task_id, at).push(
                close_entry(entries.last(), task_id, at),
            ));
        }
    }
}

/// Where the task has no open interval, closing changes nothing.
pub proof fn lemma_close_nothing(entries: Seq<TaskWorkHistory>, task_id: i64, at: UnixTimestamp)
    requires
        forall|i: int| 0 <= i < entries.len() ==> Selection::NotOpenOf(task_id).picks(#[trigger] entries[i]),
    ensures
        closed_at(entries, task_id, at) == entries,
{
    assert(closed_at(entries, task_id, at) =~= entries);
}

/// The effect of a command on its task's intervals depends on those
/// intervals alone: the task's intervals afterwards are what the effect
/// makes of the task's intervals before.
pub proof fn lemma_effect_on_task(
    entries: Seq<TaskWorkHistory>,
    id: i64,
    task_id: i64,
    effect: LedgerEffect,
    now: UnixTimestamp,
)
    ensures
        select(after_effect(entries, id, task_id, effect, now), Selection::OfTask(task_id)) == after_effect(
            select(entries, Selection::OfTask(task_id)),
            id,
            task_id,
            effect,
            now,
        ),
{
    let mine = Selection::OfTask(task_id);
    match effect {
        LedgerEffect::Open => {
            let kept = select(entries, Selection::NotOpenOf(task_id));
            lemma_select_push(kept, opened(id, task_id, now), mine);
            lemma_select_commutes(entries, Selection::NotOpenOf(task_id), mine);
        },
        LedgerEffect::Close => {
            lemma_select_closed(entries, task_id, now, task_id);
        },
        LedgerEffect::CloseAndDeleteAll => {
            lemma_select_commutes(entries, Selection::NotOfTask(task_id), mine);
        },
    }
}

/// The effect of a command on its task leaves the intervals of every
/// other task as they were.
pub proof fn lemma_effect_elsewhere(
    entries: Seq<TaskWorkHistory>,
    id: i64,
    task_id: i64,
    effect: LedgerEffect,
    now: UnixTimestamp,
    other: i64,
)
    requires
        other != task_id,
    ensures
        select(after_effect(entries, id, task_id, effect, now), Selection::OfTask(other)) == select(
            entries,
            Selection::OfTask(other),
        ),
{
    let theirs = Selection::OfTask(other);
    lemma_select_members(entries, theirs);
    match effect {
        LedgerEffect::Open => {
            let kept = select(entries, Selection::NotOpenOf(task_id));
            lemma_select_push(kept, opened(id, task_id, now), theirs);
            lemma_select_commutes(entries, Selection::NotOpenOf(task_id), theirs);
            lemma_select_all(select(entries, theirs), Selection::NotOpenOf(task_id));
        },
        LedgerEffect::Close => {
            lemma_select_closed(entries, task_id, now, other);
            lemma_close_nothing(select(entries, theirs), task_id, now);
        },
        LedgerEffect::CloseAndDeleteAll => {
            lemma_select_commutes(entries, Selection::NotOfTask(task_id), theirs);
            lemma_select_all(select(entries, theirs), Selection::NotOfTask(task_id));
        },
    }
}

} // verus!
