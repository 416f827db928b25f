//! Work intervals of tasks, and what is derived from a list of them.

use vstd::prelude::*;
use crate::timestamp::{span, OptionalUnixTimestamp, UnixTimestamp};
use crate::status::Status;

verus! {

/// One contiguous span of work on a task. It is open while `end_date`
/// holds no instant: the task is then being worked on.
#[derive(Clone, Copy, Debug, PartialEq, Eq, Structural)]
pub struct TaskWorkHistory {
    pub id: i64,
    pub task_id: i64,
    pub start_date: UnixTimestamp,
    pub end_date: OptionalUnixTimestamp,
}

impl TaskWorkHistory {
    pub open spec fn is_open(self) -> bool {
        self.end_date.0 is None
    }

    /// The end of a closed interval does not precede its start.
    pub open spec fn chronological(self) -> bool {
        self.end_date.0 is Some ==> self.start_date@ <= self.end_date.0->0
    }

    /// The instant up to which the interval has run: its end, or `now`
    /// while it is open.
    pub open spec fn end_or(self, now: int) -> int {
        self.end_date.or(now)
    }

    /// The seconds worked in the interval, up to `now` while it is open.
    pub open spec fn seconds(self, now: int) -> nat {
        span(self.start_date@, self.end_or(now))
    }

    /// The seconds worked in the interval, up to `now` while it is open.
    pub fn elapsed(&self, now: UnixTimestamp) -> (r: u64)
        ensures
            r == self.seconds(now@),
    {
        self.start_date.seconds_until(self.end_date.unwrap_or(now))
    }
}

/// The seconds worked in all of `history`, open intervals counted up to `now`.
pub open spec fn total_seconds(history: Seq<TaskWorkHistory>, now: int) -> nat
    decreases history.len(),
{
    if history.len() == 0 {
        0
    } else {
        total_seconds(history.drop_last(), now) + history.last().seconds(now)
    }
}

/// The sum of `end - start` over the closed intervals of `history`.
pub open spec fn closed_sum(history: Seq<TaskWorkHistory>) -> int
    decreases history.len(),
{
    if history.len() == 0 {
        0
    } else if history.last().is_open() {
        closed_sum(history.drop_last())
    } else {
        closed_sum(history.drop_last()) + (history.last().end_date.0->0 - history.last().start_date@)
    }
}

pub open spec fn all_closed(history: Seq<TaskWorkHistory>) -> bool {
    forall|i: int| 0 <= i < history.len() ==> !(#[trigger] history[i]).is_open()
}

pub open spec fn all_chronological(history: Seq<TaskWorkHistory>) -> bool {
    forall|i: int| 0 <= i < history.len() ==> (#[trigger] history[i]).chronological()
}

pub proof fn lemma_total_seconds_bound(history: Seq<TaskWorkHistory>, now: int)
    requires
        i64::MIN <= now <= i64::MAX,
    ensures
        total_seconds(history, now) <= history.len() * u64::MAX,
    decreases history.len(),
{
    if history.len() > 0 {
        lemma_total_seconds_bound(history.drop_last(), now);
        assert(history.last().seconds(now) <= u64::MAX);
        assert(history.len() * u64::MAX == (history.len() - 1) * u64::MAX + u64::MAX) by (nonlinear_arith);
    }
}

/// The time worked on a task whose intervals are `history`: the seconds of
/// every closed interval and, for an open one, the seconds from its start
/// up to `now`.
pub fn elapsed_duration(history: &Vec<TaskWorkHistory>, now: UnixTimestamp) -> (r: u128)
    ensures
        r == total_seconds(history@, now@),
{
    let n: usize = history.len();
    let mut total: u128 = 0;
    let mut i: usize = 0;
    while i < n
        invariant
            i <= n,
            n == history.len(),
            total == total_seconds(history@.take(i as int), now@),
        decreases n - i,
    {
        let seconds: u64 = history[i].elapsed(now);
        proof {
            assert(history@.take(i + 1).drop_last() =~= history@.take(i as int));
            lemma_total_seconds_bound(history@.take(i as int), now@);
            assert(i * u64::MAX <= usize::MAX * u64::MAX) by (nonlinear_arith)
                requires
                    i <= usize::MAX,
            ;
        }
        total = total + seconds as u128;
        i += 1;
    }
    proof {
        assert(history@.take(n as int) =~= history@);
    }
    total
}

/// While every interval is closed and none ends before it starts, the
/// time worked is the sum of `end - start` over the intervals.
pub proof fn lemma_elapsed_of_closed(history: Seq<TaskWorkHistory>, now: int)
    requires
        all_closed(history),
        all_chronological(history),
    ensures
        total_seconds(history, now) == closed_sum(history),
    decreases history.len(),
{
    if history.len() > 0 {
        assert(!history[history.len() - 1].is_open());
        assert(history[history.len() - 1].chronological());
        assert forall|i: int| 0 <= i < history.drop_last().len() implies !(#[trigger] history.drop_last()[i]).is_open()
            && history.drop_last()[i].chronological() by {
            assert(history.drop_last()[i] == history[i]);
        }
        lemma_elapsed_of_closed(history.drop_last(), now);
    }
}

/// With one open interval after closed ones, the time worked is the sum
/// over the closed intervals plus the seconds from the open interval's
/// start up to `now`.
pub proof fn lemma_elapsed_with_open(closed: Seq<TaskWorkHistory>, open: TaskWorkHistory, now: int)
    requires
        all_closed(closed),
        all_chronological(closed),
        open.is_open(),
        open.start_date@ <= now,
    ensures
        total_seconds(closed.push(open), now) == closed_sum(closed) + (now - open.start_date@),
{
    lemma_elapsed_of_closed(closed, now);
    assert(closed.push(open).drop_last() =~= closed);
}

pub open spec fn is_earliest_start(history: Seq<TaskWorkHistory>, start: int) -> bool {
    &&& exists|i: int| 0 <= i < history.len() && (#[trigger] history[i]).start_date@ == start
    &&& forall|i: int| 0 <= i < history.len() ==> start <= (#[trigger] history[i]).start_date@
}

pub open spec fn is_latest_end(history: Seq<TaskWorkHistory>, now: int, end: int) -> bool {
    &&& exists|i: int| 0 <= i < history.len() && (#[trigger] history[i]).end_or(now) == end
    &&& forall|i: int| 0 <= i < history.len() ==> (#[trigger] history[i]).end_or(now) <= end
}

/// When work on the task began: the earliest start among its intervals,
/// absent while it has none.
pub fn get_actual_start(history: &Vec<TaskWorkHistory>) -> (r: OptionalUnixTimestamp)
    ensures
        history@.len() == 0 <==> r.0 is None,
        r.0 is Some ==> is_earliest_start(history@, r.0->0 as int),
{
    let n: usize = history.len();
    if n == 0 {
        return OptionalUnixTimestamp::none();
    }
    let mut best: i64 = history[0].start_date.0;
    let mut i: usize = 1;
    while i < n
        invariant
            1 <= i <= n,
            n == history.len(),
            exists|k: int| 0 <= k < i && (#[trigger] history@[k]).start_date@ == best,
            forall|k: int| 0 <= k < i ==> best <= (#[trigger] history@[k]).start_date@,
        decreases n - i,
    {
        if history[i].start_date.0 < best {
            best = history[i].start_date.0;
        }
        i += 1;
    }
    OptionalUnixTimestamp::from_seconds(best)
}

/// When the task was completed: for a task that is done, the latest
/// instant up to which any of its intervals has run (`now` for an open
/// one); absent for a task that is not done or has no interval.
pub fn get_actual_complete(status: &Status, history: &Vec<TaskWorkHistory>, now: UnixTimestamp) -> (r: Option<UnixTimestamp>)
    ensures
        r is Some <==> *status == Status::Done && history@.len() > 0,
        r is Some ==> is_latest_end(history@, now@, r->0@),
{
    let n: usize = history.len();
    if !status.is_done() || n == 0 {
        return None;
    }
    let mut best: UnixTimestamp = history[0].end_date.unwrap_or(now);
    let mut i: usize = 1;
    while i < n
        invariant
            1 <= i <= n,
            n == history.len(),
            exists|k: int| 0 <= k < i && (#[trigger] history@[k]).end_or(now@) == best@,
            forall|k: int| 0 <= k < i ==> (#[trigger] history@[k]).end_or(now@) <= best@,
        decreases n - i,
    {
        let end: UnixTimestamp = history[i].end_date.unwrap_or(now);
        if end.0 > best.0 {
            best = end;
        }
        i += 1;
    }
    Some(best)
}

} // verus!
