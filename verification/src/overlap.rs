//! How much of a work interval falls into a reporting bucket.

use vstd::prelude::*;
use crate::history::TaskWorkHistory;
use crate::timestamp::{span, span_seconds, UnixTimestamp};

verus! {

pub open spec fn later(a: int, b: int) -> int {
    if a >= b { a } else { b }
}

pub open spec fn earlier(a: int, b: int) -> int {
    if a <= b { a } else { b }
}

/// The seconds that the interval from `interval_start` to `interval_end`
/// shares with the bucket from `bucket_start` to `bucket_end`: the length
/// of their intersection, zero where they do not meet.
pub open spec fn overlap(interval_start: int, interval_end: int, bucket_start: int, bucket_end: int) -> nat {
    span(later(interval_start, bucket_start), earlier(interval_end, bucket_end))
}

/// The seconds of an interval that fall into a bucket. `interval_end` is
/// the end of a closed interval, or the current instant for an open one.
pub fn overlap_seconds(
    interval_start: UnixTimestamp,
    interval_end: UnixTimestamp,
    bucket_start: UnixTimestamp,
    bucket_end: UnixTimestamp,
) -> (r: u64)
    ensures
        r == overlap(interval_start@, interval_end@, bucket_start@, bucket_end@),
{
    let is: i64 = interval_start.0;
    let ie: i64 = interval_end.0;
    let bs: i64 = bucket_start.0;
    let be: i64 = bucket_end.0;
    if is >= bs && is <= be && ie > be {
        // starts inside the bucket and outlasts it
        span_seconds(is, be)
    } else if is >= bs && is <= be && ie <= be {
        // starts and ends inside the bucket
        span_seconds(is, ie)
    } else if is < bs && ie > be {
        // covers the whole bucket
        span_seconds(bs, be)
    } else if is <= bs && ie >= bs && ie <= be {
        // starts before the bucket and ends inside it
        span_seconds(bs, ie)
    } else {
        0
    }
}

/// A reporting window and the seconds of work attributed to it. In a
/// request only the two bounds count.
#[derive(Clone, Copy, Debug, PartialEq, Eq, Structural)]
pub struct MetricsBucket {
    pub start_date: UnixTimestamp,
    pub end_date: UnixTimestamp,
    pub seconds: u128,
}

impl MetricsBucket {
    /// A window from `start_date` to `end_date` with no work attributed yet.
    pub fn new(start_date: UnixTimestamp, end_date: UnixTimestamp) -> (r: Self)
        ensures
            r == (MetricsBucket { start_date, end_date, seconds: 0 }),
    {
        MetricsBucket { start_date, end_date, seconds: 0 }
    }

    /// The seconds of `entry` that fall into this bucket, an open interval
    /// taken to run up to `now`.
    pub open spec fn share(self, entry: TaskWorkHistory, now: int) -> nat {
        overlap(entry.start_date@, entry.end_or(now), self.start_date@, self.end_date@)
    }
}

/// The buckets are in order and do not overlap: none ends before it
/// starts, and none starts before the one before it has ended.
pub open spec fn ordered_grid(buckets: Seq<MetricsBucket>) -> bool {
    &&& forall|k: int| 0 <= k < buckets.len() ==> (#[trigger] buckets[k]).start_date@ <= buckets[k].end_date@
    &&& forall|k: int|
        0 <= k < buckets.len() - 1 ==> (#[trigger] buckets[k]).end_date@ <= buckets[k + 1].start_date@
}

/// The buckets are in order and leave no gap: each starts where the one
/// before it ended.
pub open spec fn contiguous_grid(buckets: Seq<MetricsBucket>) -> bool {
    &&& forall|k: int| 0 <= k < buckets.len() ==> (#[trigger] buckets[k]).start_date@ <= buckets[k].end_date@
    &&& forall|k: int|
        0 <= k < buckets.len() - 1 ==> (#[trigger] buckets[k]).end_date@ == buckets[k + 1].start_date@
}

/// Whether the buckets are in order and do not overlap.
pub fn is_ordered_grid(buckets: &Vec<MetricsBucket>) -> (r: bool)
    ensures
        r == ordered_grid(buckets@),
{
    let n: usize = buckets.len();
    let mut i: usize = 0;
    while i < n
        invariant
            i <= n,
            n == buckets.len(),
            ordered_grid(buckets@.take(i as int)),
        decreases n - i,
    {
        if buckets[i].start_date.0 > buckets[i].end_date.0 {
            return false;
        }
        if i > 0 && buckets[i - 1].end_date.0 > buckets[i].start_date.0 {
            proof {
                assert(buckets@[i - 1].end_date@ > buckets@[(i - 1) + 1].start_date@);
            }
            return false;
        }
        i += 1;
    }
    proof {
        assert(buckets@.take(n as int) =~= buckets@);
    }
    true
}

/// For one interval of a task, from `entry_start` to `entry_end`, the
/// seconds that fall into each bucket: one entry for every bucket, in
/// their order, with the task, the bucket's bounds and the seconds.
pub fn collect_work_history(
    task_id: i64,
    entry_start: UnixTimestamp,
    entry_end: UnixTimestamp,
    buckets: &Vec<MetricsBucket>,
) -> (values: Vec<(i64, UnixTimestamp, UnixTimestamp, u64)>)
    ensures
        values@.len() == buckets@.len(),
        forall|k: int|
            0 <= k < buckets@.len() ==> {
                &&& (#[trigger] values@[k]).0 == task_id
                &&& values@[k].1 == buckets@[k].start_date
                &&& values@[k].2 == buckets@[k].end_date
                &&& values@[k].3 == overlap(entry_start@, entry_end@, buckets@[k].start_date@, buckets@[k].end_date@)
            },
{
    let n: usize = buckets.len();
    let mut values: Vec<(i64, UnixTimestamp, UnixTimestamp, u64)> = Vec::new();
    let mut k: usize = 0;
    while k < n
        invariant
            k <= n,
            n == buckets.len(),
            values@.len() == k,
            forall|j: int|
                0 <= j < k ==> {
                    &&& (#[trigger] values@[j]).0 == task_id
                    &&& values@[j].1 == buckets@[j].start_date
                    &&& values@[j].2 == buckets@[j].end_date
                    &&& values@[j].3 == overlap(
                        entry_start@,
                        entry_end@,
                        buckets@[j].start_date@,
                        buckets@[j].end_date@,
                    )
                },
        decreases n - k,
    {
        let bucket: MetricsBucket = buckets[k];
        let seconds: u64 = overlap_seconds(entry_start, entry_end, bucket.start_date, bucket.end_date);
        values.push((task_id, bucket.start_date, bucket.end_date, seconds));
        k += 1;
    }
    values
}

/// The seconds of all of `history` that fall between `start` and `end`,
/// open intervals taken to run up to `now`.
pub open spec fn bucket_seconds(history: Seq<TaskWorkHistory>, start: int, end: int, now: int) -> nat
    decreases history.len(),
{
    if history.len() == 0 {
        0
    } else {
        bucket_seconds(history.drop_last(), start, end, now) + overlap(
            history.last().start_date@,
            history.last().end_or(now),
            start,
            end,
        )
    }
}

/// The seconds of all of `history` over all of `buckets`: the sum of what
/// falls into each.
pub open spec fn grid_seconds(history: Seq<TaskWorkHistory>, buckets: Seq<MetricsBucket>, now: int) -> nat
    decreases buckets.len(),
{
    if buckets.len() == 0 {
        0
    } else {
        grid_seconds(history, buckets.drop_last(), now) + bucket_seconds(
            history,
            buckets.last().start_date@,
            buckets.last().end_date@,
            now,
        )
    }
}

/// The seconds that an interval shares with a bucket, told by where the
/// interval lies: it starts inside the bucket and outlasts it; it starts
/// and ends inside; it covers the bucket; it starts before the bucket and
/// ends inside; otherwise the two share nothing. "Inside" includes both
/// bounds. For an interval or a bucket that ends before it starts the
/// number can be negative.
pub open spec fn seconds_by_position(interval_start: int, interval_end: int, bucket_start: int, bucket_end: int) -> int {
    if bucket_start <= interval_start <= bucket_end && interval_end > bucket_end {
        bucket_end - interval_start
    } else if bucket_start <= interval_start <= bucket_end && interval_end <= bucket_end {
        interval_end - interval_start
    } else if interval_start < bucket_start && interval_end > bucket_end {
        bucket_end - bucket_start
    } else if interval_start <= bucket_start && bucket_start <= interval_end <= bucket_end {
        interval_end - bucket_start
    } else {
        0
    }
}

/// The overlap of an interval with a bucket is the seconds told by the
/// interval's position, and zero where those are negative.
pub proof fn lemma_overlap_by_position(interval_start: int, interval_end: int, bucket_start: int, bucket_end: int)
    ensures
        overlap(interval_start, interval_end, bucket_start, bucket_end) == if seconds_by_position(
            interval_start,
            interval_end,
            bucket_start,
            bucket_end,
        ) > 0 {
            seconds_by_position(interval_start, interval_end, bucket_start, bucket_end)
        } else {
            0
        },
        interval_start <= interval_end && bucket_start <= bucket_end ==> overlap(
            interval_start,
            interval_end,
            bucket_start,
            bucket_end,
        ) == seconds_by_position(interval_start, interval_end, bucket_start, bucket_end),
{
}

/// What falls into two spans that do not overlap is no more than what
/// falls into the span that covers both, and as much where the second
/// starts at the end of the first.
pub proof fn lemma_bucket_seconds_join(history: Seq<TaskWorkHistory>, a: int, b: int, c: int, d: int, now: int)
    requires
        a <= b <= c <= d,
    ensures
        bucket_seconds(history, a, b, now) + bucket_seconds(history, c, d, now) <= bucket_seconds(history, a, d, now),
        b == c ==> bucket_seconds(history, a, b, now) + bucket_seconds(history, c, d, now) == bucket_seconds(
            history,
            a,
            d,
            now,
        ),
    decreases history.len(),
{
    if history.len() > 0 {
        lemma_bucket_seconds_join(history.drop_last(), a, b, c, d, now);
    }
}

/// Over buckets in order that do not overlap, no second is counted twice:
/// the seconds over all buckets are no more than the seconds that fall
/// between the start of the first bucket and the end of the last.
pub proof fn lemma_grid_counts_once(history: Seq<TaskWorkHistory>, buckets: Seq<MetricsBucket>, now: int)
    requires
        buckets.len() > 0,
        ordered_grid(buckets),
    ensures
        grid_seconds(history, buckets, now) <= bucket_seconds(
            history,
            buckets.first().start_date@,
            buckets.last().end_date@,
            now,
        ),
    decreases buckets.len(),
{
    let rest = buckets.drop_last();
    if rest.len() > 0 {
        assert(ordered_grid(rest)) by {
            assert forall|k: int| 0 <= k < rest.len() - 1 implies (#[trigger] rest[k]).end_date@ <= rest[k
                + 1].start_date@ by {
                assert(buckets[k].end_date@ <= buckets[k + 1].start_date@);
            }
            assert forall|k: int| 0 <= k < rest.len() implies (#[trigger] rest[k]).start_date@ <= rest[k].end_date@ by {
                assert(buckets[k].start_date@ <= buckets[k].end_date@);
            }
        }
        lemma_grid_counts_once(history, rest, now);
        let n = buckets.len() as int;
        assert(buckets[n - 2].end_date@ <= buckets[(n - 2) + 1].start_date@);
        assert(buckets[0].start_date@ <= buckets[0].end_date@);
        lemma_grid_ends_in_order(rest);
        lemma_bucket_seconds_join(
            history,
            buckets.first().start_date@,
            rest.last().end_date@,
            buckets.last().start_date@,
            buckets.last().end_date@,
            now,
        );
    } else {
        assert(grid_seconds(history, rest, now) == 0);
    }
}

/// In an ordered grid the first bucket starts no later than the last ends.
pub proof fn lemma_grid_ends_in_order(buckets: Seq<MetricsBucket>)
    requires
        buckets.len() > 0,
        ordered_grid(buckets),
    ensures
        buckets.first().start_date@ <= buckets.last().end_date@,
        forall|k: int| 0 <= k < buckets.len() ==> buckets.first().start_date@ <= (#[trigger] buckets[k]).start_date@,
    decreases buckets.len(),
{
    let rest = buckets.drop_last();
    if rest.len() > 0 {
        assert(ordered_grid(rest)) by {
            assert forall|k: int| 0 <= k < rest.len() - 1 implies (#[trigger] rest[k]).end_date@ <= rest[k
                + 1].start_date@ by {
                assert(buckets[k].end_date@ <= buckets[k + 1].start_date@);
            }
            assert forall|k: int| 0 <= k < rest.len() implies (#[trigger] rest[k]).start_date@ <= rest[k].end_date@ by {
                assert(buckets[k].start_date@ <= buckets[k].end_date@);
            }
        }
        lemma_grid_ends_in_order(rest);
        let n = buckets.len() as int;
        assert(buckets[n - 2].end_date@ <= buckets[(n - 2) + 1].start_date@);
        assert(buckets[n - 1].start_date@ <= buckets[n - 1].end_date@);
        assert forall|k: int| 0 <= k < buckets.len() implies buckets.first().start_date@ <= (
        #[trigger] buckets[k]).start_date@ by {
            if k < n - 1 {
                assert(rest[k] == buckets[k]);
            }
        }
    } else {
        assert(buckets[0].start_date@ <= buckets[0].end_date@);
    }
}

/// Over buckets in order that leave no gap, the seconds over all buckets
/// are exactly the seconds that fall between the start of the first
/// bucket and the end of the last: nothing is counted twice and nothing
/// is left out.
pub proof fn lemma_grid_covers_span(history: Seq<TaskWorkHistory>, buckets: Seq<MetricsBucket>, now: int)
    requires
        buckets.len() > 0,
        contiguous_grid(buckets),
    ensures
        grid_seconds(history, buckets, now) == bucket_seconds(
            history,
            buckets.first().start_date@,
            buckets.last().end_date@,
            now,
        ),
    decreases buckets.len(),
{
    let rest = buckets.drop_last();
    if rest.len() > 0 {
        assert(contiguous_grid(rest)) by {
            assert forall|k: int| 0 <= k < rest.len() - 1 implies (#[trigger] rest[k]).end_date@ == rest[k
                + 1].start_date@ by {
                assert(buckets[k].end_date@ == buckets[k + 1].start_date@);
            }
            assert forall|k: int| 0 <= k < rest.len() implies (#[trigger] rest[k]).start_date@ <= rest[k].end_date@ by {
                assert(buckets[k].start_date@ <= buckets[k].end_date@);
            }
        }
        lemma_grid_covers_span(history, rest, now);
        assert(ordered_grid(rest));
        lemma_grid_ends_in_order(rest);
        let n = buckets.len() as int;
        assert(buckets[n - 2].end_date@ == buckets[(n - 2) + 1].start_date@);
        assert(buckets[n - 1].start_date@ <= buckets[n - 1].end_date@);
        lemma_bucket_seconds_join(
            history,
            buckets.first().start_date@,
            rest.last().end_date@,
            buckets.last().start_date@,
            buckets.last().end_date@,
            now,
        );
    } else {
        assert(grid_seconds(history, rest, now) == 0);
    }
}

/// No more falls into a span than 64 bits hold for each interval.
pub proof fn lemma_bucket_seconds_bound(history: Seq<TaskWorkHistory>, start: int, end: int, now: int)
    requires
        i64::MIN <= start <= i64::MAX,
        i64::MIN <= end <= i64::MAX,
        i64::MIN <= now <= i64::MAX,
    ensures
        bucket_seconds(history, start, end, now) <= history.len() * u64::MAX,
    decreases history.len(),
{
    if history.len() > 0 {
        lemma_bucket_seconds_bound(history.drop_last(), start, end, now);
        assert(history.len() * u64::MAX == (history.len() - 1) * u64::MAX + u64::MAX) by (nonlinear_arith);
    }
}

} // verus!
