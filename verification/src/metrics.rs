//! The report of time worked: the seconds that fall into each bucket, and
//! how many tasks were started, completed and worked on over the span of
//! the buckets.

use vstd::prelude::*;
use crate::error::TrackerError;
use crate::history::TaskWorkHistory;
use crate::ledger::{after_effect, lemma_select_members, lemma_select_push, select, Selection};
use crate::lifecycle::{lemma_cancel_discards, Task};
use crate::overlap::{
    bucket_seconds, collect_work_history, contiguous_grid, grid_seconds, lemma_bucket_seconds_bound,
    lemma_grid_counts_once, lemma_grid_covers_span, ordered_grid, MetricsBucket,
};
use crate::status::{effect_of, Command, Status};
use crate::tags::{has_all_tags, ids_of, tag_ids, task_has_all_tags, Tag, TaskTag};
use crate::timestamp::UnixTimestamp;

verus! {

/// Counts over the span of a report, and the seconds worked in it.
#[derive(Clone, Copy, Debug, PartialEq, Eq, Structural)]
pub struct StatisticalSummary {
    pub tasks_started: usize,
    pub tasks_completed: usize,
    pub tasks_worked: usize,
    pub seconds_worked: u128,
}

impl StatisticalSummary {
    pub fn new(tasks_started: usize, tasks_completed: usize, tasks_worked: usize, seconds_worked: u128) -> (r: Self)
        ensures
            r == (StatisticalSummary { tasks_started, tasks_completed, tasks_worked, seconds_worked }),
    {
        Self { tasks_started, tasks_completed, tasks_worked, seconds_worked }
    }
}

/// What a report is asked for: the tags that a task must carry, all of
/// them, and the buckets to apportion its time to.
#[derive(Clone, Debug)]
pub struct MetricsSearchCriteria {
    pub tags: Vec<Tag>,
    pub buckets: Vec<MetricsBucket>,
}

/// A report: its span, the tags it was asked for, the summary, and one
/// bucket for each bucket asked for.
#[derive(Clone, Debug)]
pub struct MetricsSummary {
    pub start_date: UnixTimestamp,
    pub end_date: UnixTimestamp,
    pub selected_tags: Vec<Tag>,
    pub summary: StatisticalSummary,
    pub work_history: Vec<MetricsBucket>,
}

impl MetricsSummary {
    pub fn new(
        start_date: UnixTimestamp,
        end_date: UnixTimestamp,
        selected_tags: Vec<Tag>,
        summary: StatisticalSummary,
        work_history: Vec<MetricsBucket>,
    ) -> (r: Self)
        ensures
            r.start_date == start_date,
            r.end_date == end_date,
            r.selected_tags == selected_tags,
            r.summary == summary,
            r.work_history == work_history,
    {
        Self { start_date, end_date, selected_tags, summary, work_history }
    }
}

impl MetricsSearchCriteria {
    /// The request names a tag and a bucket.
    pub open spec fn is_valid(self) -> bool {
        self.tags@.len() > 0 && self.buckets@.len() > 0
    }

    /// The span that the request covers, from the start of its first bucket
    /// to the end of its last: what has to be read to answer it. A request
    /// without a tag or without a bucket is refused, so that nothing is
    /// read for it.
    pub fn span(&self) -> (r: Result<(UnixTimestamp, UnixTimestamp), TrackerError>)
        ensures
            r is Ok <==> self.is_valid(),
            r is Err ==> r == Err::<(UnixTimestamp, UnixTimestamp), TrackerError>(TrackerError::InvalidRequest),
            r is Ok ==> r->Ok_0 == (self.buckets@.first().start_date, self.buckets@.last().end_date),
    {
        if self.buckets.len() == 0 || self.tags.len() == 0 {
            return Err(TrackerError::InvalidRequest);
        }
        let last: usize = self.buckets.len() - 1;
        Ok((self.buckets[0].start_date, self.buckets[last].end_date))
    }
}

/// The intervals of the tasks that carry every one of the tags, in their
/// order.
pub open spec fn tagged_history(history: Seq<TaskWorkHistory>, task_tags: Seq<TaskTag>, tag_ids: Seq<i64>) -> Seq<
    TaskWorkHistory,
>
    decreases history.len(),
{
    if history.len() == 0 {
        Seq::empty()
    } else if task_has_all_tags(task_tags, tag_ids, history.last().task_id) {
        tagged_history(history.drop_last(), task_tags, tag_ids).push(history.last())
    } else {
        tagged_history(history.drop_last(), task_tags, tag_ids)
    }
}

/// The intervals of the tasks that carry every one of the tags, in their
/// order.
pub fn select_tagged(history: &Vec<TaskWorkHistory>, task_tags: &Vec<TaskTag>, tag_ids: &Vec<i64>) -> (r: Vec<
    TaskWorkHistory,
>)
    ensures
        r@ == tagged_history(history@, task_tags@, tag_ids@),
{
    let n: usize = history.len();
    let mut out: Vec<TaskWorkHistory> = Vec::new();
    let mut i: usize = 0;
    while i < n
        invariant
            i <= n,
            n == history.len(),
            out@ == tagged_history(history@.take(i as int), task_tags@, tag_ids@),
        decreases n - i,
    {
        proof {
            assert(history@.take(i + 1).drop_last() =~= history@.take(i as int));
        }
        if has_all_tags(task_tags, tag_ids, history[i].task_id) {
            out.push(history[i]);
        }
        i += 1;
    }
    proof {
        assert(history@.take(n as int) =~= history@);
    }
    out
}

/// `report` holds, for each of `buckets` in their order, its bounds and
/// the seconds of `history` that fall into it.
pub open spec fn is_report_of(
    report: Seq<MetricsBucket>,
    history: Seq<TaskWorkHistory>,
    buckets: Seq<MetricsBucket>,
    now: int,
) -> bool {
    &&& report.len() == buckets.len()
    &&& forall|k: int|
        0 <= k < buckets.len() ==> {
            &&& (#[trigger] report[k]).start_date == buckets[k].start_date
            &&& report[k].end_date == buckets[k].end_date
            &&& report[k].seconds == bucket_seconds(history, buckets[k].start_date@, buckets[k].end_date@, now)
        }
}

/// The seconds of all buckets of a report together.
pub open spec fn reported_seconds(report: Seq<MetricsBucket>) -> nat
    decreases report.len(),
{
    if report.len() == 0 {
        0
    } else {
        reported_seconds(report.drop_last()) + report.last().seconds as nat
    }
}

/// The buckets of a report together hold the seconds of the history over
/// the grid of its buckets.
pub proof fn lemma_report_total(
    report: Seq<MetricsBucket>,
    history: Seq<TaskWorkHistory>,
    buckets: Seq<MetricsBucket>,
    now: int,
)
    requires
        is_report_of(report, history, buckets, now),
    ensures
        reported_seconds(report) == grid_seconds(history, buckets, now),
    decreases buckets.len(),
{
    if buckets.len() > 0 {
        assert(is_report_of(report.drop_last(), history, buckets.drop_last(), now)) by {
            assert forall|k: int| 0 <= k < buckets.drop_last().len() implies {
                &&& (#[trigger] report.drop_last()[k]).start_date == buckets.drop_last()[k].start_date
                &&& report.drop_last()[k].end_date == buckets.drop_last()[k].end_date
                &&& report.drop_last()[k].seconds == bucket_seconds(
                    history,
                    buckets.drop_last()[k].start_date@,
                    buckets.drop_last()[k].end_date@,
                    now,
                )
            } by {
                assert(report[k].start_date == buckets[k].start_date);
            }
        }
        lemma_report_total(report.drop_last(), history, buckets.drop_last(), now);
        assert(report[report.len() - 1].start_date == buckets[buckets.len() - 1].start_date);
    }
}

/// The first buckets of a report hold no more than all of them.
pub proof fn lemma_reported_prefix(report: Seq<MetricsBucket>, k: int)
    requires
        0 <= k <= report.len(),
    ensures
        reported_seconds(report.take(k)) <= reported_seconds(report),
    decreases report.len() - k,
{
    if k < report.len() {
        lemma_reported_prefix(report, k + 1);
        assert(report.take(k + 1).drop_last() =~= report.take(k));
    } else {
        assert(report.take(k) =~= report);
    }
}

/// For each bucket, the seconds of `history` that fall into it, an open
/// interval taken to run up to `now`. Every bucket is reported, in the
/// order given, also one into which nothing falls.
pub fn get_work_history(history: &Vec<TaskWorkHistory>, buckets: &Vec<MetricsBucket>, now: UnixTimestamp) -> (report:
    Vec<MetricsBucket>)
    ensures
        is_report_of(report@, history@, buckets@, now@),
{
    let n: usize = history.len();
    let m: usize = buckets.len();
    let mut report: Vec<MetricsBucket> = Vec::new();
    let mut k: usize = 0;
    while k < m
        invariant
            k <= m,
            m == buckets.len(),
            report@.len() == k,
            is_report_of(report@, Seq::<TaskWorkHistory>::empty(), buckets@.take(k as int), now@),
        decreases m - k,
    {
        report.push(MetricsBucket::new(buckets[k].start_date, buckets[k].end_date));
        k += 1;
    }
    let mut i: usize = 0;
    while i < n
        invariant
            i <= n,
            n == history.len(),
            m == buckets.len(),
            is_report_of(report@, history@.take(i as int), buckets@, now@),
        decreases n - i,
    {
        let entry: TaskWorkHistory = history[i];
        let values = collect_work_history(entry.task_id, entry.start_date, entry.end_date.unwrap_or(now), buckets);
        let ghost before = history@.take(i as int);
        let ghost after = history@.take(i + 1);
        proof {
            assert(after.drop_last() =~= before);
            assert(after.last() == entry);
        }
        let mut k: usize = 0;
        while k < m
            invariant
                k <= m,
                m == buckets.len(),
                m == values.len(),
                m == report.len(),
                i < n,
                n == history.len(),
                before == history@.take(i as int),
                after == history@.take(i + 1),
                after.drop_last() == before,
                after.last() == entry,
                forall|j: int|
                    0 <= j < m ==> (#[trigger] values@[j]).3 == buckets@[j].share(entry, now@),
                forall|j: int|
                    0 <= j < m ==> {
                        &&& (#[trigger] report@[j]).start_date == buckets@[j].start_date
                        &&& report@[j].end_date == buckets@[j].end_date
                        &&& report@[j].seconds == bucket_seconds(
                            if j < k {
                                after
                            } else {
                                before
                            },
                            buckets@[j].start_date@,
                            buckets@[j].end_date@,
                            now@,
                        )
                    },
            decreases m - k,
        {
            let seconds: u64 = values[k].3;
            let bucket: MetricsBucket = report[k];
            proof {
                lemma_bucket_seconds_bound(before, bucket.start_date@, bucket.end_date@, now@);
                assert(before.len() * u64::MAX + u64::MAX <= usize::MAX * u64::MAX) by (nonlinear_arith)
                    requires
                        before.len() < usize::MAX,
                ;
            }
            report[k] = MetricsBucket {
                start_date: bucket.start_date,
                end_date: bucket.end_date,
                seconds: bucket.seconds + seconds as u128,
            };
            k += 1;
        }
        i += 1;
    }
    proof {
        assert(history@.take(n as int) =~= history@);
    }
    report
}

/// The seconds of all buckets of a report together.
pub fn sum_seconds(report: &Vec<MetricsBucket>) -> (total: u128)
    requires
        reported_seconds(report@) <= u128::MAX,
    ensures
        total == reported_seconds(report@),
{
    let m: usize = report.len();
    let mut total: u128 = 0;
    let mut k: usize = 0;
    while k < m
        invariant
            k <= m,
            m == report.len(),
            total == reported_seconds(report@.take(k as int)),
            reported_seconds(report@) <= u128::MAX,
        decreases m - k,
    {
        proof {
            lemma_reported_prefix(report@, k + 1);
            assert(report@.take(k + 1).drop_last() =~= report@.take(k as int));
        }
        total = total + report[k].seconds;
        k += 1;
    }
    proof {
        assert(report@.take(m as int) =~= report@);
    }
    total
}

/// Some task with this id is done.
pub open spec fn task_is_done(tasks: Seq<Task>, task_id: i64) -> bool {
    exists|k: int| 0 <= k < tasks.len() && (#[trigger] tasks[k]).id == task_id && tasks[k].status == Status::Done
}

/// Whether some task with this id is done.
pub fn is_done(tasks: &Vec<Task>, task_id: i64) -> (r: bool)
    ensures
        r == task_is_done(tasks@, task_id),
{
    let n: usize = tasks.len();
    let mut k: usize = 0;
    while k < n
        invariant
            k <= n,
            n == tasks.len(),
            forall|j: int| 0 <= j < k ==> !((#[trigger] tasks@[j]).id == task_id && tasks@[j].status == Status::Done),
        decreases n - k,
    {
        if tasks[k].id == task_id && tasks[k].status.is_done() {
            return true;
        }
        k += 1;
    }
    false
}

/// What is counted over the span of a report.
#[derive(Clone, Copy, Debug, PartialEq, Eq, Structural)]
pub enum Tally {
    /// The tasks whose earliest interval starts within the span.
    Started,
    /// The tasks that are done, whose latest interval ends within the span
    /// and none of whose intervals starts after it.
    Completed,
    /// The tasks with an interval that meets the span.
    Worked,
}

impl Tally {
    /// The interval is one that makes its task count: for started tasks
    /// one that starts within the span, for completed tasks one that ends
    /// within it, for worked tasks one that meets it. An open interval is
    /// taken to end at `now`; the span includes both its bounds.
    pub open spec fn witness(self, entry: TaskWorkHistory, start: int, end: int, now: int) -> bool {
        match self {
            Tally::Started => start <= entry.start_date@ <= end,
            Tally::Completed => start <= entry.end_or(now) <= end,
            Tally::Worked => entry.end_or(now) >= start && entry.start_date@ <= end,
        }
    }

    /// The interval does not keep its task from counting: for started
    /// tasks it does not start before the span, for completed tasks it
    /// neither ends nor starts after the span.
    pub open spec fn admits(self, entry: TaskWorkHistory, start: int, end: int, now: int) -> bool {
        match self {
            Tally::Started => start <= entry.start_date@,
            Tally::Completed => entry.end_or(now) <= end && entry.start_date@ <= end,
            Tally::Worked => true,
        }
    }

    /// The task counts: some interval of it makes it count, none keeps it
    /// from counting and, to count as completed, it is done.
    pub open spec fn counts(
        self,
        history: Seq<TaskWorkHistory>,
        tasks: Seq<Task>,
        task_id: i64,
        start: int,
        end: int,
        now: int,
    ) -> bool {
        &&& self == Tally::Completed ==> task_is_done(tasks, task_id)
        &&& exists|i: int|
            0 <= i < history.len() && (#[trigger] history[i]).task_id == task_id && self.witness(
                history[i],
                start,
                end,
                now,
            )
        &&& forall|i: int|
            0 <= i < history.len() && (#[trigger] history[i]).task_id == task_id ==> self.admits(
                history[i],
                start,
                end,
                now,
            )
    }

    /// The tasks that count.
    pub open spec fn counted(
        self,
        history: Seq<TaskWorkHistory>,
        tasks: Seq<Task>,
        start: int,
        end: int,
        now: int,
    ) -> Set<i64> {
        Set::new(|task_id: i64| self.counts(history, tasks, task_id, start, end, now))
    }

    fn test(&self, entry: &TaskWorkHistory, start: UnixTimestamp, end: UnixTimestamp, now: UnixTimestamp) -> (r: (
        bool,
        bool,
    ))
        ensures
            r.0 == self.witness(*entry, start@, end@, now@),
            r.1 == self.admits(*entry, start@, end@, now@),
    {
        let begun: i64 = entry.start_date.0;
        let ended: i64 = entry.end_date.unwrap_or(now).0;
        match self {
            Tally::Started => (start.0 <= begun && begun <= end.0, start.0 <= begun),
            Tally::Completed => (start.0 <= ended && ended <= end.0, ended <= end.0 && begun <= end.0),
            Tally::Worked => (ended >= start.0 && begun <= end.0, true),
        }
    }

    /// Whether the task counts.
    pub fn task_counts(
        &self,
        history: &Vec<TaskWorkHistory>,
        tasks: &Vec<Task>,
        task_id: i64,
        start: UnixTimestamp,
        end: UnixTimestamp,
        now: UnixTimestamp,
    ) -> (r: bool)
        ensures
            r == self.counts(history@, tasks@, task_id, start@, end@, now@),
    {
        match self {
            Tally::Completed => {
                if !is_done(tasks, task_id) {
                    return false;
                }
            },
            _ => {},
        }
        let n: usize = history.len();
        let mut some: bool = false;
        let mut all: bool = true;
        let mut i: usize = 0;
        while i < n
            invariant
                i <= n,
                n == history.len(),
                some == (exists|j: int|
                    0 <= j < i && (#[trigger] history@[j]).task_id == task_id && self.witness(
                        history@[j],
                        start@,
                        end@,
                        now@,
                    )),
                all == (forall|j: int|
                    0 <= j < i && (#[trigger] history@[j]).task_id == task_id ==> self.admits(
                        history@[j],
                        start@,
                        end@,
                        now@,
                    )),
            decreases n - i,
        {
            if history[i].task_id == task_id {
                let (witness, admitted) = self.test(&history[i], start, end, now);
                if witness {
                    some = true;
                }
                if !admitted {
                    all = false;
                }
            }
            i += 1;
        }
        some && all
    }

    /// How many tasks count: each task once, however many intervals it has.
    pub fn count(
        &self,
        history: &Vec<TaskWorkHistory>,
        tasks: &Vec<Task>,
        start: UnixTimestamp,
        end: UnixTimestamp,
        now: UnixTimestamp,
    ) -> (r: usize)
        ensures
            r == self.counted(history@, tasks@, start@, end@, now@).len(),
            self.counted(history@, tasks@, start@, end@, now@).finite(),
    {
        let n: usize = history.len();
        let mut seen: Vec<i64> = Vec::new();
        let mut i: usize = 0;
        while i < n
            invariant
                i <= n,
                n == history.len(),
                seen@.len() <= i,
                seen@.no_duplicates(),
                forall|task_id: i64| #[trigger]
                    seen@.contains(task_id) <==> self.counts(history@, tasks@, task_id, start@, end@, now@) && (
                    exists|j: int| 0 <= j < i && (#[trigger] history@[j]).task_id == task_id),
            decreases n - i,
        {
            let task_id: i64 = history[i].task_id;
            let ghost before = seen@;
            if !contains(&seen, task_id) && self.task_counts(history, tasks, task_id, start, end, now) {
                seen.push(task_id);
                proof {
                    assert(seen@.drop_last() =~= before);
                    assert forall|other: i64| #[trigger]
                        seen@.contains(other) <==> self.counts(history@, tasks@, other, start@, end@, now@) && (
                        exists|j: int| 0 <= j < i + 1 && (#[trigger] history@[j]).task_id == other) by {
                        if seen@.contains(other) {
                            let at = choose|at: int| 0 <= at < seen@.len() && seen@[at] == other;
                            if at < before.len() {
                                assert(before[at] == other);
                                assert(before.contains(other));
                            } else {
                                assert(other == task_id);
                                assert(history@[i as int].task_id == other);
                            }
                        }
                        if self.counts(history@, tasks@, other, start@, end@, now@) && (exists|j: int|
                            0 <= j < i + 1 && (#[trigger] history@[j]).task_id == other) {
                            if other == task_id {
                                assert(seen@[seen@.len() - 1] == other);
                            } else {
                                let j = choose|j: int| 0 <= j < i + 1 && (#[trigger] history@[j]).task_id == other;
                                assert(j < i);
                                assert(before.contains(other));
                                let at = choose|at: int| 0 <= at < before.len() && before[at] == other;
                                assert(seen@[at] == other);
                            }
                        }
                    }
                }
            } else {
                proof {
                    assert forall|other: i64| #[trigger]
                        seen@.contains(other) <==> self.counts(history@, tasks@, other, start@, end@, now@) && (
                        exists|j: int| 0 <= j < i + 1 && (#[trigger] history@[j]).task_id == other) by {
                        if seen@.contains(other) {
                            let j = choose|j: int| 0 <= j < i && (#[trigger] history@[j]).task_id == other;
                            assert(0 <= j < i + 1);
                        }
                        if self.counts(history@, tasks@, other, start@, end@, now@) && (exists|j: int|
                            0 <= j < i + 1 && (#[trigger] history@[j]).task_id == other) {
                            let j = choose|j: int| 0 <= j < i + 1 && (#[trigger] history@[j]).task_id == other;
                            if j == i {
                                assert(other == task_id);
                            }
                        }
                    }
                }
            }
            i += 1;
        }
        proof {
            let counted = self.counted(history@, tasks@, start@, end@, now@);
            assert forall|task_id: i64| seen@.to_set().contains(task_id) <==> counted.contains(task_id) by {
                if counted.contains(task_id) {
                    let j = choose|j: int|
                        0 <= j < history@.len() && (#[trigger] history@[j]).task_id == task_id && self.witness(
                            history@[j],
                            start@,
                            end@,
                            now@,
                        );
                    assert(0 <= j < n && history@[j].task_id == task_id);
                }
            }
            assert(seen@.to_set() =~= counted);
            seen@.unique_seq_to_set();
        }
        seen.len()
    }
}

/// The tasks that were started within the span: those whose earliest
/// interval starts within it.
pub open spec fn started_tasks(history: Seq<TaskWorkHistory>, start: int, end: int) -> Set<i64> {
    Tally::Started.counted(history, Seq::<Task>::empty(), start, end, 0)
}

/// The tasks that were completed within the span: those that are done,
/// whose latest interval ends within the span, an open one taken to end
/// at `now`, and none of whose intervals starts after it.
pub open spec fn completed_tasks(
    history: Seq<TaskWorkHistory>,
    tasks: Seq<Task>,
    start: int,
    end: int,
    now: int,
) -> Set<i64> {
    Tally::Completed.counted(history, tasks, start, end, now)
}

/// The tasks that were worked on within the span: those with an interval
/// that meets it, an open one taken to run up to `now`.
pub open spec fn worked_tasks(history: Seq<TaskWorkHistory>, start: int, end: int, now: int) -> Set<i64> {
    Tally::Worked.counted(history, Seq::<Task>::empty(), start, end, now)
}

/// Whether `value` is among `values`.
pub fn contains(values: &Vec<i64>, value: i64) -> (r: bool)
    ensures
        r == values@.contains(value),
{
    let n: usize = values.len();
    let mut k: usize = 0;
    while k < n
        invariant
            k <= n,
            n == values.len(),
            forall|j: int| 0 <= j < k ==> values@[j] != value,
        decreases n - k,
    {
        if values[k] == value {
            return true;
        }
        k += 1;
    }
    false
}

/// How many tasks were started within the span: those whose earliest
/// interval starts within it.
pub fn count_started_tasks(history: &Vec<TaskWorkHistory>, start_date: UnixTimestamp, end_date: UnixTimestamp) -> (r:
    usize)
    ensures
        r == started_tasks(history@, start_date@, end_date@).len(),
{
    let tasks: Vec<Task> = Vec::new();
    let r: usize = Tally::Started.count(history, &tasks, start_date, end_date, UnixTimestamp(0));
    r
}

/// How many tasks were completed within the span: those that are done,
/// whose latest interval ends within the span, an open one taken to end
/// at `now`, and none of whose intervals starts after it.
pub fn count_completed_tasks(
    history: &Vec<TaskWorkHistory>,
    tasks: &Vec<Task>,
    start_date: UnixTimestamp,
    end_date: UnixTimestamp,
    now: UnixTimestamp,
) -> (r: usize)
    ensures
        r == completed_tasks(history@, tasks@, start_date@, end_date@, now@).len(),
{
    Tally::Completed.count(history, tasks, start_date, end_date, now)
}

/// How many tasks were worked on within the span: those with an interval
/// that meets it, an open one taken to run up to `now`.
pub fn count_tasks_worked(
    history: &Vec<TaskWorkHistory>,
    start_date: UnixTimestamp,
    end_date: UnixTimestamp,
    now: UnixTimestamp,
) -> (r: usize)
    ensures
        r == worked_tasks(history@, start_date@, end_date@, now@).len(),
{
    let tasks: Vec<Task> = Vec::new();
    let r: usize = Tally::Worked.count(history, &tasks, start_date, end_date, now);
    r
}

/// The summary of a report over the span from `start_date` to `end_date`:
/// the three counts of tasks, and the seconds of all buckets of
/// `work_history` together.
pub fn get_statistical_summary(
    history: &Vec<TaskWorkHistory>,
    tasks: &Vec<Task>,
    start_date: UnixTimestamp,
    end_date: UnixTimestamp,
    work_history: &Vec<MetricsBucket>,
    now: UnixTimestamp,
) -> (r: StatisticalSummary)
    requires
        reported_seconds(work_history@) <= u128::MAX,
    ensures
        r.tasks_started == started_tasks(history@, start_date@, end_date@).len(),
        r.tasks_completed == completed_tasks(history@, tasks@, start_date@, end_date@, now@).len(),
        r.tasks_worked == worked_tasks(history@, start_date@, end_date@, now@).len(),
        r.seconds_worked == reported_seconds(work_history@),
{
    let tasks_started: usize = count_started_tasks(history, start_date, end_date);
    let tasks_completed: usize = count_completed_tasks(history, tasks, start_date, end_date, now);
    let tasks_worked: usize = count_tasks_worked(history, start_date, end_date, now);
    let seconds_worked: u128 = sum_seconds(work_history);
    StatisticalSummary::new(tasks_started, tasks_completed, tasks_worked, seconds_worked)
}

/// `report` answers `criteria` at `now` from what the store holds: the
/// tasks, which task carries which tag, and the work intervals. Only the
/// intervals of tasks that carry every tag asked for count. The span runs
/// from the start of the first bucket to the end of the last.
pub open spec fn is_metrics_of(
    report: MetricsSummary,
    criteria: MetricsSearchCriteria,
    tasks: Seq<Task>,
    task_tags: Seq<TaskTag>,
    history: Seq<TaskWorkHistory>,
    now: int,
) -> bool {
    let selected = tagged_history(history, task_tags, ids_of(criteria.tags@));
    let start = criteria.buckets@.first().start_date;
    let end = criteria.buckets@.last().end_date;
    &&& report.start_date == start
    &&& report.end_date == end
    &&& report.selected_tags == criteria.tags
    &&& is_report_of(report.work_history@, selected, criteria.buckets@, now)
    &&& report.summary.tasks_started == started_tasks(selected, start@, end@).len()
    &&& report.summary.tasks_completed == completed_tasks(selected, tasks, start@, end@, now).len()
    &&& report.summary.tasks_worked == worked_tasks(selected, start@, end@, now).len()
    &&& report.summary.seconds_worked == reported_seconds(report.work_history@)
    &&& report.summary.seconds_worked == grid_seconds(selected, criteria.buckets@, now)
}

/// The report for `search_criteria` at `now`, from what the store holds. A
/// request without a tag or without a bucket is refused. `now` stands for
/// the end of every open interval, the same instant throughout.
pub fn get_metrics(
    search_criteria: MetricsSearchCriteria,
    tasks: &Vec<Task>,
    task_tags: &Vec<TaskTag>,
    history: &Vec<TaskWorkHistory>,
    now: UnixTimestamp,
) -> (r: Result<MetricsSummary, TrackerError>)
    requires
        ordered_grid(search_criteria.buckets@),
    ensures
        r is Ok <==> search_criteria.is_valid(),
        r is Err ==> r == Err::<MetricsSummary, TrackerError>(TrackerError::InvalidRequest),
        r is Ok ==> is_metrics_of(r->Ok_0, search_criteria, tasks@, task_tags@, history@, now@),
{
    let (start_date, end_date) = match search_criteria.span() {
        Ok(span) => span,
        Err(error) => {
            return Err(error);
        },
    };
    let ids: Vec<i64> = tag_ids(&search_criteria.tags);
    let selected: Vec<TaskWorkHistory> = select_tagged(history, task_tags, &ids);
    let work_history: Vec<MetricsBucket> = get_work_history(&selected, &search_criteria.buckets, now);
    proof {
        lemma_report_total(work_history@, selected@, search_criteria.buckets@, now@);
        lemma_grid_counts_once(selected@, search_criteria.buckets@, now@);
        lemma_bucket_seconds_bound(selected@, start_date@, end_date@, now@);
        assert(selected@.len() == selected.len());
        assert(selected@.len() * u64::MAX <= usize::MAX * u64::MAX) by (nonlinear_arith)
            requires
                selected@.len() <= usize::MAX,
        ;
    }
    let summary: StatisticalSummary = get_statistical_summary(
        &selected,
        tasks,
        start_date,
        end_date,
        &work_history,
        now,
    );
    Ok(MetricsSummary::new(start_date, end_date, search_criteria.tags, summary, work_history))
}

/// The report for `search_criteria` at the current instant of the system
/// clock, which is read once. A request without a tag or without a bucket
/// is refused before the clock is read.
pub fn get_metrics_now(
    search_criteria: MetricsSearchCriteria,
    tasks: &Vec<Task>,
    task_tags: &Vec<TaskTag>,
    history: &Vec<TaskWorkHistory>,
) -> (r: Result<MetricsSummary, TrackerError>)
    requires
        ordered_grid(search_criteria.buckets@),
    ensures
        r is Ok <==> search_criteria.is_valid(),
        r is Err ==> r == Err::<MetricsSummary, TrackerError>(TrackerError::InvalidRequest),
        r is Ok ==> exists|now: UnixTimestamp|
            now.in_clock_range() && #[trigger] is_metrics_of(
                r->Ok_0,
                search_criteria,
                tasks@,
                task_tags@,
                history@,
                now@,
            ),
{
    if search_criteria.span().is_err() {
        return Err(TrackerError::InvalidRequest);
    }
    let now: UnixTimestamp = UnixTimestamp::now();
    let r = get_metrics(search_criteria, tasks, task_tags, history, now);
    proof {
        if r is Ok {
            assert(now.in_clock_range() && is_metrics_of(
                r->Ok_0,
                search_criteria,
                tasks@,
                task_tags@,
                history@,
                now@,
            ));
        }
    }
    r
}

/// Over buckets that leave no gap, the seconds worked of a report are the
/// seconds of the selected intervals that fall within its span, from the
/// start of the first bucket to the end of the last.
pub proof fn lemma_report_covers_span(
    report: MetricsSummary,
    criteria: MetricsSearchCriteria,
    tasks: Seq<Task>,
    task_tags: Seq<TaskTag>,
    history: Seq<TaskWorkHistory>,
    now: int,
)
    requires
        criteria.buckets@.len() > 0,
        contiguous_grid(criteria.buckets@),
        is_metrics_of(report, criteria, tasks, task_tags, history, now),
    ensures
        reported_seconds(report.work_history@) == bucket_seconds(
            tagged_history(history, task_tags, ids_of(criteria.tags@)),
            report.start_date@,
            report.end_date@,
            now,
        ),
        report.summary.seconds_worked == reported_seconds(report.work_history@),
{
    lemma_grid_covers_span(tagged_history(history, task_tags, ids_of(criteria.tags@)), criteria.buckets@, now);
}

/// The seconds that fall into a span are those of one task and those of
/// all other tasks together.
pub proof fn lemma_bucket_seconds_by_task(
    history: Seq<TaskWorkHistory>,
    task_id: i64,
    start: int,
    end: int,
    now: int,
)
    ensures
        bucket_seconds(history, start, end, now) == bucket_seconds(
            select(history, Selection::OfTask(task_id)),
            start,
            end,
            now,
        ) + bucket_seconds(select(history, Selection::NotOfTask(task_id)), start, end, now),
    decreases history.len(),
{
    if history.len() > 0 {
        lemma_bucket_seconds_by_task(history.drop_last(), task_id, start, end, now);
        lemma_select_push(history.drop_last(), history.last(), Selection::OfTask(task_id));
        lemma_select_push(history.drop_last(), history.last(), Selection::NotOfTask(task_id));
        assert(history.drop_last().push(history.last()) =~= history);
        let mine = select(history.drop_last(), Selection::OfTask(task_id));
        let others = select(history.drop_last(), Selection::NotOfTask(task_id));
        assert(mine.push(history.last()).drop_last() =~= mine);
        assert(others.push(history.last()).drop_last() =~= others);
    }
}

/// Every interval of the tagged history is an interval of the history.
pub proof fn lemma_tagged_members(history: Seq<TaskWorkHistory>, task_tags: Seq<TaskTag>, tag_ids: Seq<i64>)
    ensures
        forall|i: int|
            0 <= i < tagged_history(history, task_tags, tag_ids).len() ==> history.contains(
                #[trigger] tagged_history(history, task_tags, tag_ids)[i],
            ),
    decreases history.len(),
{
    if history.len() > 0 {
        let rest = history.drop_last();
        lemma_tagged_members(rest, task_tags, tag_ids);
        let tagged = tagged_history(history, task_tags, tag_ids);
        assert forall|i: int| 0 <= i < tagged.len() implies history.contains(#[trigger] tagged[i]) by {
            if i < tagged_history(rest, task_tags, tag_ids).len() {
                let entry = tagged_history(rest, task_tags, tag_ids)[i];
                assert(rest.contains(entry));
                let k = choose|k: int| 0 <= k < rest.len() && rest[k] == entry;
                assert(history[k] == entry);
            } else {
                assert(history[history.len() - 1] == history.last());
            }
        }
    }
}

/// A task without intervals, such as a cancelled one, shows in no report:
/// none of the seconds of a bucket are its own, and it counts neither as
/// started nor as completed nor as worked, whatever tags it carries.
pub proof fn lemma_task_without_intervals(
    history: Seq<TaskWorkHistory>,
    tasks: Seq<Task>,
    task_tags: Seq<TaskTag>,
    tag_ids: Seq<i64>,
    task_id: i64,
    start: int,
    end: int,
    now: int,
)
    requires
        forall|i: int| 0 <= i < history.len() ==> (#[trigger] history[i]).task_id != task_id,
    ensures
        ({
            let selected = tagged_history(history, task_tags, tag_ids);
            &&& select(selected, Selection::OfTask(task_id)) == Seq::<TaskWorkHistory>::empty()
            &&& bucket_seconds(select(selected, Selection::OfTask(task_id)), start, end, now) == 0
            &&& bucket_seconds(selected, start, end, now) == bucket_seconds(
                select(selected, Selection::NotOfTask(task_id)),
                start,
                end,
                now,
            )
            &&& !started_tasks(selected, start, end).contains(task_id)
            &&& !completed_tasks(selected, tasks, start, end, now).contains(task_id)
            &&& !worked_tasks(selected, start, end, now).contains(task_id)
        }),
{
    let selected = tagged_history(history, task_tags, tag_ids);
    lemma_tagged_members(history, task_tags, tag_ids);
    assert forall|i: int| 0 <= i < selected.len() implies (#[trigger] selected[i]).task_id != task_id by {
        assert(history.contains(selected[i]));
    }
    let mine = select(selected, Selection::OfTask(task_id));
    lemma_select_members(selected, Selection::OfTask(task_id));
    if mine.len() > 0 {
        assert(selected.contains(mine[0]));
        assert(false);
    }
    assert(mine =~= Seq::<TaskWorkHistory>::empty());
    lemma_bucket_seconds_by_task(selected, task_id, start, end, now);
}

/// Once a task is cancelled, a report made from the ledger shows no time
/// for it: the ledger holds no interval of it, none of the seconds of a
/// bucket are its own, and it does not count as worked.
pub proof fn lemma_cancelled_task_shows_no_time(
    entries: Seq<TaskWorkHistory>,
    id: i64,
    task_id: i64,
    at: UnixTimestamp,
    tasks: Seq<Task>,
    task_tags: Seq<TaskTag>,
    tag_ids: Seq<i64>,
    start: int,
    end: int,
    now: int,
)
    ensures
        ({
            let after = after_effect(entries, id, task_id, effect_of(Command::Cancel), at);
            let selected = tagged_history(after, task_tags, tag_ids);
            &&& select(after, Selection::OfTask(task_id)) == Seq::<TaskWorkHistory>::empty()
            &&& bucket_seconds(select(selected, Selection::OfTask(task_id)), start, end, now) == 0
            &&& bucket_seconds(selected, start, end, now) == bucket_seconds(
                select(selected, Selection::NotOfTask(task_id)),
                start,
                end,
                now,
            )
            &&& !worked_tasks(selected, start, end, now).contains(task_id)
        }),
{
    let after = after_effect(entries, id, task_id, effect_of(Command::Cancel), at);
    lemma_cancel_discards(entries, id, task_id, at, now);
    lemma_task_without_intervals(after, tasks, task_tags, tag_ids, task_id, start, end, now);
}

} // verus!
