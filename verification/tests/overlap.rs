use timely::history::TaskWorkHistory;
use timely::overlap::{collect_work_history, is_ordered_grid, overlap_seconds, MetricsBucket};
use timely::timestamp::{span_seconds, OptionalUnixTimestamp, UnixTimestamp};

fn at(hour: i64, minute: i64) -> UnixTimestamp {
    UnixTimestamp(hour * 3600 + minute * 60)
}

fn seconds(is: i64, ie: i64, bs: i64, be: i64) -> u64 {
    overlap_seconds(UnixTimestamp(is), UnixTimestamp(ie), UnixTimestamp(bs), UnixTimestamp(be))
}

#[test]
fn interval_on_the_boundary_goes_to_the_second_bucket() {
    let first = overlap_seconds(at(10, 0), at(11, 0), at(9, 0), at(10, 0));
    let second = overlap_seconds(at(10, 0), at(11, 0), at(10, 0), at(11, 0));
    assert_eq!(first, 0);
    assert_eq!(second, 3600);
}

#[test]
fn starts_inside_and_outlasts_the_bucket() {
    assert_eq!(seconds(50, 200, 0, 100), 50);
}

#[test]
fn starts_and_ends_inside_the_bucket() {
    assert_eq!(seconds(20, 70, 0, 100), 50);
    assert_eq!(seconds(0, 100, 0, 100), 100);
}

#[test]
fn covers_the_whole_bucket() {
    assert_eq!(seconds(-10, 200, 0, 100), 100);
}

#[test]
fn starts_before_and_ends_inside_the_bucket() {
    assert_eq!(seconds(-10, 40, 0, 100), 40);
    assert_eq!(seconds(-10, 0, 0, 100), 0);
    assert_eq!(seconds(0, 40, 0, 100), 40);
}

#[test]
fn interval_outside_the_bucket_shares_nothing() {
    assert_eq!(seconds(101, 200, 0, 100), 0);
    assert_eq!(seconds(-50, -1, 0, 100), 0);
    assert_eq!(seconds(100, 200, 0, 100), 0);
}

#[test]
fn interval_that_ends_before_it_starts_shares_nothing() {
    assert_eq!(seconds(70, 20, 0, 100), 0);
    assert_eq!(seconds(150, 20, 0, 100), 0);
}

#[test]
fn bucket_that_ends_before_it_starts_holds_nothing() {
    assert_eq!(seconds(0, 100, 80, 20), 0);
    assert_eq!(seconds(30, 50, 80, 20), 0);
}

#[test]
fn overlap_of_the_widest_spans_fits() {
    assert_eq!(seconds(i64::MIN, i64::MAX, i64::MIN, i64::MAX), u64::MAX);
    assert_eq!(seconds(i64::MIN, 0, i64::MIN, i64::MAX), 1u64 << 63);
    assert_eq!(seconds(-1, i64::MAX, i64::MIN, i64::MAX), 1u64 << 63);
}

#[test]
fn span_is_clamped_at_zero() {
    assert_eq!(span_seconds(10, 10), 0);
    assert_eq!(span_seconds(10, 9), 0);
    assert_eq!(span_seconds(10, 25), 15);
    assert_eq!(span_seconds(-25, -10), 15);
    assert_eq!(span_seconds(-10, 25), 35);
    assert_eq!(span_seconds(i64::MIN, i64::MAX), u64::MAX);
    assert_eq!(span_seconds(i64::MAX, i64::MIN), 0);
}

#[test]
fn one_entry_for_every_bucket() {
    let buckets = vec![
        MetricsBucket::new(UnixTimestamp(0), UnixTimestamp(100)),
        MetricsBucket::new(UnixTimestamp(100), UnixTimestamp(200)),
        MetricsBucket::new(UnixTimestamp(200), UnixTimestamp(300)),
    ];
    let values = collect_work_history(7, UnixTimestamp(50), UnixTimestamp(120), &buckets);
    assert_eq!(
        values,
        vec![
            (7, UnixTimestamp(0), UnixTimestamp(100), 50),
            (7, UnixTimestamp(100), UnixTimestamp(200), 20),
            (7, UnixTimestamp(200), UnixTimestamp(300), 0),
        ]
    );
    assert_eq!(collect_work_history(7, UnixTimestamp(50), UnixTimestamp(120), &Vec::new()), vec![]);
}

#[test]
fn grid_order_is_checked() {
    let bucket = |s: i64, e: i64| MetricsBucket::new(UnixTimestamp(s), UnixTimestamp(e));
    assert!(is_ordered_grid(&vec![]));
    assert!(is_ordered_grid(&vec![bucket(0, 10)]));
    assert!(is_ordered_grid(&vec![bucket(0, 10), bucket(10, 20), bucket(25, 30)]));
    assert!(!is_ordered_grid(&vec![bucket(0, 10), bucket(9, 20)]));
    assert!(!is_ordered_grid(&vec![bucket(10, 0)]));
    assert!(!is_ordered_grid(&vec![bucket(10, 20), bucket(0, 5)]));
}

#[test]
fn share_of_an_open_interval_runs_up_to_now() {
    let entry = TaskWorkHistory {
        id: 1,
        task_id: 1,
        start_date: UnixTimestamp(50),
        end_date: OptionalUnixTimestamp::none(),
    };
    let now = UnixTimestamp(80);
    let r = overlap_seconds(entry.start_date, entry.end_date.unwrap_or(now), UnixTimestamp(0), UnixTimestamp(100));
    assert_eq!(r, 30);
    assert_eq!(entry.elapsed(now), 30);
    assert_eq!(entry.elapsed(UnixTimestamp(40)), 0);
}
