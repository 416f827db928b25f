use timely::filters::{DateFilter, FilterOption, QuickFilter, TagFilter, TaskSearchParams};
use timely::models::{SortDirection, SortOrder};
use timely::query::{
    add_in_expression, bind_ids, bind_statuses, bind_texts, can_generate, can_page, generate_search_query,
    generate_tag_search_query, tag_count_query, tag_page_query, task_count_query, task_page_query, BindValue,
    QueryPart, AND, AND_COMPLETE_BETWEEN, AND_LATE_START, AND_NEVER_WORKED, AND_NOT_DONE, AND_OVERDUE, AND_PLANNED,
    AND_START_BETWEEN, AND_STATUS, AND_TAG_VALUE, AND_TITLE_LIKE, AND_UNPLANNED, AND_UNTAGGED, COMMA, COUNT_CLOSE,
    COUNT_OPEN, HAVING_ALL_TAGS, IN_CLOSE, IN_OPEN, LIMIT, OFFSET, ORDER_COMPLETE_DESC, ORDER_DESCRIPTION_ASC,
    ORDER_START_ASC, ORDER_STATUS_DESC, ORDER_TAG_ASC, ORDER_TAG_DESC, ORDER_TITLE_ASC, ORDER_TITLE_DESC,
    OR_DESCRIPTION_LIKE, SELECT_TAGS, SELECT_TASKS, WHERE_ANY, WHERE_TAG_LIKE,
};
use timely::status::Status;
use timely::tags::TagSearchParams;
use timely::timestamp::UnixTimestamp;

fn sql(text: &'static str) -> QueryPart {
    QueryPart::Sql(text)
}

fn bind(value: BindValue) -> QueryPart {
    QueryPart::Bind(value)
}

fn order(by: &str, direction: SortDirection) -> SortOrder {
    SortOrder { order_by: String::from(by), sort_direction: direction }
}

fn params() -> TaskSearchParams {
    TaskSearchParams {
        page: 3,
        page_size: 20,
        query_string: None,
        statuses: vec![Status::Todo, Status::Doing],
        quick_filter: None,
        start_by_filter: None,
        due_by_filter: None,
        ordering: order("title", SortDirection::Ascending),
    }
}

fn head() -> Vec<QueryPart> {
    vec![
        sql(SELECT_TASKS),
        sql(WHERE_ANY),
        sql(AND_STATUS),
        sql(IN_OPEN),
        bind(BindValue::Status(Status::Todo)),
        sql(COMMA),
        bind(BindValue::Status(Status::Doing)),
        sql(IN_CLOSE),
    ]
}

#[test]
fn in_expression_lists_the_values() {
    let mut builder = vec![sql("x")];
    add_in_expression(&mut builder, bind_ids(&vec![3, 4, 5]));
    assert_eq!(
        builder,
        vec![
            sql("x"),
            sql(" IN ("),
            bind(BindValue::Id(3)),
            sql(","),
            bind(BindValue::Id(4)),
            sql(","),
            bind(BindValue::Id(5)),
            sql(") "),
        ]
    );
    let mut one = Vec::new();
    add_in_expression(&mut one, bind_texts(&vec![String::from("a")]));
    assert_eq!(one, vec![sql(IN_OPEN), bind(BindValue::Text(String::from("a"))), sql(IN_CLOSE)]);
    let mut none = vec![sql("x")];
    add_in_expression(&mut none, Vec::new());
    assert_eq!(none, vec![sql("x")]);
    assert_eq!(bind_statuses(&vec![Status::Done]), vec![BindValue::Status(Status::Done)]);
}

#[test]
fn plain_search_selects_by_status_and_orders() {
    let now = UnixTimestamp(1000);
    let mut expected = head();
    expected.push(sql(ORDER_TITLE_ASC));
    assert_eq!(generate_search_query(Vec::new(), &params(), now), expected);
    let mut p = params();
    p.ordering = order("title", SortDirection::Descending);
    assert_eq!(generate_search_query(Vec::new(), &p, now).last(), Some(&sql(ORDER_TITLE_DESC)));
    p.ordering = order("status", SortDirection::Descending);
    assert_eq!(generate_search_query(Vec::new(), &p, now).last(), Some(&sql(ORDER_STATUS_DESC)));
    p.ordering = order("description", SortDirection::Ascending);
    assert_eq!(generate_search_query(Vec::new(), &p, now).last(), Some(&sql(ORDER_DESCRIPTION_ASC)));
    p.ordering = order("scheduled_start_date", SortDirection::Ascending);
    assert_eq!(generate_search_query(Vec::new(), &p, now).last(), Some(&sql(ORDER_START_ASC)));
    p.ordering = order("scheduled_complete_date", SortDirection::Descending);
    assert_eq!(generate_search_query(Vec::new(), &p, now).last(), Some(&sql(ORDER_COMPLETE_DESC)));
    p.ordering = order("id", SortDirection::Ascending);
    assert_eq!(generate_search_query(Vec::new(), &p, now), head());
    p.statuses = vec![];
    assert_eq!(
        generate_search_query(vec![sql("before")], &p, now),
        vec![sql("before"), sql(SELECT_TASKS), sql(WHERE_ANY), sql(AND_STATUS)]
    );
}

#[test]
fn search_with_text_and_dates() {
    let mut p = params();
    p.ordering = order("", SortDirection::Ascending);
    p.query_string = Some(String::from("report"));
    p.start_by_filter = Some(DateFilter { start: Some(UnixTimestamp(10)), end: Some(UnixTimestamp(20)) });
    p.due_by_filter = Some(DateFilter { start: Some(UnixTimestamp(30)), end: None });
    let mut expected = head();
    expected.extend(vec![
        sql(AND_TITLE_LIKE),
        QueryPart::Pattern(String::from("report")),
        sql(OR_DESCRIPTION_LIKE),
        QueryPart::Pattern(String::from("report")),
        sql(") "),
        sql(AND_START_BETWEEN),
        bind(BindValue::Instant(UnixTimestamp(10))),
        sql(AND),
        bind(BindValue::Instant(UnixTimestamp(20))),
    ]);
    assert_eq!(generate_search_query(Vec::new(), &p, UnixTimestamp(0)), expected);
    p.due_by_filter = Some(DateFilter { start: Some(UnixTimestamp(30)), end: Some(UnixTimestamp(40)) });
    expected.extend(vec![
        sql(AND_COMPLETE_BETWEEN),
        bind(BindValue::Instant(UnixTimestamp(30))),
        sql(AND),
        bind(BindValue::Instant(UnixTimestamp(40))),
    ]);
    assert_eq!(generate_search_query(Vec::new(), &p, UnixTimestamp(0)), expected);
}

#[test]
fn search_with_quick_filters() {
    let now = UnixTimestamp(1000);
    let mut p = params();
    p.ordering = order("", SortDirection::Ascending);
    let tail = |p: &TaskSearchParams| generate_search_query(Vec::new(), p, now).split_off(head().len());
    p.quick_filter = Some(QuickFilter::Untagged);
    assert_eq!(tail(&p), vec![sql(AND_UNTAGGED)]);
    p.quick_filter = Some(QuickFilter::Planned);
    assert_eq!(tail(&p), vec![sql(AND_PLANNED)]);
    p.quick_filter = Some(QuickFilter::Unplanned);
    assert_eq!(tail(&p), vec![sql(AND_UNPLANNED)]);
    p.quick_filter = Some(QuickFilter::LateStart);
    assert_eq!(tail(&p), vec![sql(AND_LATE_START), bind(BindValue::Instant(now)), sql(AND_NEVER_WORKED)]);
    p.quick_filter = Some(QuickFilter::Overdue);
    assert_eq!(tail(&p), vec![sql(AND_OVERDUE), bind(BindValue::Instant(now)), sql(AND_NOT_DONE)]);
    let tags = vec![String::from("a"), String::from("b")];
    p.quick_filter = Some(QuickFilter::Tagged(TagFilter { tags: tags.clone(), tag_filter: FilterOption::Any }));
    let any = vec![
        sql(AND_TAG_VALUE),
        sql(IN_OPEN),
        bind(BindValue::Text(String::from("a"))),
        sql(COMMA),
        bind(BindValue::Text(String::from("b"))),
        sql(IN_CLOSE),
    ];
    assert_eq!(tail(&p), any);
    p.quick_filter = Some(QuickFilter::Tagged(TagFilter { tags, tag_filter: FilterOption::All }));
    let mut all = any.clone();
    all.push(sql(HAVING_ALL_TAGS));
    all.push(bind(BindValue::Count(2)));
    assert_eq!(tail(&p), all);
    assert!(can_generate(&p));
}

#[test]
fn count_and_page_wrap_the_search() {
    let now = UnixTimestamp(1000);
    let found = generate_search_query(Vec::new(), &params(), now);
    let mut count = vec![sql(COUNT_OPEN)];
    count.extend(found.clone());
    count.push(sql(COUNT_CLOSE));
    assert_eq!(task_count_query(&params(), now), count);
    assert!(can_page(3, 20));
    let mut page = found;
    page.extend(vec![sql(LIMIT), QueryPart::Number(20), sql(OFFSET), QueryPart::Number(40)]);
    assert_eq!(task_page_query(&params(), now), page);
    assert!(can_page(1, i64::MAX));
    assert!(can_page(2, i64::MAX));
    assert!(!can_page(3, i64::MAX));
    assert!(!can_page(i64::MIN, 0));
    assert!(can_page(i64::MIN + 1, 1));
    assert!(!can_page(i64::MIN + 1, 2));
}

#[test]
fn tag_search_binds_the_pattern() {
    let mut p = TagSearchParams {
        page: 1,
        page_size: 10,
        query_string: Some(String::from("wo")),
        ordering: order("value", SortDirection::Descending),
    };
    let found = vec![sql(SELECT_TAGS), sql(WHERE_TAG_LIKE), bind(BindValue::Pattern(String::from("wo"))), sql(ORDER_TAG_DESC)];
    assert_eq!(generate_tag_search_query(Vec::new(), &p), found);
    let mut count = vec![sql(COUNT_OPEN)];
    count.extend(found.clone());
    count.push(sql(COUNT_CLOSE));
    assert_eq!(tag_count_query(&p), count);
    let mut page = found;
    page.extend(vec![sql(LIMIT), QueryPart::Number(10), sql(OFFSET), QueryPart::Number(0)]);
    assert_eq!(tag_page_query(&p), page);
    p.query_string = None;
    p.ordering = order("value", SortDirection::Ascending);
    assert_eq!(generate_tag_search_query(vec![sql("x")], &p), vec![sql("x"), sql(SELECT_TAGS), sql(ORDER_TAG_ASC)]);
    p.ordering = order("id", SortDirection::Ascending);
    assert_eq!(generate_tag_search_query(Vec::new(), &p), vec![sql(SELECT_TAGS)]);
}
