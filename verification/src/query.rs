//! The queries that search the store, written down as the steps in which
//! they are put together: pieces of text, and values to bind in between.

use vstd::prelude::*;
use crate::filters::{DateFilter, FilterOption, QuickFilter, TaskSearchParams};
use crate::models::{SortDirection, SortOrder};
use crate::status::Status;
use crate::tags::TagSearchParams;
use crate::timestamp::UnixTimestamp;

verus! {

/// A value to bind to a query.
#[derive(Clone, Debug, PartialEq)]
pub enum BindValue {
    Status(Status),
    Instant(UnixTimestamp),
    Count(i32),
    Id(i64),
    Text(String),
    /// The text between `'%` and `%'`.
    Pattern(String),
}

/// One step in putting a query together.
#[derive(Clone, Debug, PartialEq)]
pub enum QueryPart {
    /// Text of the query.
    Sql(&'static str),
    /// The given text between `'%` and `%'`, as text of the query.
    Pattern(String),
    /// A number in decimal, as text of the query.
    Number(i64),
    /// A value bound at this place.
    Bind(BindValue),
}

pub const IN_OPEN: &'static str = " IN (";

pub const IN_CLOSE: &'static str = ") ";

pub const COMMA: &'static str = ",";

pub const AND: &'static str = " AND ";

pub const SELECT_TASKS: &'static str = "
        SELECT DISTINCT tasks.* 
        FROM tasks
        LEFT JOIN task_tags on tasks.id = task_tags.task_id
        LEFT JOIN tags on tags.id = task_tags.tag_id
    ";

pub const WHERE_ANY: &'static str = " WHERE 1=1 ";

pub const AND_STATUS: &'static str = " AND tasks.status ";

pub const AND_TITLE_LIKE: &'static str = " AND (tasks.title LIKE ";

pub const OR_DESCRIPTION_LIKE: &'static str = " OR tasks.description LIKE ";

pub const AND_START_BETWEEN: &'static str = " AND tasks.scheduled_start_date BETWEEN ";

pub const AND_COMPLETE_BETWEEN: &'static str = " AND tasks.scheduled_complete_date BETWEEN ";

pub const AND_UNTAGGED: &'static str = " AND task_tags.task_id IS NULL ";

pub const AND_TAG_VALUE: &'static str = " AND tags.value ";

pub const HAVING_ALL_TAGS: &'static str = " GROUP BY tasks.id HAVING COUNT(DISTINCT tags.value) = ";

pub const AND_PLANNED: &'static str = " 
                    AND tasks.estimated_duration IS NOT NULL 
                    AND tasks.scheduled_start_date IS NOT NULL 
                    AND tasks.scheduled_complete_date IS NOT NULL 
                ";

pub const AND_UNPLANNED: &'static str = "
                    AND (
                        tasks.estimated_duration IS NULL
                        OR tasks.scheduled_start_date IS NULL
                        OR tasks.scheduled_complete_date IS NULL) 
                ";

pub const AND_LATE_START: &'static str = " 
                    AND tasks.scheduled_start_date IS NOT NULL
                    AND tasks.last_resumed_date IS NULL
                    AND (tasks.scheduled_start_date < 
                ";

pub const AND_NEVER_WORKED: &'static str = " AND tasks.id NOT IN (
                    SELECT DISTINCT t.id
                    FROM tasks t
                    INNER JOIN task_work_history twh ON t.id = twh.task_id))
                ";

pub const AND_OVERDUE: &'static str = "
                    AND tasks.scheduled_complete_date IS NOT NULL
                    AND (tasks.scheduled_complete_date < 
                ";

pub const AND_NOT_DONE: &'static str = " AND tasks.status <> 'Done') ";

pub const SELECT_TAGS: &'static str = "SELECT * FROM tags";

pub const ORDER_TITLE_ASC: &'static str = " ORDER BY LOWER(tasks.title) ASC";

pub const ORDER_STATUS_ASC: &'static str = " ORDER BY LOWER(tasks.status) ASC";

pub const ORDER_DESCRIPTION_ASC: &'static str = " ORDER BY LOWER(tasks.description) ASC";

pub const ORDER_START_ASC: &'static str =
    " ORDER BY tasks.scheduled_start_date IS NULL ASC, tasks.scheduled_start_date ASC";

pub const ORDER_COMPLETE_ASC: &'static str =
    " ORDER BY tasks.scheduled_complete_date IS NULL ASC, tasks.scheduled_complete_date ASC";

pub const ORDER_TITLE_DESC: &'static str = " ORDER BY LOWER(tasks.title) DESC";

pub const ORDER_STATUS_DESC: &'static str = " ORDER BY LOWER(tasks.status) DESC";

pub const ORDER_DESCRIPTION_DESC: &'static str = " ORDER BY LOWER(tasks.description) DESC";

pub const ORDER_START_DESC: &'static str =
    " ORDER BY tasks.scheduled_start_date IS NULL DESC, tasks.scheduled_start_date DESC";

pub const ORDER_COMPLETE_DESC: &'static str =
    " ORDER BY tasks.scheduled_complete_date IS NULL DESC, tasks.scheduled_complete_date DESC";

pub const ORDER_TAG_ASC: &'static str = " ORDER BY LOWER(tags.value) ASC";

pub const ORDER_TAG_DESC: &'static str = " ORDER BY LOWER(tags.value) DESC";

pub const COUNT_OPEN: &'static str = "SELECT COUNT(DISTINCT id) FROM (";

pub const COUNT_CLOSE: &'static str = ")";

pub const LIMIT: &'static str = " LIMIT ";

pub const OFFSET: &'static str = " OFFSET ";

pub const WHERE_TAG_LIKE: &'static str = " WHERE tags.value LIKE ";

/// The values, each bound, with a comma between one and the next.
pub open spec fn binds_with_commas(elements: Seq<BindValue>) -> Seq<QueryPart>
    decreases elements.len(),
{
    if elements.len() == 0 {
        Seq::empty()
    } else if elements.len() == 1 {
        seq![QueryPart::Bind(elements[0])]
    } else {
        binds_with_commas(elements.drop_last()).push(QueryPart::Sql(COMMA)).push(QueryPart::Bind(elements.last()))
    }
}

/// The test that a column holds one of the values: nothing for no value,
/// else the values in round brackets after `IN`.
pub open spec fn in_expression(elements: Seq<BindValue>) -> Seq<QueryPart> {
    if elements.len() == 0 {
        Seq::empty()
    } else {
        seq![QueryPart::Sql(IN_OPEN)] + binds_with_commas(elements) + seq![QueryPart::Sql(IN_CLOSE)]
    }
}

/// Appends the test that a column holds one of the values.
pub fn add_in_expression(builder: &mut Vec<QueryPart>, elements: Vec<BindValue>)
    ensures
        final(builder)@ == old(builder)@ + in_expression(elements@),
{
    let n: usize = elements.len();
    if n == 0 {
        proof {
            assert(builder@ + in_expression(elements@) =~= builder@);
        }
        return ;
    }
    let ghost before = builder@;
    let ghost all = elements@;
    builder.push(QueryPart::Sql(IN_OPEN));
    let mut elements = elements;
    let mut rest: Vec<BindValue> = Vec::new();
    // take the values from the back, so that each can be moved into its place
    while elements.len() > 0
        invariant
            rest@.len() + elements@.len() == all.len(),
            forall|k: int| 0 <= k < elements@.len() ==> elements@[k] == all[k],
            forall|k: int| 0 <= k < rest@.len() ==> rest@[k] == all[all.len() - 1 - k],
        decreases elements@.len(),
    {
        let value = elements.pop().unwrap();
        rest.push(value);
    }
    let mut i: usize = 0;
    while rest.len() > 0
        invariant
            i + rest@.len() == all.len(),
            all.len() == n,
            forall|k: int| 0 <= k < rest@.len() ==> rest@[k] == all[all.len() - 1 - k],
            builder@ == before.push(QueryPart::Sql(IN_OPEN)) + binds_with_commas(all.take(i as int)),
        decreases rest@.len(),
    {
        let value = rest.pop().unwrap();
        proof {
            assert(value == all[i as int]);
            assert(all.take(i + 1).drop_last() =~= all.take(i as int));
            assert(all.take(i + 1).last() == value);
        }
        if i > 0 {
            builder.push(QueryPart::Sql(COMMA));
        }
        builder.push(QueryPart::Bind(value));
        proof {
            let sofar = before.push(QueryPart::Sql(IN_OPEN));
            if i > 0 {
                assert(builder@ =~= sofar + binds_with_commas(all.take(i as int)).push(QueryPart::Sql(COMMA)).push(
                    QueryPart::Bind(value),
                ));
            } else {
                assert(binds_with_commas(all.take(0)) =~= Seq::<QueryPart>::empty());
                assert(all.take(1)[0] == value);
                assert(builder@ =~= sofar + seq![QueryPart::Bind(value)]);
            }
        }
        i += 1;
    }
    builder.push(QueryPart::Sql(IN_CLOSE));
    proof {
        assert(all.take(n as int) =~= all);
        assert(builder@ =~= before + in_expression(all));
    }
}

/// The statuses as values to bind, in their order.
pub open spec fn status_values(statuses: Seq<Status>) -> Seq<BindValue> {
    Seq::new(statuses.len(), |k: int| BindValue::Status(statuses[k]))
}

/// The texts as values to bind, in their order.
pub open spec fn text_values(texts: Seq<String>) -> Seq<BindValue> {
    Seq::new(texts.len(), |k: int| BindValue::Text(texts[k]))
}

/// The ids as values to bind, in their order.
pub open spec fn id_values(ids: Seq<i64>) -> Seq<BindValue> {
    Seq::new(ids.len(), |k: int| BindValue::Id(ids[k]))
}

/// The statuses as values to bind, in their order.
pub fn bind_statuses(statuses: &Vec<Status>) -> (r: Vec<BindValue>)
    ensures
        r@ == status_values(statuses@),
{
    let n: usize = statuses.len();
    let mut out: Vec<BindValue> = Vec::new();
    let mut k: usize = 0;
    while k < n
        invariant
            k <= n,
            n == statuses.len(),
            out@.len() == k,
            forall|j: int| 0 <= j < k ==> out@[j] == BindValue::Status(statuses@[j]),
        decreases n - k,
    {
        out.push(BindValue::Status(statuses[k]));
        k += 1;
    }
    proof {
        assert(out@ =~= status_values(statuses@));
    }
    out
}

/// The texts as values to bind, in their order.
pub fn bind_texts(texts: &Vec<String>) -> (r: Vec<BindValue>)
    ensures
        r@ == text_values(texts@),
{
    let n: usize = texts.len();
    let mut out: Vec<BindValue> = Vec::new();
    let mut k: usize = 0;
    while k < n
        invariant
            k <= n,
            n == texts.len(),
            out@.len() == k,
            forall|j: int| 0 <= j < k ==> out@[j] == BindValue::Text(texts@[j]),
        decreases n - k,
    {
        out.push(BindValue::Text(texts[k].clone()));
        k += 1;
    }
    proof {
        assert(out@ =~= text_values(texts@));
    }
    out
}

/// The ids as values to bind, in their order.
pub fn bind_ids(ids: &Vec<i64>) -> (r: Vec<BindValue>)
    ensures
        r@ == id_values(ids@),
{
    let n: usize = ids.len();
    let mut out: Vec<BindValue> = Vec::new();
    let mut k: usize = 0;
    while k < n
        invariant
            k <= n,
            n == ids.len(),
            out@.len() == k,
            forall|j: int| 0 <= j < k ==> out@[j] == BindValue::Id(ids@[j]),
        decreases n - k,
    {
        out.push(BindValue::Id(ids[k]));
        k += 1;
    }
    proof {
        assert(out@ =~= id_values(ids@));
    }
    out
}

/// The test that title or description holds the text searched for, if
/// one is.
pub open spec fn like_clause(query_string: Option<String>) -> Seq<QueryPart> {
    match query_string {
        Some(query) => seq![
            QueryPart::Sql(AND_TITLE_LIKE),
            QueryPart::Pattern(query),
            QueryPart::Sql(OR_DESCRIPTION_LIKE),
            QueryPart::Pattern(query),
            QueryPart::Sql(IN_CLOSE),
        ],
        None => Seq::empty(),
    }
}

/// The test that a column lies between the two bounds of a filter, if
/// there is a filter and it has both.
pub open spec fn date_clause(column: &'static str, filter: Option<DateFilter>) -> Seq<QueryPart> {
    if filter is Some && filter->0.is_bounded() {
        seq![
            QueryPart::Sql(column),
            QueryPart::Bind(BindValue::Instant(filter->0.start->0)),
            QueryPart::Sql(AND),
            QueryPart::Bind(BindValue::Instant(filter->0.end->0)),
        ]
    } else {
        Seq::empty()
    }
}

/// The test of a quick filter. Late and overdue are judged at `now`.
pub open spec fn quick_clause(quick_filter: Option<QuickFilter>, now: UnixTimestamp) -> Seq<QueryPart> {
    match quick_filter {
        None => Seq::empty(),
        Some(QuickFilter::Untagged) => seq![QueryPart::Sql(AND_UNTAGGED)],
        Some(QuickFilter::Tagged(tag_filter)) => seq![QueryPart::Sql(AND_TAG_VALUE)] + in_expression(
            text_values(tag_filter.tags@),
        ) + if tag_filter.tag_filter == FilterOption::All {
            seq![
                QueryPart::Sql(HAVING_ALL_TAGS),
                QueryPart::Bind(BindValue::Count(tag_filter.tags@.len() as i32)),
            ]
        } else {
            Seq::empty()
        },
        Some(QuickFilter::Planned) => seq![QueryPart::Sql(AND_PLANNED)],
        Some(QuickFilter::Unplanned) => seq![QueryPart::Sql(AND_UNPLANNED)],
        Some(QuickFilter::LateStart) => seq![
            QueryPart::Sql(AND_LATE_START),
            QueryPart::Bind(BindValue::Instant(now)),
            QueryPart::Sql(AND_NEVER_WORKED),
        ],
        Some(QuickFilter::Overdue) => seq![
            QueryPart::Sql(AND_OVERDUE),
            QueryPart::Bind(BindValue::Instant(now)),
            QueryPart::Sql(AND_NOT_DONE),
        ],
    }
}

/// The order of the tasks: by one of the five fields that can be sorted
/// by, in the direction given; no order for any other field.
pub open spec fn task_order_clause(ordering: SortOrder) -> Seq<QueryPart> {
    let ascending = ordering.sort_direction == SortDirection::Ascending;
    if ordering.order_by@ == "title"@ {
        seq![QueryPart::Sql(if ascending { ORDER_TITLE_ASC } else { ORDER_TITLE_DESC })]
    } else if ordering.order_by@ == "status"@ {
        seq![QueryPart::Sql(if ascending { ORDER_STATUS_ASC } else { ORDER_STATUS_DESC })]
    } else if ordering.order_by@ == "description"@ {
        seq![QueryPart::Sql(if ascending { ORDER_DESCRIPTION_ASC } else { ORDER_DESCRIPTION_DESC })]
    } else if ordering.order_by@ == "scheduled_start_date"@ {
        seq![QueryPart::Sql(if ascending { ORDER_START_ASC } else { ORDER_START_DESC })]
    } else if ordering.order_by@ == "scheduled_complete_date"@ {
        seq![QueryPart::Sql(if ascending { ORDER_COMPLETE_ASC } else { ORDER_COMPLETE_DESC })]
    } else {
        Seq::empty()
    }
}

/// The query that finds the tasks that `params` describes, late and
/// overdue judged at `now`.
pub open spec fn task_search_query(params: TaskSearchParams, now: UnixTimestamp) -> Seq<QueryPart> {
    seq![QueryPart::Sql(SELECT_TASKS), QueryPart::Sql(WHERE_ANY), QueryPart::Sql(AND_STATUS)] + in_expression(
        status_values(params.statuses@),
    ) + like_clause(params.query_string) + date_clause(AND_START_BETWEEN, params.start_by_filter) + date_clause(
        AND_COMPLETE_BETWEEN,
        params.due_by_filter,
    ) + quick_clause(params.quick_filter, now) + task_order_clause(params.ordering)
}

/// The number of tags to look for can be bound to the query.
pub open spec fn query_ready(params: TaskSearchParams) -> bool {
    match params.quick_filter {
        Some(QuickFilter::Tagged(tag_filter)) => tag_filter.tag_filter == FilterOption::All
            ==> tag_filter.tags@.len() <= i32::MAX,
        _ => true,
    }
}

fn add_like(builder: &mut Vec<QueryPart>, query_string: &Option<String>)
    ensures
        final(builder)@ == old(builder)@ + like_clause(*query_string),
{
    match query_string {
        Some(query) => {
            builder.push(QueryPart::Sql(AND_TITLE_LIKE));
            builder.push(QueryPart::Pattern(query.clone()));
            builder.push(QueryPart::Sql(OR_DESCRIPTION_LIKE));
            builder.push(QueryPart::Pattern(query.clone()));
            builder.push(QueryPart::Sql(IN_CLOSE));
        },
        None => {},
    }
    proof {
        assert(builder@ =~= old(builder)@ + like_clause(*query_string));
    }
}

fn add_date(builder: &mut Vec<QueryPart>, column: &'static str, filter: &Option<DateFilter>)
    ensures
        final(builder)@ == old(builder)@ + date_clause(column, *filter),
{
    match filter {
        Some(DateFilter { start: Some(start), end: Some(end) }) => {
            builder.push(QueryPart::Sql(column));
            builder.push(QueryPart::Bind(BindValue::Instant(*start)));
            builder.push(QueryPart::Sql(AND));
            builder.push(QueryPart::Bind(BindValue::Instant(*end)));
        },
        _ => {},
    }
    proof {
        assert(builder@ =~= old(builder)@ + date_clause(column, *filter));
    }
}

fn add_quick(builder: &mut Vec<QueryPart>, quick_filter: &Option<QuickFilter>, now: UnixTimestamp)
    requires
        match *quick_filter {
            Some(QuickFilter::Tagged(tag_filter)) => tag_filter.tag_filter == FilterOption::All
                ==> tag_filter.tags@.len() <= i32::MAX,
            _ => true,
        },
    ensures
        final(builder)@ == old(builder)@ + quick_clause(*quick_filter, now),
{
    match quick_filter {
        None => {},
        Some(QuickFilter::Untagged) => {
            builder.push(QueryPart::Sql(AND_UNTAGGED));
        },
        Some(QuickFilter::Tagged(tag_filter)) => {
            builder.push(QueryPart::Sql(AND_TAG_VALUE));
            add_in_expression(builder, bind_texts(&tag_filter.tags));
            match tag_filter.tag_filter {
                FilterOption::All => {
                    let tag_count: i32 = tag_filter.tags.len() as i32;
                    builder.push(QueryPart::Sql(HAVING_ALL_TAGS));
                    builder.push(QueryPart::Bind(BindValue::Count(tag_count)));
                },
                FilterOption::Any => {},
            }
        },
        Some(QuickFilter::Planned) => {
            builder.push(QueryPart::Sql(AND_PLANNED));
        },
        Some(QuickFilter::Unplanned) => {
            builder.push(QueryPart::Sql(AND_UNPLANNED));
        },
        Some(QuickFilter::LateStart) => {
            builder.push(QueryPart::Sql(AND_LATE_START));
            builder.push(QueryPart::Bind(BindValue::Instant(now)));
            builder.push(QueryPart::Sql(AND_NEVER_WORKED));
        },
        Some(QuickFilter::Overdue) => {
            builder.push(QueryPart::Sql(AND_OVERDUE));
            builder.push(QueryPart::Bind(BindValue::Instant(now)));
            builder.push(QueryPart::Sql(AND_NOT_DONE));
        },
    }
    proof {
        assert(builder@ =~= old(builder)@ + quick_clause(*quick_filter, now));
    }
}

fn is_text(value: &String, text: &'static str) -> (r: bool)
    ensures
        r == (value@ == text@),
{
    *value == text.to_owned()
}

fn add_task_order(builder: &mut Vec<QueryPart>, ordering: &SortOrder)
    ensures
        final(builder)@ == old(builder)@ + task_order_clause(*ordering),
{
    let ascending: bool = match ordering.sort_direction {
        SortDirection::Ascending => true,
        SortDirection::Descending => false,
    };
    if is_text(&ordering.order_by, "title") {
        builder.push(QueryPart::Sql(if ascending { ORDER_TITLE_ASC } else { ORDER_TITLE_DESC }));
    } else if is_text(&ordering.order_by, "status") {
        builder.push(QueryPart::Sql(if ascending { ORDER_STATUS_ASC } else { ORDER_STATUS_DESC }));
    } else if is_text(&ordering.order_by, "description") {
        builder.push(QueryPart::Sql(if ascending { ORDER_DESCRIPTION_ASC } else { ORDER_DESCRIPTION_DESC }));
    } else if is_text(&ordering.order_by, "scheduled_start_date") {
        builder.push(QueryPart::Sql(if ascending { ORDER_START_ASC } else { ORDER_START_DESC }));
    } else if is_text(&ordering.order_by, "scheduled_complete_date") {
        builder.push(QueryPart::Sql(if ascending { ORDER_COMPLETE_ASC } else { ORDER_COMPLETE_DESC }));
    }
    proof {
        assert(builder@ =~= old(builder)@ + task_order_clause(*ordering));
    }
}

/// Appends the query that finds the tasks that `params` describes, late
/// and overdue judged at `now`.
pub fn generate_search_query(builder: Vec<QueryPart>, params: &TaskSearchParams, now: UnixTimestamp) -> (r: Vec<
    QueryPart,
>)
    requires
        query_ready(*params),
    ensures
        r@ == builder@ + task_search_query(*params, now),
{
    let mut out: Vec<QueryPart> = builder;
    out.push(QueryPart::Sql(SELECT_TASKS));
    out.push(QueryPart::Sql(WHERE_ANY));
    out.push(QueryPart::Sql(AND_STATUS));
    add_in_expression(&mut out, bind_statuses(&params.statuses));
    add_like(&mut out, &params.query_string);
    add_date(&mut out, AND_START_BETWEEN, &params.start_by_filter);
    add_date(&mut out, AND_COMPLETE_BETWEEN, &params.due_by_filter);
    add_quick(&mut out, &params.quick_filter, now);
    add_task_order(&mut out, &params.ordering);
    proof {
        assert(out@ =~= builder@ + task_search_query(*params, now));
    }
    out
}

/// Whether the number of tags to look for can be bound to the query.
pub fn can_generate(params: &TaskSearchParams) -> (r: bool)
    ensures
        r == query_ready(*params),
{
    match &params.quick_filter {
        Some(QuickFilter::Tagged(tag_filter)) => match tag_filter.tag_filter {
            FilterOption::All => tag_filter.tags.len() <= 2147483647,
            FilterOption::Any => true,
        },
        _ => true,
    }
}

/// The query that finds the tags that `params` describes.
pub open spec fn tag_search_query(params: TagSearchParams) -> Seq<QueryPart> {
    seq![QueryPart::Sql(SELECT_TAGS)] + match params.query_string {
        Some(query) => seq![QueryPart::Sql(WHERE_TAG_LIKE), QueryPart::Bind(BindValue::Pattern(query))],
        None => Seq::empty(),
    } + if params.ordering.order_by@ == "value"@ {
        seq![
            QueryPart::Sql(
                if params.ordering.sort_direction == SortDirection::Ascending {
                    ORDER_TAG_ASC
                } else {
                    ORDER_TAG_DESC
                },
            ),
        ]
    } else {
        Seq::empty()
    }
}

/// Appends the query that finds the tags that `params` describes.
pub fn generate_tag_search_query(builder: Vec<QueryPart>, params: &TagSearchParams) -> (r: Vec<QueryPart>)
    ensures
        r@ == builder@ + tag_search_query(*params),
{
    let mut out: Vec<QueryPart> = builder;
    out.push(QueryPart::Sql(SELECT_TAGS));
    match &params.query_string {
        Some(query) => {
            out.push(QueryPart::Sql(WHERE_TAG_LIKE));
            out.push(QueryPart::Bind(BindValue::Pattern(query.clone())));
        },
        None => {},
    }
    if is_text(&params.ordering.order_by, "value") {
        match params.ordering.sort_direction {
            SortDirection::Ascending => {
                out.push(QueryPart::Sql(ORDER_TAG_ASC));
            },
            SortDirection::Descending => {
                out.push(QueryPart::Sql(ORDER_TAG_DESC));
            },
        }
    }
    proof {
        assert(out@ =~= builder@ + tag_search_query(*params));
    }
    out
}

/// The query that counts what `query` finds.
pub open spec fn counting(query: Seq<QueryPart>) -> Seq<QueryPart> {
    seq![QueryPart::Sql(COUNT_OPEN)] + query + seq![QueryPart::Sql(COUNT_CLOSE)]
}

/// The end of a query that finds one page: as many rows as a page
/// holds, after the rows of the pages before it.
pub open spec fn page_clause(page: i64, page_size: i64) -> Seq<QueryPart> {
    seq![
        QueryPart::Sql(LIMIT),
        QueryPart::Number(page_size),
        QueryPart::Sql(OFFSET),
        QueryPart::Number(((page - 1) * page_size) as i64),
    ]
}

/// The number of rows before a page can be held, and so can the number
/// of the page before it.
pub open spec fn page_fits(page: i64, page_size: i64) -> bool {
    &&& i64::MIN <= page - 1
    &&& i64::MIN <= (page - 1) * page_size <= i64::MAX
}

/// Whether the number of rows before a page can be held.
pub fn can_page(page: i64, page_size: i64) -> (r: bool)
    ensures
        r == page_fits(page, page_size),
{
    match page.checked_sub(1) {
        Some(before) => before.checked_mul(page_size).is_some(),
        None => false,
    }
}

/// The query that counts the tasks that `params` describes.
pub fn task_count_query(params: &TaskSearchParams, now: UnixTimestamp) -> (r: Vec<QueryPart>)
    requires
        query_ready(*params),
    ensures
        r@ == counting(task_search_query(*params, now)),
{
    let mut start: Vec<QueryPart> = Vec::new();
    start.push(QueryPart::Sql(COUNT_OPEN));
    let mut out: Vec<QueryPart> = generate_search_query(start, params, now);
    out.push(QueryPart::Sql(COUNT_CLOSE));
    proof {
        assert(out@ =~= counting(task_search_query(*params, now)));
    }
    out
}

/// The query that finds one page of the tasks that `params` describes.
pub fn task_page_query(params: &TaskSearchParams, now: UnixTimestamp) -> (r: Vec<QueryPart>)
    requires
        query_ready(*params),
        page_fits(params.page, params.page_size),
    ensures
        r@ == task_search_query(*params, now) + page_clause(params.page, params.page_size),
{
    let mut out: Vec<QueryPart> = generate_search_query(Vec::new(), params, now);
    out.push(QueryPart::Sql(LIMIT));
    out.push(QueryPart::Number(params.page_size));
    out.push(QueryPart::Sql(OFFSET));
    out.push(QueryPart::Number((params.page - 1) * params.page_size));
    proof {
        assert(out@ =~= task_search_query(*params, now) + page_clause(params.page, params.page_size));
    }
    out
}

/// The query that counts the tags that `params` describes.
pub fn tag_count_query(params: &TagSearchParams) -> (r: Vec<QueryPart>)
    ensures
        r@ == counting(tag_search_query(*params)),
{
    let mut start: Vec<QueryPart> = Vec::new();
    start.push(QueryPart::Sql(COUNT_OPEN));
    let mut out: Vec<QueryPart> = generate_tag_search_query(start, params);
    out.push(QueryPart::Sql(COUNT_CLOSE));
    proof {
        assert(out@ =~= counting(tag_search_query(*params)));
    }
    out
}

/// The query that finds one page of the tags that `params` describes.
pub fn tag_page_query(params: &TagSearchParams) -> (r: Vec<QueryPart>)
    requires
        page_fits(params.page, params.page_size),
    ensures
        r@ == tag_search_query(*params) + page_clause(params.page, params.page_size),
{
    let mut out: Vec<QueryPart> = generate_tag_search_query(Vec::new(), params);
    out.push(QueryPart::Sql(LIMIT));
    out.push(QueryPart::Number(params.page_size));
    out.push(QueryPart::Sql(OFFSET));
    out.push(QueryPart::Number((params.page - 1) * params.page_size));
    proof {
        assert(out@ =~= tag_search_query(*params) + page_clause(params.page, params.page_size));
    }
    out
}

} // verus!
