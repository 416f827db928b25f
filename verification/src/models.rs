//! Plain values that pass between the library and its callers: pages of
//! results and the description of a search.

use vstd::prelude::*;

verus! {

/// One page of the items that a search found.
#[derive(Clone, Debug)]
pub struct PagedData<T> {
    pub page: i64,
    pub page_size: i64,
    pub total_item_count: i64,
    pub data: Vec<T>,
}

impl<T> PagedData<T> {
    pub fn new(page: i64, page_size: i64, total_item_count: i64, data: Vec<T>) -> (r: Self)
        ensures
            r.page == page,
            r.page_size == page_size,
            r.total_item_count == total_item_count,
            r.data == data,
    {
        Self { page, page_size, total_item_count, data }
    }
}

#[derive(Clone, Copy, Debug, PartialEq, Eq, Structural)]
pub enum SortDirection {
    Ascending,
    Descending,
}

impl Default for SortDirection {
    fn default() -> (r: Self)
        ensures
            r == SortDirection::Ascending,
    {
        SortDirection::Ascending
    }
}

/// The field to sort by, and the direction.
#[derive(Clone, Debug)]
pub struct SortOrder {
    pub order_by: String,
    pub sort_direction: SortDirection,
}

#[derive(Clone, Copy, Debug, PartialEq, Eq, Structural)]
pub enum Operator {
    StartsWith,
    EndsWith,
    Contains,
    NotContains,
    Like,
    NotLike,
    Equals,
    NotEquals,
    In,
    NotIn,
    GreaterThan,
    GreaterThanOrEqual,
    LessThan,
    LessThanOrEqual,
}

#[derive(Clone, Debug)]
pub enum QueryConditionType {
    Single(String),
    Multiple(Vec<String>),
}

#[derive(Clone, Debug)]
pub struct QueryCondition {
    pub field: String,
    pub operator: Operator,
    pub condition: QueryConditionType,
}

#[derive(Debug)]
pub enum QueryOperation {
    Condition(QueryCondition),
    Expression(QueryExpression),
}

#[derive(Debug)]
pub struct QueryExpression {
    pub operation_type: String,
    pub operations: Vec<QueryOperation>,
}

#[derive(Debug)]
pub struct Query {
    pub operation_type: String,
    pub expressions: Vec<QueryExpression>,
    pub page: u64,
    pub page_size: u64,
    pub ordering: SortOrder,
}

/// Whether the list is there and holds something.
pub fn has_contents<T>(maybe: Option<&Vec<T>>) -> (r: bool)
    ensures
        r == (maybe is Some && maybe->0@.len() > 0),
{
    match maybe {
        Some(content) => content.len() > 0,
        None => false,
    }
}

} // verus!
