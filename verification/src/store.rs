//! Store-side query vocabulary: sort directions, aggregation functions,
//! capability advertisements, audit and ontology events, and pagination.

use vstd::prelude::*;
use crate::primitives::ApiName;
use crate::condition::{json_as_str, json_str};
use crate::text::{
    contains_seq, contains_text, has_prefix, like_match, like_matches, parse_usize, starts_with_text, usize_from_text,
};

verus! {

/// Sort direction.
#[derive(Debug, Clone, Copy, PartialEq, Eq, Structural)]
pub enum SortDirection {
    /// Ascending order.
    Asc,
    /// Descending order.
    Desc,
}

/// A sort directive.
#[derive(Debug, Clone)]
pub struct Sort {
    /// Property to sort by.
    pub property: ApiName,
    /// Sort direction.
    pub direction: SortDirection,
}

/// Supported aggregation functions.
#[derive(Debug, Clone, Copy, PartialEq, Eq, Structural)]
pub enum AggregationFunction {
    /// Count records.
    Count,
    /// Sum numeric values.
    Sum,
    /// Average numeric values.
    Avg,
    /// Minimum value.
    Min,
    /// Maximum value.
    Max,
}

/// SQL name of each aggregation function.
pub open spec fn sql_name(function: AggregationFunction) -> Seq<char> {
    match function {
        AggregationFunction::Count => "COUNT"@,
        AggregationFunction::Sum => "SUM"@,
        AggregationFunction::Avg => "AVG"@,
        AggregationFunction::Min => "MIN"@,
        AggregationFunction::Max => "MAX"@,
    }
}

impl AggregationFunction {
    /// SQL function name for pushdown-capable stores.
    pub fn as_sql_name(self) -> (result: &'static str)
        ensures
            result@ == sql_name(self),
    {
        match self {
            AggregationFunction::Count => "COUNT",
            AggregationFunction::Sum => "SUM",
            AggregationFunction::Avg => "AVG",
            AggregationFunction::Min => "MIN",
            AggregationFunction::Max => "MAX",
        }
    }
}

/// Store capability advertisement.
#[derive(Debug, Clone, Copy, PartialEq, Eq, Structural)]
pub struct StoreCapabilities {
    /// Supports search.
    pub search: bool,
    /// Supports get.
    pub get: bool,
    /// Supports create.
    pub create: bool,
    /// Supports update.
    pub update: bool,
    /// Supports delete.
    pub delete: bool,
    /// Supports aggregate.
    pub aggregate: bool,
    /// Supports traversal.
    pub traverse: bool,
    /// Supports action execution.
    pub execute_action: bool,
}

/// Capabilities of the in-memory store: everything but action execution.
pub fn memory_store_capabilities() -> (result: StoreCapabilities)
    ensures
        result == (StoreCapabilities {
            search: true,
            get: true,
            create: true,
            update: true,
            delete: true,
            aggregate: true,
            traverse: true,
            execute_action: false,
        }),
{
    StoreCapabilities {
        search: true,
        get: true,
        create: true,
        update: true,
        delete: true,
        aggregate: true,
        traverse: true,
        execute_action: false,
    }
}

/// Minimal audit event emitted by the runtime.
#[derive(Debug, Clone)]
pub struct AuditEvent {
    /// Actor ID.
    pub actor_id: String,
    /// Operation.
    pub operation: String,
    /// Resource kind.
    pub resource_kind: String,
    /// Resource.
    pub resource: String,
    /// Whether the operation succeeded.
    pub success: bool,
    /// Result count.
    pub result_count: i64,
}

/// Minimal ontology event emitted by the runtime.
#[derive(Debug, Clone)]
pub struct OntologyEvent {
    /// Operation kind.
    pub kind: String,
    /// Resource kind.
    pub resource_kind: String,
    /// Resource.
    pub resource: String,
    /// Actor ID.
    pub actor_id: String,
}

/// Page size used when a query gives no limit.
pub const DEFAULT_QUERY_LIMIT: usize = 1000;

/// Page size of an in-memory query: the limit, negative limits counting as
/// zero, or the default page size.
pub open spec fn page_size(limit: Option<i32>) -> usize {
    match limit {
        Some(l) => if l < 0 { 0 } else { l as usize },
        None => DEFAULT_QUERY_LIMIT,
    }
}

/// Page size of an in-memory query.
pub fn query_limit(limit: Option<i32>) -> (result: usize)
    ensures
        result == page_size(limit),
{
    match limit {
        Some(l) => if l < 0 { 0 } else { l as usize },
        None => DEFAULT_QUERY_LIMIT,
    }
}

/// Position of the first record of a page: a numeric cursor wins; else the
/// offset, negative offsets counting as zero; else the start.
pub open spec fn page_offset(cursor: Option<Seq<char>>, offset: Option<i32>) -> usize {
    let from_cursor = match cursor {
        Some(c) => usize_from_text(c),
        None => None,
    };
    match from_cursor {
        Some(v) => v,
        None => match offset {
            Some(o) => if o < 0 { 0 } else { o as usize },
            None => 0,
        },
    }
}

/// Position of the first record of a page.
pub fn resolve_offset(cursor: Option<&str>, offset: Option<i32>) -> (result: usize)
    ensures
        result == page_offset(
            match cursor {
                Some(c) => Some(c@),
                None => None,
            },
            offset,
        ),
{
    let from_cursor = match cursor {
        Some(c) => parse_usize(c),
        None => None,
    };
    match from_cursor {
        Some(v) => v,
        None => match offset {
            Some(o) => if o < 0 { 0 } else { o as usize },
            None => 0,
        },
    }
}

/// Largest number of records a query may ask for: the configured limit,
/// or a thousand when none is configured.
pub fn max_query_limit(limit: Option<i32>) -> (result: i32)
    ensures
        result == match limit {
            Some(l) => l,
            None => 1000,
        },
{
    match limit {
        Some(l) => l,
        None => 1000,
    }
}

/// Rows counted for a mutation result: the reported count or none.
pub fn rows_affected_count(rows_affected: Option<i64>) -> (result: i64)
    ensures
        result == match rows_affected {
            Some(n) => n,
            None => 0,
        },
{
    match rows_affected {
        Some(n) => n,
        None => 0,
    }
}

/// A test of a text field against a text operand.
#[derive(Debug, Clone, Copy, PartialEq, Eq, Structural)]
pub enum TextTest {
    /// The field contains the operand.
    Contains,
    /// The field starts with the operand.
    StartsWith,
    /// The field matches the operand as a `LIKE` pattern.
    Like,
}

/// Whether `actual` passes `test` against `expected`.
pub open spec fn text_test_holds(test: TextTest, actual: Seq<char>, expected: Seq<char>) -> bool {
    match test {
        TextTest::Contains => contains_seq(actual, expected),
        TextTest::StartsWith => has_prefix(actual, expected),
        TextTest::Like => like_matches(actual, expected),
    }
}

/// Whether a field passes a text test: both the field and the operand must
/// be JSON strings, and the test must hold of them.
pub open spec fn text_filter_holds(
    test: TextTest,
    field_value: Option<serde_json::Value>,
    filter_value: Option<serde_json::Value>,
) -> bool {
    match (field_value, filter_value) {
        (Some(f), Some(v)) => match (json_str(f), json_str(v)) {
            (Some(actual), Some(expected)) => text_test_holds(test, actual, expected),
            _ => false,
        },
        _ => false,
    }
}

/// Evaluate a text filter of the in-memory store on a field's value.
pub fn string_match(
    field_value: Option<&serde_json::Value>,
    filter_value: Option<&serde_json::Value>,
    test: TextTest,
) -> (result: bool)
    ensures
        result == text_filter_holds(
            test,
            match field_value {
                Some(f) => Some(*f),
                None => None,
            },
            match filter_value {
                Some(v) => Some(*v),
                None => None,
            },
        ),
{
    let actual = match field_value {
        Some(f) => json_as_str(f),
        None => None,
    };
    let expected = match filter_value {
        Some(v) => json_as_str(v),
        None => None,
    };
    match (actual, expected) {
        (Some(a), Some(e)) => match test {
            TextTest::Contains => contains_text(a, e),
            TextTest::StartsWith => starts_with_text(a, e),
            TextTest::Like => like_match(a, e),
        },
        _ => false,
    }
}

} // verus!
