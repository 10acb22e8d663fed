//! What a search asks of a store and what the caller gets back: the query
//! is capped at the runtime's largest page and narrowed by the policy's row
//! filter, and the page that comes back loses the fields the policy redacts.

use vstd::prelude::*;
use crate::primitives::ApiName;
use crate::records::{redact, Page};
use crate::store::Sort;

verus! {

/// A filter over the records of an object type.
#[derive(Debug)]
pub enum Filter {
    /// Every one of these filters holds.
    And(Vec<Filter>),
    /// A condition in the ontology's JSON form, evaluated by the store.
    Condition(serde_json::Value),
}

impl Filter {
    /// The filter that holds when all of `filters` hold.
    pub fn and(filters: Vec<Filter>) -> (result: Filter)
        ensures
            result matches Filter::And(parts) && parts@ == filters@,
    {
        Filter::And(filters)
    }
}

/// A search query.
#[derive(Debug)]
pub struct Query {
    /// Filter tree.
    pub filter: Option<Filter>,
    /// Sort directives.
    pub sort: Vec<Sort>,
    /// Pagination limit.
    pub limit: Option<i32>,
    /// Offset pagination start.
    pub offset: Option<i32>,
    /// Cursor pagination token.
    pub cursor: Option<String>,
}

/// A query that follows a link from one source record.
#[derive(Debug)]
pub struct TraversalQuery {
    /// Primary key of the source record.
    pub source_pk: serde_json::Value,
    /// Filter on the records reached.
    pub filter: Option<Filter>,
    /// Sort directives.
    pub sort: Vec<Sort>,
    /// Pagination limit.
    pub limit: Option<i32>,
    /// Offset pagination start.
    pub offset: Option<i32>,
}

/// `combined` is `existing` narrowed by `additional`: `additional` alone
/// when there was no filter, else both joined by `And`.
pub open spec fn narrowed(existing: Option<Filter>, additional: Filter, combined: Option<Filter>) -> bool {
    match existing {
        None => combined == Some(additional),
        Some(e) => combined matches Some(Filter::And(parts)) && parts@ == seq![e, additional],
    }
}

impl Query {
    /// A query with no filter, sort, limit, offset or cursor.
    pub fn empty() -> (result: Query)
        ensures
            result.filter is None,
            result.sort@.len() == 0,
            result.limit is None,
            result.offset is None,
            result.cursor is None,
    {
        Query { filter: None, sort: Vec::new(), limit: None, offset: None, cursor: None }
    }

    /// This query with `additional` joined to its filter by `And`.
    pub fn and_filter(self, additional: Filter) -> (result: Query)
        ensures
            narrowed(self.filter, additional, result.filter),
            result.sort == self.sort,
            result.limit == self.limit,
            result.offset == self.offset,
            result.cursor == self.cursor,
    {
        let Query { filter, sort, limit, offset, cursor } = self;
        let combined = match filter {
            Some(existing) => {
                let mut parts: Vec<Filter> = Vec::new();
                parts.push(existing);
                parts.push(additional);
                proof {
                    assert(parts@ =~= seq![parts@[0], parts@[1]]);
                }
                Filter::and(parts)
            },
            None => additional,
        };
        Query { filter: Some(combined), sort, limit, offset, cursor }
    }
}

/// The page size a search asks for: the requested limit, or the largest
/// page when none is requested, never above the largest page.
pub open spec fn capped_search_limit(limit: Option<i32>, max_query_limit: i32) -> i32 {
    match limit {
        Some(l) => if l > max_query_limit { max_query_limit } else { l },
        None => max_query_limit,
    }
}

/// The limit of a search under the largest page `max_query_limit`.
pub fn search_limit(limit: Option<i32>, max_query_limit: i32) -> (result: Option<i32>)
    ensures
        result == Some(capped_search_limit(limit, max_query_limit)),
{
    match limit {
        Some(l) => if l > max_query_limit { Some(max_query_limit) } else { Some(l) },
        None => Some(max_query_limit),
    }
}

/// The query sent to the store: `query` with its limit capped at
/// `max_query_limit` and, when the policy gives one, the row filter joined
/// to its filter.
pub fn search_query(query: Query, row_filter: Option<Filter>, max_query_limit: i32) -> (result: Query)
    ensures
        result.limit == Some(capped_search_limit(query.limit, max_query_limit)),
        match row_filter {
            Some(f) => narrowed(query.filter, f, result.filter),
            None => result.filter == query.filter,
        },
        result.sort == query.sort,
        result.offset == query.offset,
        result.cursor == query.cursor,
{
    let limit = search_limit(query.limit, max_query_limit);
    let capped = Query { limit, ..query };
    match row_filter {
        Some(f) => capped.and_filter(f),
        None => capped,
    }
}

/// The page handed back to the caller: the store's page with the
/// `redactions` fields dropped from every record, and its cursor.
pub fn finish_search_page(page: Page, redactions: &Vec<ApiName>) -> (result: Page)
    requires
        forall|i: int| 0 <= i < page.records@.len() ==> #[trigger] page.records@[i].values.wf(),
    ensures
        result.records@.len() == page.records@.len(),
        result.next_cursor == page.next_cursor,
        forall|i: int| #![trigger result.records@[i]]
            0 <= i < page.records@.len() ==> {
                &&& result.records@[i].values.wf()
                &&& result.records@[i].primary_key == page.records@[i].primary_key
                &&& result.records@[i].values.as_map() == page.records@[i].values.as_map().remove_keys(
                    redactions@.map_values(|n: ApiName| n@).to_set(),
                )
            },
{
    let Page { records, next_cursor } = page;
    let mut records = records;
    redact(&mut records, redactions);
    Page { records, next_cursor }
}

} // verus!
