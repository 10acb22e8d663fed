//! What a transform step does with the backends it reads and writes: the
//! errors for a backend that lacks the needed capability, and the copy of
//! the source records into the target by upsert.

use vstd::prelude::*;
use crate::mutation::{Mutation, MutationResult};
use crate::primitives::{concat, ApiName, Error, ErrorView};
use crate::versioning::Record;

verus! {

/// A backend that applies mutations to the records of an object type.
pub trait Mutator {
    /// Apply `mutation` to `object_type`.
    fn mutate(&self, object_type: &ApiName, mutation: &Mutation) -> Result<MutationResult, Error>;
}

/// Message for a source backend that cannot search.
pub open spec fn no_search_message(source: Seq<char>) -> Seq<char> {
    "source '"@ + source + "' does not support search"@
}

/// Message for a target backend that cannot mutate.
pub open spec fn no_mutate_message(target: Seq<char>) -> Seq<char> {
    "target '"@ + target + "' does not support mutate"@
}

/// The error for a source backend that cannot search.
pub fn search_unsupported(source: &ApiName) -> (result: Error)
    ensures
        result@ == ErrorView::Unsupported(no_search_message(source@)),
{
    let head = concat("source '", source.as_str());
    Error::Unsupported { message: concat(head.as_str(), "' does not support search") }
}

/// The error for a target backend that cannot mutate.
pub fn mutate_unsupported(target: &ApiName) -> (result: Error)
    ensures
        result@ == ErrorView::Unsupported(no_mutate_message(target@)),
{
    let head = concat("target '", target.as_str());
    Error::Unsupported { message: concat(head.as_str(), "' does not support mutate") }
}

/// Rows one upsert of a transform counts for: the count the target reports,
/// or one when it reports none.
pub open spec fn upsert_rows(rows_affected: Option<i64>) -> i64 {
    match rows_affected {
        Some(n) => n,
        None => 1,
    }
}

/// Rows counted for the target's answer to one upsert.
pub fn rows_counted(result: &MutationResult) -> (count: i64)
    ensures
        count == upsert_rows(result.rows_affected),
{
    match result.rows_affected {
        Some(n) => n,
        None => 1,
    }
}

/// Upsert each of `records` into `target`, in order, and return the rows
/// written (each upsert counting as `rows_counted` says, the sum wrapping on
/// overflow). The first refused upsert stops the copy and its error is
/// returned. Nothing to copy writes nothing; an error comes only from the
/// target.
pub fn upsert_records(mutator: &dyn Mutator, target: &ApiName, records: &Vec<Record>) -> (result: Result<i64, Error>)
    ensures
        records@.len() == 0 ==> result == Ok::<i64, Error>(0i64),
        result is Err ==> records@.len() > 0,
{
    let mut written: i64 = 0;
    let mut i: usize = 0;
    while i < records.len()
        invariant
            i <= records@.len(),
            i == 0 ==> written == 0,
        decreases records@.len() - i,
    {
        let mutation = Mutation::Upsert { values: records[i].values.duplicate() };
        match mutator.mutate(target, &mutation) {
            Ok(r) => {
                written = written.wrapping_add(rows_counted(&r));
            },
            Err(e) => {
                return Err(e);
            },
        }
        i = i + 1;
    }
    Ok(written)
}

} // verus!
