//! Mutations of object records and how they are applied to a store:
//! creates, updates and deletes go straight through, an upsert updates the
//! record its primary key names or creates it, and a batch applies its items
//! in order and counts the rows they affected.

use vstd::prelude::*;
use crate::primitives::{concat, lemma_unique_index, str_eq, ApiName, Error, ErrorView, StringMap};
use crate::store::{rows_affected_count, StoreCapabilities};
use crate::versioning::Record;
use crate::records::Page;
use crate::search::{Query, TraversalQuery};

verus! {

/// A write to the records of an object type.
#[derive(Debug)]
pub enum Mutation {
    /// Create a record.
    Create {
        /// Field values.
        values: StringMap<serde_json::Value>,
    },
    /// Update a record.
    Update {
        /// Primary key.
        primary_key: serde_json::Value,
        /// New values.
        values: StringMap<serde_json::Value>,
    },
    /// Delete a record.
    Delete {
        /// Primary key.
        primary_key: serde_json::Value,
    },
    /// Insert or replace a record.
    Upsert {
        /// Field values.
        values: StringMap<serde_json::Value>,
    },
    /// Apply several mutations.
    Batch {
        /// Mutations.
        items: Vec<Mutation>,
    },
}

/// What a write did.
#[derive(Debug)]
pub struct MutationResult {
    /// The record written, if one is reported.
    pub record: Option<Record>,
    /// Rows affected, if reported.
    pub rows_affected: Option<i64>,
}

/// Storage for the records of object types.
pub trait OntologyStore {
    /// Store type name.
    fn store_type(&self) -> &str;
    /// Advertised capabilities.
    fn capabilities(&self) -> StoreCapabilities;
    /// Search records.
    fn search(&self, object_type: &ApiName, query: &Query) -> Result<Page, Error>;
    /// Fetch one record by primary key.
    fn get(&self, object_type: &ApiName, primary_key: &serde_json::Value) -> Result<Option<Record>, Error>;
    /// Create one record.
    fn create(&self, object_type: &ApiName, values: StringMap<serde_json::Value>) -> Result<MutationResult, Error>;
    /// Update one record.
    fn update(
        &self,
        object_type: &ApiName,
        primary_key: &serde_json::Value,
        values: StringMap<serde_json::Value>,
    ) -> Result<MutationResult, Error>;
    /// Delete one record.
    fn delete(&self, object_type: &ApiName, primary_key: &serde_json::Value) -> Result<MutationResult, Error>;
    /// Follow `link_type` from one record; unsupported unless a store says
    /// otherwise.
    fn traverse(&self, link_type: &ApiName, query: &TraversalQuery) -> Result<Page, Error> {
        Err(Error::Unsupported { message: "traverse".to_owned() })
    }
}

/// The values a mutation writes, if it writes any.
pub open spec fn written_values(mutation: Mutation) -> Option<StringMap<serde_json::Value>> {
    match mutation {
        Mutation::Create { values } => Some(values),
        Mutation::Upsert { values } => Some(values),
        Mutation::Update { values, .. } => Some(values),
        _ => None,
    }
}

/// A representative record of `mutation` for quality checks: the values it
/// writes, without a primary key; no values for deletes and batches.
pub fn mutation_to_record(mutation: &Mutation) -> (result: Record)
    ensures
        result.primary_key is None,
        match written_values(*mutation) {
            Some(values) => result.values.as_map() == values.as_map() && result.values.key_seq() == values.key_seq()
                && result.values.wf() == values.wf(),
            None => result.values.wf() && result.values.as_map().len() == 0,
        },
{
    let values = match mutation {
        Mutation::Create { values } => values.duplicate(),
        Mutation::Upsert { values } => values.duplicate(),
        Mutation::Update { values, .. } => values.duplicate(),
        Mutation::Delete { .. } => StringMap::new(),
        Mutation::Batch { .. } => StringMap::new(),
    };
    Record { primary_key: None, values }
}

/// The error of an upsert whose values lack the primary key.
pub open spec fn missing_upsert_key(object_name: Seq<char>, primary_key_name: Seq<char>) -> ErrorView {
    ErrorView::BadRequest("upsert for '"@ + object_name + "' requires primary key '"@ + primary_key_name + "'"@)
}

/// The primary key an upsert names: the value of the primary key field;
/// a bad-request error when the values lack it.
pub fn upsert_key(
    object_name: &ApiName,
    primary_key_name: &ApiName,
    values: &StringMap<serde_json::Value>,
) -> (result: Result<serde_json::Value, Error>)
    ensures
        values.as_map().contains_key(primary_key_name@) ==> result is Ok,
        values.wf() && values.as_map().contains_key(primary_key_name@) ==> result == Ok::<serde_json::Value, Error>(
            values.as_map()[primary_key_name@],
        ),
        !values.as_map().contains_key(primary_key_name@) ==> (result matches Err(e) && e@ == missing_upsert_key(
            object_name@,
            primary_key_name@,
        )),
{
    let entries = values.entries();
    let ghost keys = values.key_seq();
    proof {
        values.lemma_as_map_entries(primary_key_name@);
    }
    let mut i: usize = 0;
    while i < entries.len()
        invariant
            i <= entries@.len(),
            keys == values.key_seq(),
            entries@.map_values(|e: (String, serde_json::Value)| e.0@) == keys,
            entries@.map_values(|e: (String, serde_json::Value)| e.1) == values.value_seq(),
            forall|j: int| 0 <= j < i ==> keys[j] != primary_key_name@,
            values.wf() ==> keys.no_duplicates(),
            values.as_map().contains_key(primary_key_name@) == keys.contains(primary_key_name@),
            keys.contains(primary_key_name@) ==> values.as_map()[primary_key_name@] == values.value_seq()[keys.index_of(
                primary_key_name@,
            )],
        decreases entries@.len() - i,
    {
        if str_eq(entries[i].0.as_str(), primary_key_name.as_str()) {
            proof {
                assert(keys[i as int] == primary_key_name@);
                assert(keys.contains(primary_key_name@));
                if values.wf() {
                    lemma_unique_index(keys, i as int);
                    assert(entries@[i as int].1 == values.value_seq()[i as int]);
                }
            }
            return Ok(crate::agents::json_copy(&entries[i].1));
        }
        i = i + 1;
    }
    proof {
        if keys.contains(primary_key_name@) {
            let j = choose|j: int| 0 <= j < keys.len() && keys[j] == primary_key_name@;
            assert(keys[j] != primary_key_name@);
        }
    }
    let mut message = concat("upsert for '", object_name.as_str());
    message.append("' requires primary key '");
    message.append(primary_key_name.as_str());
    message.append("'");
    Err(Error::BadRequest { message })
}

/// Apply `mutation` to the records of `object_name` in `store`, whose
/// primary key field is `primary_key_name`.
///
/// Creates, updates and deletes are handed to the store. An upsert takes its
/// primary key from its values, fails as a bad request without one, and
/// updates the record the store finds under it or else creates one. A batch
/// applies its items in order, stops at the first failure, and reports no
/// record and the sum of the rows its items affected (an item that reports
/// none counts zero).
pub fn apply_mutation(
    store: &dyn OntologyStore,
    object_name: &ApiName,
    primary_key_name: &ApiName,
    mutation: Mutation,
) -> (result: Result<MutationResult, Error>)
    ensures
        mutation matches Mutation::Upsert { values } && !values.as_map().contains_key(primary_key_name@) ==> (result matches Err(
            e,
        ) && e@ == missing_upsert_key(object_name@, primary_key_name@)),
        mutation is Batch ==> (result matches Ok(r) ==> r.record is None && r.rows_affected is Some),
        mutation matches Mutation::Batch { items } && items@.len() == 0 ==> (result matches Ok(r) && r.record is None
            && r.rows_affected == Some(0i64)),
    decreases mutation,
{
    let ghost whole = mutation;
    match mutation {
        Mutation::Create { values } => store.create(object_name, values),
        Mutation::Update { primary_key, values } => store.update(object_name, &primary_key, values),
        Mutation::Delete { primary_key } => store.delete(object_name, &primary_key),
        Mutation::Upsert { values } => {
            let primary_key = match upsert_key(object_name, primary_key_name, &values) {
                Ok(k) => k,
                Err(e) => {
                    return Err(e);
                },
            };
            match store.get(object_name, &primary_key) {
                Ok(Some(_)) => store.update(object_name, &primary_key, values),
                Ok(None) => store.create(object_name, values),
                Err(e) => Err(e),
            }
        },
        Mutation::Batch { items } => {
            let ghost all = items@;
            proof {
                assert(whole->items@ == all);
            }
            let mut rest = items;
            let mut affected: i64 = 0;
            let ghost mut done: int = 0;
            while rest.len() > 0
                invariant
                    0 <= done,
                    done + rest@.len() == all.len(),
                    forall|k: int| 0 <= k < rest@.len() ==> #[trigger] rest@[k] == all[done + k],
                    whole matches Mutation::Batch { items } && items@ == all,
                    whole == mutation,
                    done == 0 ==> affected == 0,
                decreases rest@.len(),
            {
                let item = rest.remove(0);
                proof {
                    assert(item == all[done]);
                    assert(decreases_to!(whole => whole->items));
                    assert(decreases_to!(whole->items => whole->items@));
                    assert(0 <= done < all.len());
                    assert(decreases_to!(whole->items@ => whole->items@[done]));
                    assert(decreases_to!(whole => all[done]));
                }
                let outcome = apply_mutation(store, object_name, primary_key_name, item);
                match outcome {
                    Ok(r) => {
                        affected = affected.wrapping_add(rows_affected_count(r.rows_affected));
                    },
                    Err(e) => {
                        return Err(e);
                    },
                }
                proof {
                    done = done + 1;
                }
            }
            Ok(MutationResult { record: None, rows_affected: Some(affected) })
        },
    }
}

} // verus!
