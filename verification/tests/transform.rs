use std::cell::RefCell;

use tesela::mutation::{Mutation, MutationResult};
use tesela::primitives::{ApiName, Error, StringMap};
use tesela::transform::{mutate_unsupported, rows_counted, search_unsupported, upsert_records, Mutator};
use tesela::versioning::Record;

/// A target that answers each upsert with the next scripted reply and keeps
/// the values it was handed.
struct ScriptedTarget {
    replies: RefCell<Vec<Result<MutationResult, Error>>>,
    seen: RefCell<Vec<(String, serde_json::Value)>>,
}

impl ScriptedTarget {
    fn new(mut replies: Vec<Result<MutationResult, Error>>) -> Self {
        replies.reverse();
        ScriptedTarget { replies: RefCell::new(replies), seen: RefCell::new(Vec::new()) }
    }
}

impl Mutator for ScriptedTarget {
    fn mutate(&self, object_type: &ApiName, mutation: &Mutation) -> Result<MutationResult, Error> {
        match mutation {
            Mutation::Upsert { values } => {
                let id = values.get("id").cloned().unwrap_or(serde_json::Value::Null);
                self.seen.borrow_mut().push((object_type.as_str().to_string(), id));
            },
            _ => panic!("a transform only upserts"),
        }
        self.replies.borrow_mut().pop().expect("a scripted reply")
    }
}

fn record(id: i64) -> Record {
    let mut values = StringMap::new();
    values.insert("id".to_string(), serde_json::Value::from(id));
    Record { primary_key: None, values }
}

fn reply(rows: Option<i64>) -> Result<MutationResult, Error> {
    Ok(MutationResult { record: None, rows_affected: rows })
}

#[test]
fn missing_search_support_names_the_source() {
    let e = search_unsupported(&ApiName::new_unchecked("orders"));
    assert_eq!(e.text(), "unsupported: source 'orders' does not support search");
}

#[test]
fn missing_mutate_support_names_the_target() {
    let e = mutate_unsupported(&ApiName::new_unchecked("archive"));
    assert_eq!(e.text(), "unsupported: target 'archive' does not support mutate");
}

#[test]
fn an_unreported_row_count_counts_as_one() {
    assert_eq!(rows_counted(&MutationResult { record: None, rows_affected: None }), 1);
    assert_eq!(rows_counted(&MutationResult { record: None, rows_affected: Some(3) }), 3);
    assert_eq!(rows_counted(&MutationResult { record: None, rows_affected: Some(0) }), 0);
}

#[test]
fn copying_nothing_writes_nothing() {
    let target = ScriptedTarget::new(Vec::new());
    let written = upsert_records(&target, &ApiName::new_unchecked("archive"), &Vec::new());
    assert_eq!(written.unwrap(), 0);
    assert!(target.seen.borrow().is_empty());
}

#[test]
fn each_record_is_upserted_in_order_and_counted() {
    let target = ScriptedTarget::new(vec![reply(Some(1)), reply(None), reply(Some(2))]);
    let records = vec![record(1), record(2), record(3)];
    let written = upsert_records(&target, &ApiName::new_unchecked("archive"), &records).unwrap();
    assert_eq!(written, 4);
    let seen = target.seen.borrow();
    assert_eq!(seen.len(), 3);
    assert!(seen.iter().all(|(t, _)| t == "archive"));
    let ids: Vec<i64> = seen.iter().map(|(_, id)| id.as_i64().unwrap()).collect();
    assert_eq!(ids, vec![1, 2, 3]);
}

#[test]
fn the_first_refused_upsert_stops_the_copy() {
    let refusal = Error::Validation { message: "bad row".to_string() };
    let target = ScriptedTarget::new(vec![reply(Some(1)), Err(refusal), reply(Some(1))]);
    let records = vec![record(1), record(2), record(3)];
    let written = upsert_records(&target, &ApiName::new_unchecked("archive"), &records);
    match written {
        Err(e) => assert_eq!(e.text(), "validation error: bad row"),
        Ok(n) => panic!("expected the refusal, got {n}"),
    }
    assert_eq!(target.seen.borrow().len(), 2);
}
