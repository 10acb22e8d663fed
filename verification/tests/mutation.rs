use std::cell::RefCell;

use tesela::mutation::{apply_mutation, mutation_to_record, upsert_key, Mutation, MutationResult, OntologyStore};
use tesela::primitives::{ApiName, Error, StringMap};
use tesela::store::{memory_store_capabilities, StoreCapabilities};
use tesela::records::Page;
use tesela::search::Query;
use tesela::versioning::Record;

/// A store of records keyed by the `zone_id` field, as the zones object type
/// declares.
struct ZoneStore {
    records: RefCell<Vec<Record>>,
    calls: RefCell<Vec<String>>,
}

impl ZoneStore {
    fn new() -> Self {
        ZoneStore { records: RefCell::new(Vec::new()), calls: RefCell::new(Vec::new()) }
    }
    fn position(&self, pk: &serde_json::Value) -> Option<usize> {
        self.records.borrow().iter().position(|r| r.primary_key.as_ref() == Some(pk))
    }
}

fn copy_values(values: &StringMap<serde_json::Value>) -> StringMap<serde_json::Value> {
    let mut out = StringMap::new();
    for (k, v) in values.entries() {
        out.insert(k.clone(), v.clone());
    }
    out
}

impl OntologyStore for ZoneStore {
    fn store_type(&self) -> &str {
        "zones_test"
    }
    fn capabilities(&self) -> StoreCapabilities {
        memory_store_capabilities()
    }
    fn search(&self, _object_type: &ApiName, _query: &Query) -> Result<Page, Error> {
        let records = self.records.borrow();
        Ok(Page { records: records.iter().map(|r| Record { primary_key: r.primary_key.clone(), values: copy_values(&r.values) }).collect(), next_cursor: None })
    }
    fn get(&self, _object_type: &ApiName, primary_key: &serde_json::Value) -> Result<Option<Record>, Error> {
        self.calls.borrow_mut().push("get".to_string());
        Ok(self.position(primary_key).map(|i| {
            let r = &self.records.borrow()[i];
            Record { primary_key: r.primary_key.clone(), values: copy_values(&r.values) }
        }))
    }
    fn create(&self, _object_type: &ApiName, values: StringMap<serde_json::Value>) -> Result<MutationResult, Error> {
        self.calls.borrow_mut().push("create".to_string());
        let pk = values
            .get("zone_id")
            .cloned()
            .ok_or_else(|| Error::BadRequest { message: "create for 'zones' requires primary key 'zone_id'".to_string() })?;
        if self.position(&pk).is_some() {
            return Err(Error::Validation { message: "exists".to_string() });
        }
        self.records.borrow_mut().push(Record { primary_key: Some(pk), values });
        Ok(MutationResult { record: None, rows_affected: Some(1) })
    }
    fn update(&self, _object_type: &ApiName, primary_key: &serde_json::Value, values: StringMap<serde_json::Value>) -> Result<MutationResult, Error> {
        self.calls.borrow_mut().push("update".to_string());
        let i = self.position(primary_key).ok_or_else(|| Error::NotFound { kind: "record".to_string(), key: primary_key.to_string() })?;
        for (k, v) in values.entries() {
            self.records.borrow_mut()[i].values.insert(k.clone(), v.clone());
        }
        Ok(MutationResult { record: None, rows_affected: Some(1) })
    }
    fn delete(&self, _object_type: &ApiName, primary_key: &serde_json::Value) -> Result<MutationResult, Error> {
        self.calls.borrow_mut().push("delete".to_string());
        let removed = match self.position(primary_key) {
            Some(i) => {
                self.records.borrow_mut().remove(i);
                1
            }
            None => 0,
        };
        Ok(MutationResult { record: None, rows_affected: Some(removed) })
    }
}

fn zone_values(scenario_id: &str, zone_id: &str) -> StringMap<serde_json::Value> {
    let mut values = StringMap::new();
    values.insert("scenario_id".to_string(), serde_json::Value::from(scenario_id));
    values.insert("zone_id".to_string(), serde_json::Value::from(zone_id));
    values
}

fn zones() -> ApiName {
    ApiName::new_unchecked("zones")
}

fn zone_id() -> ApiName {
    ApiName::new_unchecked("zone_id")
}

#[test]
fn upsert_uses_declared_object_primary_key() {
    let store = ZoneStore::new();
    apply_mutation(&store, &zones(), &zone_id(), Mutation::Upsert { values: zone_values("scenario-1", "zone-1") }).unwrap();
    apply_mutation(&store, &zones(), &zone_id(), Mutation::Upsert { values: zone_values("scenario-1", "zone-2") }).unwrap();
    assert_eq!(store.records.borrow().len(), 2);
    let one = store.get(&zones(), &serde_json::Value::from("zone-1")).unwrap().unwrap();
    assert_eq!(one.primary_key, Some(serde_json::Value::from("zone-1")));
    let two = store.get(&zones(), &serde_json::Value::from("zone-2")).unwrap().unwrap();
    assert_eq!(two.primary_key, Some(serde_json::Value::from("zone-2")));
}

#[test]
fn upsert_requires_declared_primary_key_value() {
    let store = ZoneStore::new();
    let mut values = StringMap::new();
    values.insert("scenario_id".to_string(), serde_json::Value::from("scenario-1"));
    let error = apply_mutation(&store, &zones(), &zone_id(), Mutation::Upsert { values }).unwrap_err();
    assert!(matches!(error, Error::BadRequest { .. }));
    assert_eq!(error.text(), "bad request: upsert for 'zones' requires primary key 'zone_id'");
    assert!(store.calls.borrow().is_empty());
}

#[test]
fn upsert_of_existing_record_updates_it() {
    let store = ZoneStore::new();
    apply_mutation(&store, &zones(), &zone_id(), Mutation::Upsert { values: zone_values("s1", "zone-1") }).unwrap();
    apply_mutation(&store, &zones(), &zone_id(), Mutation::Upsert { values: zone_values("s2", "zone-1") }).unwrap();
    assert_eq!(store.records.borrow().len(), 1);
    assert_eq!(store.records.borrow()[0].values.get("scenario_id"), Some(&serde_json::Value::from("s2")));
    assert_eq!(*store.calls.borrow(), vec!["get", "create", "get", "update"]);
}

#[test]
fn batch_sums_rows_and_reports_no_record() {
    let store = ZoneStore::new();
    let batch = Mutation::Batch {
        items: vec![
            Mutation::Create { values: zone_values("s", "a") },
            Mutation::Create { values: zone_values("s", "b") },
            Mutation::Delete { primary_key: serde_json::Value::from("a") },
            Mutation::Delete { primary_key: serde_json::Value::from("missing") },
        ],
    };
    let result = apply_mutation(&store, &zones(), &zone_id(), batch).unwrap();
    assert!(result.record.is_none());
    assert_eq!(result.rows_affected, Some(3));
    let empty = apply_mutation(&store, &zones(), &zone_id(), Mutation::Batch { items: Vec::new() }).unwrap();
    assert_eq!(empty.rows_affected, Some(0));
}

#[test]
fn batch_stops_at_first_failure() {
    let store = ZoneStore::new();
    let batch = Mutation::Batch {
        items: vec![
            Mutation::Create { values: zone_values("s", "a") },
            Mutation::Create { values: zone_values("s", "a") },
            Mutation::Create { values: zone_values("s", "c") },
        ],
    };
    assert!(apply_mutation(&store, &zones(), &zone_id(), batch).is_err());
    assert_eq!(store.records.borrow().len(), 1);
}

#[test]
fn mutation_records_carry_written_values() {
    let r = mutation_to_record(&Mutation::Upsert { values: zone_values("s", "z") });
    assert!(r.primary_key.is_none());
    assert_eq!(r.values.get("zone_id"), Some(&serde_json::Value::from("z")));
    let d = mutation_to_record(&Mutation::Delete { primary_key: serde_json::Value::from("z") });
    assert_eq!(d.values.len(), 0);
    assert_eq!(upsert_key(&zones(), &zone_id(), &zone_values("s", "z")).unwrap(), serde_json::Value::from("z"));
}

#[test]
fn stores_do_not_traverse_unless_they_say_so() {
    let store = ZoneStore::new();
    let query = tesela::search::TraversalQuery {
        source_pk: serde_json::Value::from(1),
        filter: None,
        sort: Vec::new(),
        limit: None,
        offset: None,
    };
    match store.traverse(&ApiName::new_unchecked("zone_sites"), &query) {
        Err(e) => assert_eq!(e.text(), "unsupported: traverse"),
        Ok(_) => panic!("traversal is unsupported"),
    }
}
