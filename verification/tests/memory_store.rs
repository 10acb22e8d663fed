use tesela::memory_store::MemoryStore;
use tesela::primitives::{ApiName, Error, StringMap};

fn name(s: &str) -> ApiName {
    ApiName::new_unchecked(s)
}

fn values(pairs: &[(&str, serde_json::Value)]) -> StringMap<serde_json::Value> {
    let mut m = StringMap::new();
    for (k, v) in pairs {
        m.insert(k.to_string(), v.clone());
    }
    m
}

fn zones_store() -> MemoryStore {
    let mut store = MemoryStore::new();
    store.set_spec(vec![(name("zones"), name("zone_id"))]);
    store
}

#[test]
fn created_records_are_read_back() {
    let mut store = zones_store();
    let created = store
        .create(&name("zones"), values(&[("zone_id", "z1".into()), ("scenario_id", "s1".into())]))
        .unwrap();
    assert_eq!(created.rows_affected, Some(1));
    assert_eq!(created.record.unwrap().primary_key, Some(serde_json::Value::from("z1")));
    let got = store.get(&name("zones"), &serde_json::Value::from("z1")).unwrap().unwrap();
    assert_eq!(got.values.get("scenario_id"), Some(&serde_json::Value::from("s1")));
    assert!(store.get(&name("zones"), &serde_json::Value::from("z2")).unwrap().is_none());
    assert!(store.get(&name("other"), &serde_json::Value::from("z1")).unwrap().is_none());
    assert_eq!(store.store_type(), "memory");
    assert!(!store.capabilities().execute_action);
}

#[test]
fn declared_key_is_required() {
    let mut store = zones_store();
    let err = store.create(&name("zones"), values(&[("scenario_id", "s1".into())])).unwrap_err();
    assert_eq!(err.text(), "bad request: create for 'zones' requires primary key 'zone_id'");
}

#[test]
fn duplicate_keys_conflict() {
    let mut store = zones_store();
    store.create(&name("zones"), values(&[("zone_id", "z1".into())])).unwrap();
    let err = store.create(&name("zones"), values(&[("zone_id", "z1".into())])).unwrap_err();
    assert!(matches!(err, Error::Conflict { .. }));
    assert_eq!(err.text(), "conflict: record '\"z1\"' already exists in 'zones'");
}

#[test]
fn undeclared_types_use_id_or_a_fresh_uuid() {
    let mut store = MemoryStore::new();
    let with_id = store.create(&name("notes"), values(&[("id", 5.into())])).unwrap();
    assert_eq!(with_id.record.unwrap().primary_key, Some(serde_json::Value::from(5)));
    assert!(store.get(&name("notes"), &serde_json::Value::from(5)).unwrap().is_some());
    let fresh = store.create(&name("notes"), values(&[("text", "hi".into())])).unwrap();
    let pk = fresh.record.unwrap().primary_key.unwrap();
    assert_eq!(pk.as_str().unwrap().len(), 36);
}

#[test]
fn update_merges_fields() {
    let mut store = zones_store();
    store.create(&name("zones"), values(&[("zone_id", "z1".into()), ("a", 1.into()), ("b", 2.into())])).unwrap();
    let updated = store.update(&name("zones"), &serde_json::Value::from("z1"), values(&[("b", 3.into()), ("c", 4.into())])).unwrap();
    let rec = updated.record.unwrap();
    assert_eq!(rec.values.get("a"), Some(&serde_json::Value::from(1)));
    assert_eq!(rec.values.get("b"), Some(&serde_json::Value::from(3)));
    assert_eq!(rec.values.get("c"), Some(&serde_json::Value::from(4)));
    let missing = store.update(&name("zones"), &serde_json::Value::from("nope"), StringMap::new()).unwrap_err();
    assert_eq!(missing.text(), "record not found: \"nope\"");
}

#[test]
fn delete_counts_removed_rows() {
    let mut store = zones_store();
    store.create(&name("zones"), values(&[("zone_id", "z1".into())])).unwrap();
    assert_eq!(store.delete(&name("zones"), &serde_json::Value::from("z1")).unwrap().rows_affected, Some(1));
    assert_eq!(store.delete(&name("zones"), &serde_json::Value::from("z1")).unwrap().rows_affected, Some(0));
    assert_eq!(store.delete(&name("unknown"), &serde_json::Value::from("z1")).unwrap().rows_affected, Some(0));
    assert!(store.get(&name("zones"), &serde_json::Value::from("z1")).unwrap().is_none());
}
