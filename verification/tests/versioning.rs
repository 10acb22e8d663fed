use tesela::primitives::{ApiName, StringMap};
use tesela::versioning::{
    next_version, restore_values, snapshot_record, try_next_version, Record, SnapshotDefault,
    VersionedRecordSchema,
};

#[test]
fn snapshot_uses_declared_fields_and_defaults() {
    let name = ApiName::new_unchecked("name");
    let status = ApiName::new_unchecked("status");
    let version = ApiName::new_unchecked("version");
    let schema_fields = [name.clone(), status.clone()];
    let schema = VersionedRecordSchema::new(&schema_fields, &version);
    let active = serde_json::Value::from("active");
    let defaults = [SnapshotDefault { field: &status, value: &active }];
    let mut values = StringMap::new();
    values.insert("name".to_string(), serde_json::Value::from("Road layer"));
    let record = Record { primary_key: None, values };

    let snapshot = snapshot_record(&record, &schema, &defaults);

    assert_eq!(
        snapshot.as_object().and_then(|object| object.get("name")),
        Some(&serde_json::Value::from("Road layer"))
    );
    assert_eq!(
        snapshot.as_object().and_then(|object| object.get("status")),
        Some(&serde_json::Value::from("active"))
    );
}

#[test]
fn restore_values_projects_allowed_fields_only() {
    let name = ApiName::new_unchecked("name");
    let status = ApiName::new_unchecked("status");
    let fields = [name.clone(), status.clone()];
    let snapshot: serde_json::Value =
        serde_json::from_str("{\"name\": \"Trips\", \"status\": \"archived\", \"ignored\": true}").unwrap();

    let values = restore_values(&snapshot, &fields).unwrap();

    assert_eq!(values.get("name"), Some(&serde_json::Value::from("Trips")));
    assert_eq!(values.get("status"), Some(&serde_json::Value::from("archived")));
    assert_eq!(values.len(), 2);
}

fn version_record(field: &str, version: i64) -> Record {
    let mut values = StringMap::new();
    values.insert(field.to_string(), serde_json::Value::from(version));
    Record { primary_key: None, values }
}

#[test]
fn next_version_advances_max_existing_version() {
    let version = ApiName::new_unchecked("version");
    let schema = VersionedRecordSchema::new(&[], &version);
    let records = [version_record("version", 1), version_record("version", 7)];

    assert_eq!(next_version(&records, &schema), 8);
    assert_eq!(next_version(&[], &schema), 1);
}

#[test]
fn snapshot_of_a_missing_field_without_default_is_null() {
    let version = ApiName::new_unchecked("version");
    let fields = [ApiName::new_unchecked("missing")];
    let schema = VersionedRecordSchema::new(&fields, &version);
    let record = Record { primary_key: None, values: StringMap::new() };
    let snapshot = snapshot_record(&record, &schema, &[]);
    assert_eq!(snapshot.get("missing"), Some(&serde_json::Value::Null));
}

#[test]
fn restore_rejects_non_objects() {
    assert!(restore_values(&serde_json::Value::from(3), &[]).is_err());
}

#[test]
fn try_next_version_stops_at_the_largest_version() {
    let version = ApiName::new_unchecked("version");
    let schema = VersionedRecordSchema::new(&[], &version);
    assert_eq!(try_next_version(&[version_record("version", i64::MAX)], &schema), None);
    assert_eq!(try_next_version(&[version_record("version", 2), version_record("other", 9)], &schema), Some(3));
}

#[test]
fn restoring_a_snapshot_gives_back_its_fields() {
    let fields = [ApiName::new_unchecked("title"), ApiName::new_unchecked("status"), ApiName::new_unchecked("owner")];
    let version = ApiName::new_unchecked("version");
    let schema = VersionedRecordSchema::new(&fields, &version);
    let draft = serde_json::Value::from("draft");
    let status = ApiName::new_unchecked("status");
    let defaults = [SnapshotDefault { field: &status, value: &draft }];
    let mut values = StringMap::new();
    values.insert("title".to_string(), serde_json::Value::from("Plan"));
    values.insert("internal".to_string(), serde_json::Value::from(true));
    let record = Record { primary_key: None, values };
    let snapshot = snapshot_record(&record, &schema, &defaults);
    let restored = restore_values(&snapshot, &fields).unwrap();
    assert_eq!(restored.len(), 3);
    assert_eq!(restored.get("title"), Some(&serde_json::Value::from("Plan")));
    assert_eq!(restored.get("status"), Some(&serde_json::Value::from("draft")));
    assert_eq!(restored.get("owner"), Some(&serde_json::Value::Null));
    assert!(restored.get("internal").is_none());
}
