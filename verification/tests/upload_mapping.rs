use tesela::ir::{DataType, Property};
use tesela::primitives::{ApiName, Error, StringMap};
use tesela::upload_mapping::{coerce_value, fuzzy_match, validate_records, UploadMappingEngine};

fn prop(name: &str, data_type: DataType, nullable: Option<bool>, source_column: Option<&str>) -> Property {
    Property {
        api_name: ApiName::new_unchecked(name),
        display: None,
        description: None,
        data_type,
        nullable,
        unique: None,
        indexed: None,
        default: None,
        computed: None,
        source_column: source_column.map(|s| s.to_string()),
        allowed_values: None,
        sort_order: None,
        tags: Vec::new(),
        markings: Vec::new(),
        encrypted: None,
        quality: Vec::new(),
        metadata: None,
    }
}

fn message(result: Result<serde_json::Value, Error>) -> String {
    match result {
        Err(Error::Validation { message }) => message,
        other => panic!("expected a validation error, got {:?}", other),
    }
}

#[test]
fn integers_parse_with_sign() {
    let p = prop("age", DataType::Integer, None, None);
    assert_eq!(coerce_value("42", &p, None).unwrap(), serde_json::Value::from(42));
    assert_eq!(coerce_value("-7", &p, None).unwrap(), serde_json::Value::from(-7));
    assert_eq!(coerce_value("+3", &p, None).unwrap(), serde_json::Value::from(3));
    assert_eq!(message(coerce_value("4x", &p, None)), "cannot parse '4x' as integer for property 'age'");
    assert_eq!(message(coerce_value("", &p, None)), "cannot parse '' as integer for property 'age'");
}

#[test]
fn empty_text_of_nullable_property_is_null() {
    let p = prop("age", DataType::Integer, Some(true), None);
    assert_eq!(coerce_value("", &p, None).unwrap(), serde_json::Value::Null);
}

#[test]
fn booleans_accept_the_usual_words() {
    let p = prop("active", DataType::Boolean, None, None);
    for word in ["true", "YES", "t", "Y", "1"] {
        assert_eq!(coerce_value(word, &p, None).unwrap(), serde_json::Value::from(true), "{word}");
    }
    for word in ["False", "no", "f", "N", "0"] {
        assert_eq!(coerce_value(word, &p, None).unwrap(), serde_json::Value::from(false), "{word}");
    }
    assert_eq!(message(coerce_value("maybe", &p, None)), "cannot parse 'maybe' as boolean for property 'active'");
}

#[test]
fn floats_come_from_the_caller() {
    let p = prop("price", DataType::Decimal, None, None);
    assert_eq!(coerce_value("1.5", &p, Some(serde_json::Value::from(1.5))).unwrap(), serde_json::Value::from(1.5));
    assert_eq!(message(coerce_value("x", &p, None)), "cannot parse 'x' as float for property 'price'");
}

#[test]
fn datetimes_are_normalized() {
    let p = prop("at", DataType::Timestamp, None, None);
    assert_eq!(
        coerce_value("2024-01-02T03:04:05Z", &p, None).unwrap(),
        serde_json::Value::from("2024-01-02T03:04:05+00:00")
    );
    assert_eq!(coerce_value("2024-01-02 03:04:05", &p, None).unwrap(), serde_json::Value::from("2024-01-02 03:04:05"));
    assert_eq!(message(coerce_value("yesterday", &p, None)), "cannot parse 'yesterday' as datetime for property 'at'");
}

#[test]
fn uuids_are_normalized() {
    let p = prop("id", DataType::Uuid, None, None);
    assert_eq!(
        coerce_value("67E55044-10B1-426F-9247-BB680E5FE0C8", &p, None).unwrap(),
        serde_json::Value::from("67e55044-10b1-426f-9247-bb680e5fe0c8")
    );
    assert!(coerce_value("nope", &p, None).is_err());
}

#[test]
fn other_types_keep_the_text() {
    let p = prop("name", DataType::String, None, None);
    assert_eq!(coerce_value("Ada", &p, None).unwrap(), serde_json::Value::from("Ada"));
}

#[test]
fn fuzzy_match_finds_close_names() {
    let props = vec![prop("customer_name", DataType::String, None, None), prop("email", DataType::String, None, None)];
    assert_eq!(fuzzy_match("Customer_Nam", &props), Some("customer_name".to_string()));
    assert_eq!(fuzzy_match("phone", &props), None);
}

#[test]
fn map_column_prefers_explicit_then_exact_then_similar() {
    let props = vec![
        prop("email", DataType::String, None, Some("E-Mail Address")),
        prop("customer_name", DataType::String, None, None),
    ];
    let engine = UploadMappingEngine::from_object_type(&props);
    assert!(engine.heuristic);
    assert_eq!(engine.map_column("E-Mail Address", &props), Some("email".to_string()));
    assert_eq!(engine.map_column("customer_name", &props), Some("customer_name".to_string()));
    assert_eq!(engine.map_column("customer_nme", &props), Some("customer_name".to_string()));
    assert_eq!(engine.map_column("zzz", &props), None);
}

#[test]
fn validate_records_lists_missing_and_null_fields() {
    let props = vec![prop("id", DataType::String, None, None), prop("note", DataType::String, Some(true), None)];
    let mut ok = StringMap::new();
    ok.insert("id".to_string(), serde_json::Value::from("1"));
    let mut null_id = StringMap::new();
    null_id.insert("id".to_string(), serde_json::Value::Null);
    let missing = StringMap::new();
    assert!(validate_records(&vec![ok], &props).is_ok());
    let mut ok2 = StringMap::new();
    ok2.insert("id".to_string(), serde_json::Value::from("2"));
    match validate_records(&vec![ok2, null_id, missing], &props) {
        Err(Error::Validation { message }) => assert_eq!(
            message,
            "row 1: null value for required field 'id'; row 2: missing required field 'id'"
        ),
        _ => panic!("expected problems"),
    }
}
