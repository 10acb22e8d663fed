use tesela::computed::{materialize_computed, store_computed, ComputedEvaluator, RecordContext};
use tesela::ir::{Computed, DataType, Property};
use tesela::primitives::{ApiName, Error, StringMap};
use tesela::runtime::ComputedLang;
use tesela::versioning::Record;

fn property(name: &str, computed: Option<Computed>) -> Property {
    Property {
        api_name: ApiName::new_unchecked(name),
        display: None,
        description: None,
        data_type: DataType::String,
        nullable: None,
        unique: None,
        indexed: None,
        default: None,
        computed,
        source_column: None,
        allowed_values: None,
        sort_order: None,
        tags: Vec::new(),
        markings: Vec::new(),
        encrypted: None,
        quality: Vec::new(),
        metadata: None,
    }
}

fn empty_record() -> Record {
    Record { primary_key: None, values: StringMap::new() }
}

struct Joiner;

impl ComputedEvaluator for Joiner {
    fn evaluate(&self, lang: ComputedLang, expr: &str, ctx: &RecordContext) -> Result<serde_json::Value, Error> {
        assert_eq!(lang, ComputedLang::Cel);
        assert_eq!(ctx.object_type.as_str(), "person");
        let first = ctx.record.values.get("first_name").and_then(|v| v.as_str()).unwrap_or("");
        let last = ctx.record.values.get("last_name").and_then(|v| v.as_str()).unwrap_or("");
        assert_eq!(expr, "first_name + last_name");
        Ok(serde_json::Value::from(format!("{} {}", first, last)))
    }
}

struct Failing;

impl ComputedEvaluator for Failing {
    fn evaluate(&self, _lang: ComputedLang, _expr: &str, _ctx: &RecordContext) -> Result<serde_json::Value, Error> {
        Err(Error::Internal { message: "boom".to_string() })
    }
}

fn full_name() -> Computed {
    Computed { language: "cel".to_string(), expression: "first_name + last_name".to_string() }
}

#[test]
fn materialize_computed_ignores_plain_object_without_evaluator() {
    let mut record = empty_record();
    let props = vec![property("full_name", None)];
    materialize_computed(&mut record, &ApiName::new_unchecked("person"), &props, None).expect("no computed fields");
}

#[test]
fn materialize_computed_requires_evaluator_for_computed_property() {
    let mut record = empty_record();
    let props = vec![property("full_name", Some(full_name()))];
    let error = materialize_computed(&mut record, &ApiName::new_unchecked("person"), &props, None)
        .expect_err("computed fields require an evaluator");
    assert!(error.text().contains("computed evaluator"));
    assert_eq!(error.text(), "unsupported: computed property 'full_name' requires a computed evaluator");
}

#[test]
fn evaluator_values_are_written_back() {
    let mut record = empty_record();
    record.values.insert("first_name".to_string(), serde_json::Value::from("Ada"));
    record.values.insert("last_name".to_string(), serde_json::Value::from("Lovelace"));
    let props = vec![property("first_name", None), property("full_name", Some(full_name()))];
    materialize_computed(&mut record, &ApiName::new_unchecked("person"), &props, Some(&Joiner as &dyn ComputedEvaluator)).unwrap();
    assert_eq!(record.values.get("full_name"), Some(&serde_json::Value::from("Ada Lovelace")));
    assert_eq!(record.values.get("first_name"), Some(&serde_json::Value::from("Ada")));
}

#[test]
fn evaluator_errors_are_returned_and_record_kept() {
    let mut record = empty_record();
    record.values.insert("first_name".to_string(), serde_json::Value::from("Ada"));
    let props = vec![property("full_name", Some(full_name()))];
    let err = materialize_computed(&mut record, &ApiName::new_unchecked("person"), &props, Some(&Failing as &dyn ComputedEvaluator)).unwrap_err();
    assert_eq!(err.text(), "internal error: boom");
    assert!(record.values.get("full_name").is_none());
    assert_eq!(record.values.len(), 1);
}

#[test]
fn store_computed_inserts_only_on_success() {
    let mut record = empty_record();
    let name = ApiName::new_unchecked("score");
    assert!(store_computed(&mut record, &name, Ok(serde_json::Value::from(7))).is_ok());
    assert_eq!(record.values.get("score"), Some(&serde_json::Value::from(7)));
    let err = store_computed(&mut record, &name, Err(Error::Internal { message: "x".to_string() }));
    assert!(err.is_err());
    assert_eq!(record.values.get("score"), Some(&serde_json::Value::from(7)));
}
