use tesela::primitives::{ApiName, Error, StringMap};
use tesela::records::{apply_redactions, compose_pages, redact, render_template, Page, SetOp};
use tesela::versioning::Record;

fn record(pk: i64, field: &str) -> Record {
    let mut values = StringMap::new();
    values.insert(field.to_string(), serde_json::Value::from(pk));
    values.insert("secret".to_string(), serde_json::Value::from("x"));
    Record { primary_key: Some(serde_json::Value::from(pk)), values }
}

fn page(pks: &[i64]) -> Page {
    Page { records: pks.iter().map(|pk| record(*pk, "id")).collect(), next_cursor: None }
}

fn keys(records: &[Record]) -> Vec<i64> {
    records.iter().map(|r| r.primary_key.as_ref().unwrap().as_i64().unwrap()).collect()
}

#[test]
fn union_concatenates_pages() {
    assert_eq!(keys(&compose_pages(vec![page(&[1, 2]), page(&[2, 3])], SetOp::Union)), vec![1, 2, 2, 3]);
}

#[test]
fn intersect_keeps_records_in_every_page() {
    assert_eq!(keys(&compose_pages(vec![page(&[1, 2, 3]), page(&[3, 2]), page(&[2, 9])], SetOp::Intersect)), vec![2]);
}

#[test]
fn subtract_drops_records_of_later_pages() {
    assert_eq!(keys(&compose_pages(vec![page(&[1, 2, 3]), page(&[2]), page(&[3])], SetOp::Subtract)), vec![1]);
}

#[test]
fn composing_no_pages_gives_nothing() {
    assert!(compose_pages(Vec::new(), SetOp::Intersect).is_empty());
    assert!(compose_pages(Vec::new(), SetOp::Union).is_empty());
}

#[test]
fn redact_removes_fields() {
    let mut records = vec![record(1, "id"), record(2, "id")];
    redact(&mut records, &vec![ApiName::new_unchecked("secret")]);
    assert!(records.iter().all(|r| !r.values.contains_key("secret") && r.values.contains_key("id")));
}

#[test]
fn apply_redactions_nulls_fields() {
    let mut r = record(1, "id");
    apply_redactions(&mut r, &vec![ApiName::new_unchecked("secret"), ApiName::new_unchecked("other")]);
    assert_eq!(r.values.get("secret"), Some(&serde_json::Value::Null));
    assert_eq!(r.values.get("other"), Some(&serde_json::Value::Null));
    assert_eq!(r.values.get("id"), Some(&serde_json::Value::from(1)));
}

#[test]
fn templates_fill_placeholders() {
    let mut params = StringMap::new();
    params.insert("tenant".to_string(), serde_json::Value::from("acme"));
    params.insert("id".to_string(), serde_json::Value::from(42));
    assert_eq!(render_template("files/{tenant}/{id}.pdf", &params).unwrap(), "files/acme/42.pdf");
    assert_eq!(render_template("{id}-{id}", &params).unwrap(), "42-42");
    match render_template("files/{missing}", &params) {
        Err(Error::Validation { message }) => assert_eq!(message, "unresolved template placeholders in 'files/{missing}'"),
        _ => panic!("expected an unresolved placeholder"),
    }
}
