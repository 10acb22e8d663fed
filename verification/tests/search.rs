use tesela::primitives::{ApiName, StringMap};
use tesela::records::Page;
use tesela::search::{finish_search_page, search_limit, search_query, Filter, Query};
use tesela::versioning::Record;

fn condition(text: &str) -> Filter {
    Filter::Condition(serde_json::Value::from(text))
}

fn condition_text(f: &Filter) -> String {
    match f {
        Filter::Condition(v) => v.as_str().unwrap().to_string(),
        Filter::And(_) => panic!("a condition"),
    }
}

#[test]
fn search_limit_caps_requests_and_fills_in_an_absent_limit() {
    assert_eq!(search_limit(Some(5000), 1000), Some(1000));
    assert_eq!(search_limit(Some(10), 1000), Some(10));
    assert_eq!(search_limit(Some(1000), 1000), Some(1000));
    assert_eq!(search_limit(None, 1000), Some(1000));
}

#[test]
fn a_row_filter_becomes_the_filter_of_an_unfiltered_query() {
    let q = search_query(Query::empty(), Some(condition("tenant = 7")), 100);
    assert_eq!(q.limit, Some(100));
    assert_eq!(condition_text(q.filter.as_ref().unwrap()), "tenant = 7");
}

#[test]
fn a_row_filter_is_joined_to_the_query_filter() {
    let mut query = Query::empty();
    query.filter = Some(condition("status = open"));
    query.limit = Some(5);
    query.offset = Some(20);
    let q = search_query(query, Some(condition("tenant = 7")), 100);
    assert_eq!(q.limit, Some(5));
    assert_eq!(q.offset, Some(20));
    match q.filter {
        Some(Filter::And(parts)) => {
            assert_eq!(parts.len(), 2);
            assert_eq!(condition_text(&parts[0]), "status = open");
            assert_eq!(condition_text(&parts[1]), "tenant = 7");
        },
        other => panic!("expected both filters, got {other:?}"),
    }
}

#[test]
fn without_a_row_filter_the_query_filter_is_kept() {
    let mut query = Query::empty();
    query.filter = Some(condition("status = open"));
    let q = search_query(query, None, 100);
    assert_eq!(condition_text(q.filter.as_ref().unwrap()), "status = open");
    assert_eq!(q.limit, Some(100));
}

#[test]
fn redacted_fields_are_dropped_from_every_record() {
    let mut records = Vec::new();
    for id in 0..2 {
        let mut values = StringMap::new();
        values.insert("id".to_string(), serde_json::Value::from(id));
        values.insert("ssn".to_string(), serde_json::Value::from("secret"));
        records.push(Record { primary_key: Some(serde_json::Value::from(id)), values });
    }
    let page = finish_search_page(Page { records, next_cursor: Some("2".to_string()) }, &vec![ApiName::new_unchecked("ssn")]);
    assert_eq!(page.records.len(), 2);
    assert_eq!(page.next_cursor, Some("2".to_string()));
    for (i, r) in page.records.iter().enumerate() {
        assert_eq!(r.primary_key, Some(serde_json::Value::from(i as i64)));
        assert!(r.values.get("ssn").is_none());
        assert_eq!(r.values.get("id"), Some(&serde_json::Value::from(i as i64)));
    }
}
