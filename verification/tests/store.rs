use tesela::store::{
    max_query_limit, memory_store_capabilities, query_limit, resolve_offset,
    rows_affected_count, string_match, AggregationFunction, TextTest,
};
use tesela::text::like_match;

#[test]
fn limits_default_and_clamp() {
    assert_eq!(query_limit(None), 1000);
    assert_eq!(query_limit(Some(-5)), 0);
    assert_eq!(query_limit(Some(25)), 25);
    assert_eq!(max_query_limit(None), 1000);
    assert_eq!(max_query_limit(Some(50)), 50);
}

#[test]
fn offset_prefers_a_numeric_cursor() {
    assert_eq!(resolve_offset(Some("40"), Some(3)), 40);
    assert_eq!(resolve_offset(Some("abc"), Some(3)), 3);
    assert_eq!(resolve_offset(None, Some(-2)), 0);
    assert_eq!(resolve_offset(None, None), 0);
}

#[test]
fn rows_affected_defaults_to_zero() {
    assert_eq!(rows_affected_count(Some(7)), 7);
    assert_eq!(rows_affected_count(None), 0);
}

#[test]
fn memory_store_cannot_execute_actions() {
    let caps = memory_store_capabilities();
    assert!(caps.search && caps.aggregate && caps.traverse);
    assert!(!caps.execute_action);
    assert_eq!(AggregationFunction::Avg.as_sql_name(), "AVG");
    assert_eq!(AggregationFunction::Count.as_sql_name(), "COUNT");
}

#[test]
fn like_patterns() {
    assert!(like_match("anything", "%"));
    assert!(like_match("abc", "abc"));
    assert!(!like_match("abcd", "abc"));
    assert!(like_match("hello world", "hello%"));
    assert!(like_match("hello world", "%world"));
    assert!(like_match("hello world", "h%o%d"));
    assert!(!like_match("hello world", "%z%"));
    assert!(!like_match("ab", "b%a"));
    // the match is not anchored: the pieces only need to occur in order
    assert!(like_match("xabcx", "abc%"));
}

#[test]
fn text_filters_need_two_strings() {
    let field = serde_json::Value::from("Ada Lovelace");
    let num = serde_json::Value::from(3);
    assert!(string_match(Some(&field), Some(&serde_json::Value::from("Love")), TextTest::Contains));
    assert!(!string_match(Some(&field), Some(&serde_json::Value::from("love")), TextTest::Contains));
    assert!(string_match(Some(&field), Some(&serde_json::Value::from("Ada")), TextTest::StartsWith));
    assert!(!string_match(Some(&field), Some(&serde_json::Value::from("Love")), TextTest::StartsWith));
    assert!(string_match(Some(&field), Some(&serde_json::Value::from("A%e")), TextTest::Like));
    assert!(!string_match(Some(&num), Some(&serde_json::Value::from("3")), TextTest::Contains));
    assert!(!string_match(None, Some(&field), TextTest::Contains));
    assert!(!string_match(Some(&field), None, TextTest::Like));
}
