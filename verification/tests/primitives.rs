use tesela::primitives::{text_before, StringMap};

#[test]
fn map_entries_come_in_key_order() {
    let mut m: StringMap<serde_json::Value> = StringMap::new();
    m.insert("beta".to_string(), serde_json::Value::from(2));
    m.insert("alpha".to_string(), serde_json::Value::from(1));
    m.insert("gamma".to_string(), serde_json::Value::from(3));
    m.insert("alpha".to_string(), serde_json::Value::from(10));
    let keys: Vec<&str> = m.entries().iter().map(|(k, _)| k.as_str()).collect();
    assert_eq!(keys, vec!["alpha", "beta", "gamma"]);
    assert_eq!(m.get("alpha"), Some(&serde_json::Value::from(10)));
    assert_eq!(m.len(), 3);
}

#[test]
fn text_order_is_that_of_str() {
    for (a, b) in [("a", "b"), ("ab", "abc"), ("", "x"), ("Z", "a"), ("é", "z"), ("same", "same"), ("b", "a")] {
        assert_eq!(text_before(a, b), a < b, "{a:?} before {b:?}");
    }
}
