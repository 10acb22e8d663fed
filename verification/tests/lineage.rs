use tesela::lineage::{build_produces_edge, mutation_lineage, MemoryLineageStore, ProducesEdgeParams};
use tesela::ports::DefaultIdGenerator;
use tesela::primitives::ApiName;
use tesela::runtime::LineageKind;

fn edge(id: &str, src: &str, src_pk: i64, dst: &str, dst_pk: i64) -> tesela::lineage::LineageRecord {
    build_produces_edge(ProducesEdgeParams {
        id: id.to_string(),
        source_object_type: ApiName::new_unchecked(src),
        source_pk: serde_json::Value::from(src_pk),
        target_object_type: ApiName::new_unchecked(dst),
        target_pk: serde_json::Value::from(dst_pk),
        actor_user_id: "u1".to_string(),
        occurred_at: "2024-01-01T00:00:00Z".to_string(),
        pipeline: None,
    })
}

fn chain() -> MemoryLineageStore {
    let mut store = MemoryLineageStore::new();
    store.record(edge("e1", "a", 1, "b", 2));
    store.record(edge("e2", "b", 2, "c", 3));
    store.record(edge("e3", "c", 3, "d", 4));
    store.record(edge("e4", "x", 9, "y", 9));
    store
}

fn ids(records: &[tesela::lineage::LineageRecord]) -> Vec<String> {
    records.iter().map(|r| r.id.clone()).collect()
}

#[test]
fn produces_edge_has_produces_kind() {
    let e = edge("e1", "a", 1, "b", 2);
    assert_eq!(e.edge_kind, LineageKind::Produces);
    assert_eq!(e.source_object_type.as_str(), "a");
    assert_eq!(e.target_pk, serde_json::Value::from(2));
    assert!(e.pipeline.is_none());
}

#[test]
fn empty_store_has_no_lineage() {
    let store = MemoryLineageStore::new();
    let found = store.query_lineage(&ApiName::new_unchecked("a"), &serde_json::Value::from(1), None);
    assert!(found.is_empty());
}

#[test]
fn one_hop_finds_direct_edges_only() {
    let store = chain();
    let found = store.query_lineage(&ApiName::new_unchecked("b"), &serde_json::Value::from(2), Some(1));
    assert_eq!(ids(&found), vec!["e1", "e2"]);
}

#[test]
fn unbounded_walk_follows_the_chain() {
    let store = chain();
    let found = store.query_lineage(&ApiName::new_unchecked("a"), &serde_json::Value::from(1), None);
    // hop 1 from a:1 finds e1; hop 2 from b:2 finds e1 again and e2;
    // hop 3 from a:1 (visited) and c:3 finds e2, e3; hop 4 from b:2 (visited) and d:4 finds e3.
    assert_eq!(ids(&found), vec!["e1", "e1", "e2", "e2", "e3", "e3"]);
}

#[test]
fn zero_depth_finds_nothing() {
    let store = chain();
    let found = store.query_lineage(&ApiName::new_unchecked("a"), &serde_json::Value::from(1), Some(0));
    assert!(found.is_empty());
}

#[test]
fn primary_keys_must_match_exactly() {
    let store = chain();
    let found = store.query_lineage(&ApiName::new_unchecked("a"), &serde_json::Value::from("1"), None);
    assert!(found.is_empty());
}

#[test]
fn mutation_lineage_links_each_source_to_the_record() {
    let sources = vec![ApiName::new_unchecked("raw_orders"), ApiName::new_unchecked("raw_refunds")];
    let edges = mutation_lineage(
        &ApiName::new_unchecked("orders"),
        &Some(serde_json::Value::from(7)),
        &sources,
        "u1",
        "t0",
        &DefaultIdGenerator,
    )
    .unwrap();
    assert_eq!(edges.len(), 2);
    assert_eq!(edges[1].source_object_type.as_str(), "raw_refunds");
    assert_eq!(edges[0].target_object_type.as_str(), "orders");
    assert_eq!(edges[0].source_pk, serde_json::Value::from(7));
    assert_eq!(edges[0].edge_kind, LineageKind::Produces);
    assert!(edges[0].id.starts_with("lin_"));
    assert_ne!(edges[0].id, edges[1].id);

    let unknown = mutation_lineage(&ApiName::new_unchecked("orders"), &None, &sources, "u1", "t0", &DefaultIdGenerator).unwrap();
    assert_eq!(unknown[0].target_pk, serde_json::Value::from("unknown"));
}

/// A generator whose random source is gone.
struct Exhausted;

impl tesela::ports::IdGenerator for Exhausted {
    fn new_id(&self, _prefix: &str) -> Result<String, tesela::primitives::Error> {
        Err(tesela::primitives::Error::Internal { message: "could not retrieve random bytes for uuid".to_string() })
    }
}

#[test]
fn mutation_lineage_passes_on_the_generator_error() {
    let sources = vec![ApiName::new_unchecked("raw_orders")];
    let failed = mutation_lineage(&ApiName::new_unchecked("orders"), &None, &sources, "u1", "t0", &Exhausted);
    assert!(failed.is_err());
    let none = mutation_lineage(&ApiName::new_unchecked("orders"), &None, &Vec::new(), "u1", "t0", &Exhausted);
    assert!(none.unwrap().is_empty());
}
