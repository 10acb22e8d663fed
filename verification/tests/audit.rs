use tesela::audit::{
    audit_record, decision_outcome, emitted_events, evaluate_policy_request, open_decision, operation_event,
    traverse_datasource,
};
use tesela::ir::{LinkCardinality, LinkSource, LinkType};
use tesela::ir::Operation;
use tesela::ports::{Actor, DenyAllPolicy, PolicyDecision, PolicyEngine, PolicyRequest};
use tesela::primitives::{ApiName, Error, StringMap};

fn actor() -> Actor {
    Actor { user_id: "alice".to_string(), roles: Vec::new(), claims: StringMap::new() }
}

fn request() -> PolicyRequest {
    PolicyRequest {
        actor: actor(),
        operation: Operation::Delete,
        resource_kind: "object_type".to_string(),
        resource: ApiName::new_unchecked("orders"),
        context: StringMap::new(),
    }
}

#[test]
fn no_engine_allows() {
    let d = evaluate_policy_request(None, &request()).unwrap();
    assert!(d.allow);
    assert!(d.reason.is_none());
    assert!(open_decision().redactions.is_empty());
}

#[test]
fn engine_decides_when_present() {
    let deny = DenyAllPolicy;
    let d = evaluate_policy_request(Some(&deny as &dyn PolicyEngine), &request()).unwrap();
    assert!(!d.allow);
    match decision_outcome(d) {
        Err(Error::PolicyDenied { message }) => assert_eq!(message, "no policy engine allowed Delete on orders"),
        other => panic!("unexpected {:?}", other),
    }
}

#[test]
fn denial_without_reason_says_policy_denied() {
    let d = PolicyDecision { allow: false, reason: None, row_filter: None, redactions: Vec::new() };
    assert_eq!(decision_outcome(d).unwrap_err().text(), "policy denied: policy denied");
    let ok = PolicyDecision { allow: true, reason: Some("fine".to_string()), row_filter: None, redactions: Vec::new() };
    assert_eq!(decision_outcome(ok).unwrap().reason.as_deref(), Some("fine"));
}

#[test]
fn audit_record_and_event_describe_the_operation() {
    let rec = audit_record("audit_1".to_string(), "t".to_string(), &actor(), Operation::Search, "object_type", &ApiName::new_unchecked("users"), false, 0);
    assert_eq!(rec.operation, "Search");
    assert_eq!(rec.decision, "deny");
    assert_eq!(rec.resource, "users");
    assert_eq!(rec.result_count, Some(0));
    let ok = audit_record("audit_2".to_string(), "t".to_string(), &actor(), Operation::Read, "object_type", &ApiName::new_unchecked("users"), true, 3);
    assert_eq!(ok.decision, "allow");
    let ev = operation_event("evt_1".to_string(), "t".to_string(), &actor(), Operation::Execute, "acme", &ApiName::new_unchecked("users"));
    assert_eq!(ev.kind, "Execute");
    assert_eq!(ev.object_type.as_deref(), Some("users"));
    assert_eq!(ev.workspace, "acme");
    assert_eq!(ev.payload.len(), 0);
}

fn link(datasource: Option<&str>, with_source: bool) -> LinkType {
    LinkType {
        api_name: ApiName::new_unchecked("owns"),
        display: None,
        from: ApiName::new_unchecked("person"),
        to: ApiName::new_unchecked("car"),
        cardinality: LinkCardinality::OneToMany,
        source: if with_source {
            Some(LinkSource { datasource: datasource.map(ApiName::new_unchecked), resource: None })
        } else {
            None
        },
        mappings: Vec::new(),
        junction: None,
        deprecated_at: None,
        metadata: None,
    }
}

#[test]
fn traversal_prefers_the_link_datasource() {
    let name = ApiName::new_unchecked("owns");
    let target = ApiName::new_unchecked("warehouse");
    assert_eq!(traverse_datasource(&name, &link(Some("graph"), true), Some(&target)).unwrap().as_str(), "graph");
    assert_eq!(traverse_datasource(&name, &link(None, true), Some(&target)).unwrap().as_str(), "warehouse");
    assert_eq!(traverse_datasource(&name, &link(None, false), Some(&target)).unwrap().as_str(), "warehouse");
    let err = traverse_datasource(&name, &link(None, false), None).unwrap_err();
    assert_eq!(err.text(), "validation error: link 'owns' has no datasource");
}

#[test]
fn emitted_events_mirror_the_operation() {
    let (audit, event) = emitted_events(&actor(), "search", "object_type", &ApiName::new_unchecked("users"), true, 4);
    assert_eq!(audit.actor_id, "alice");
    assert_eq!(audit.operation, "search");
    assert!(audit.success);
    assert_eq!(audit.result_count, 4);
    assert_eq!(event.kind, "search");
    assert_eq!(event.resource, "users");
}
