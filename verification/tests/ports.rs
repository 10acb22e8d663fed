use tesela::ir::Operation;
use tesela::ports::{
    Clock, SystemClock,
    Actor, AllowAllPolicy, DefaultIdGenerator, DenyAllPolicy, Event, EventBus, IdGenerator,
    NoopEventBus, PolicyEngine, PolicyRequest,
};
use tesela::primitives::{ApiName, StringMap};

fn request(operation: Operation, resource: &str) -> PolicyRequest {
    PolicyRequest {
        actor: Actor { user_id: "u1".to_string(), roles: Vec::new(), claims: StringMap::new() },
        operation,
        resource_kind: "object_type".to_string(),
        resource: ApiName::new_unchecked(resource),
        context: StringMap::new(),
    }
}

#[test]
fn allow_all_allows() {
    let d = AllowAllPolicy.evaluate(&request(Operation::Search, "users")).unwrap();
    assert!(d.allow);
    assert!(d.reason.is_none());
}

#[test]
fn deny_all_explains_the_denial() {
    let d = DenyAllPolicy.evaluate(&request(Operation::Mutate, "orders")).unwrap();
    assert!(!d.allow);
    assert_eq!(d.reason.as_deref(), Some("no policy engine allowed Mutate on orders"));
}

#[test]
fn default_ids_carry_the_prefix() {
    let id = DefaultIdGenerator.new_id("run").unwrap();
    assert!(id.starts_with("run_"));
    assert_eq!(id.len(), 40);
    let uuid: Vec<char> = id["run_".len()..].chars().collect();
    for (i, c) in uuid.iter().enumerate() {
        if [8, 13, 18, 23].contains(&i) {
            assert_eq!(*c, '-');
        } else {
            assert!(c.is_ascii_digit() || ('a'..='f').contains(c));
        }
    }
    assert_eq!(uuid[14], '4');
    assert!(['8', '9', 'a', 'b'].contains(&uuid[19]));
    assert_ne!(id, DefaultIdGenerator.new_id("run").unwrap());
}

#[test]
fn noop_bus_accepts_events() {
    let event = Event {
        id: "e".to_string(),
        kind: "k".to_string(),
        workspace: "w".to_string(),
        object_type: None,
        actor_user_id: "u".to_string(),
        occurred_at: "now".to_string(),
        payload: StringMap::new(),
        event_type: None,
        topic: None,
        correlation_id: None,
        causation_id: None,
    };
    assert!(NoopEventBus.publish(event).is_ok());
}

#[test]
fn system_clock_gives_rfc3339_text() {
    let now = SystemClock.now().unwrap();
    assert!(now.len() >= 20);
    assert_eq!(&now[4..5], "-");
    assert!(now.contains('T'));
    assert!(now.ends_with("+00:00"));
}
