use tesela::primitives::{Error, StringMap};
use tesela::workflow::{Machine, State, TransitionDef, TransitionGuard};

struct NoGuard;

impl TransitionGuard for NoGuard {
    fn check(&self, _data: &StringMap<serde_json::Value>) -> Result<(), Error> {
        Ok(())
    }
}

struct Deny;

impl TransitionGuard for Deny {
    fn check(&self, _data: &StringMap<serde_json::Value>) -> Result<(), Error> {
        Err(Error::Validation { message: "blocked by guard".to_string() })
    }
}

fn edge<G>(from: &str, to: &str, event: &str) -> TransitionDef<G> {
    TransitionDef { from: State::new(from), to: State::new(to), event: event.to_string(), guard: None }
}

fn branch_machine() -> Machine<NoGuard> {
    Machine::new(
        "branch",
        State::new("draft"),
        vec![
            edge("draft", "review", "submit"),
            edge("review", "merged", "approve"),
            edge("review", "draft", "revise"),
            edge("draft", "discarded", "discard"),
            edge("review", "discarded", "discard"),
        ],
    )
}

#[test]
fn valid_transition() {
    let m = branch_machine();
    let s = m.transition(&State::new("draft"), "submit", &StringMap::new()).unwrap();
    assert_eq!(s, State::new("review"));
}

#[test]
fn undefined_transition_errors() {
    let m = branch_machine();
    assert!(m.transition(&State::new("merged"), "submit", &StringMap::new()).is_err());
}

#[test]
fn guard_can_block() {
    let m = Machine::new(
        "test",
        State::new("a"),
        vec![TransitionDef { from: State::new("a"), to: State::new("b"), event: "go".to_string(), guard: Some(Deny) }],
    );
    assert!(m.transition(&State::new("a"), "go", &StringMap::new()).is_err());
}

#[test]
fn can_transition_check() {
    let m = branch_machine();
    assert!(m.can_transition(&State::new("draft"), "submit"));
    assert!(!m.can_transition(&State::new("draft"), "approve"));
}

#[test]
fn guard_error_is_wrapped_in_a_validation_error() {
    let m = Machine::new(
        "test",
        State::new("a"),
        vec![TransitionDef { from: State::new("a"), to: State::new("b"), event: "go".to_string(), guard: Some(Deny) }],
    );
    match m.transition(&State::new("a"), "go", &StringMap::new()) {
        Err(Error::Validation { message }) => assert!(message.contains("blocked by guard")),
        other => panic!("unexpected outcome: {:?}", other.map(|s| s.0)),
    }
}

#[test]
fn states_lists_each_endpoint_once() {
    let m = branch_machine();
    let states = m.states();
    let names: Vec<&str> = states.iter().map(|s| s.0.as_str()).collect();
    assert_eq!(names.len(), 4);
    for expected in ["draft", "review", "merged", "discarded"] {
        assert_eq!(names.iter().filter(|n| **n == expected).count(), 1);
    }
}

#[test]
fn valid_transitions_from_review() {
    let m = branch_machine();
    let events: Vec<&str> = m.valid_transitions(&State::new("review")).iter().map(|t| t.event.as_str()).collect();
    assert_eq!(events, vec!["approve", "revise", "discard"]);
}
