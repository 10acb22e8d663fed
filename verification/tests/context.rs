use std::cell::RefCell;
use std::rc::Rc;

use tesela::context::{ContextEngineer, Message, ModelProvider, ModelRequest, ModelResponse, RollingCompactor};
use tesela::primitives::Error;

/// A summarizer that answers "short" and keeps the excerpts it was asked
/// to summarise.
struct RecordingSummarizer {
    excerpts: Rc<RefCell<Vec<String>>>,
}

impl RecordingSummarizer {
    fn new() -> (Self, Rc<RefCell<Vec<String>>>) {
        let log = Rc::new(RefCell::new(Vec::new()));
        (RecordingSummarizer { excerpts: log.clone() }, log)
    }
}

impl ModelProvider for RecordingSummarizer {
    fn call(&self, request: ModelRequest) -> Result<ModelResponse, Error> {
        assert_eq!(request.system, "Summarise the following conversation excerpt concisely.");
        assert_eq!(request.max_tokens, Some(512));
        let content = request.messages[0].get("content").and_then(|v| v.as_str()).unwrap_or("").to_string();
        self.excerpts.borrow_mut().push(content);
        Ok(ModelResponse { content: "short".to_string(), tool_calls: Vec::new(), tokens_used: None, structured_output: None })
    }
}

/// A summarizer that must not be asked.
struct Untouched;

impl ModelProvider for Untouched {
    fn call(&self, _request: ModelRequest) -> Result<ModelResponse, Error> {
        panic!("no summary was needed")
    }
}

fn msg(role: &str, content: &str) -> Message {
    Message { role: role.to_string(), content: content.to_string(), tool_calls: Vec::new(), tool_call_id: None }
}

fn texts(ms: &[Message]) -> Vec<(String, String)> {
    ms.iter().map(|m| (m.role.clone(), m.content.clone())).collect()
}

#[test]
fn system_messages_are_never_dropped() {
    let engineer = ContextEngineer::new(0, Untouched);
    let messages = vec![msg("system", "You follow the house rules at all times.")];
    let out = engineer.compact(&messages).unwrap();
    assert_eq!(texts(&out), texts(&messages));
}

#[test]
fn a_fitting_conversation_is_left_alone() {
    let engineer = ContextEngineer::new(100, Untouched);
    let messages = vec![msg("system", "rules"), msg("user", "hello"), msg("assistant", "hi")];
    assert_eq!(ContextEngineer::<Untouched>::estimate_tokens(&messages), 5);
    let out = engineer.compact(&messages).unwrap();
    assert_eq!(texts(&out), texts(&messages));
}

fn long_history() -> Vec<Message> {
    let mut messages = vec![msg("system", "sys"), msg("user", &"a".repeat(40)), msg("assistant", &"b".repeat(40))];
    for _ in 0..6 {
        messages.push(msg("user", "c"));
    }
    messages
}

#[test]
fn dropped_runs_are_replaced_by_the_summary_of_that_run() {
    let (summarizer, log) = RecordingSummarizer::new();
    let engineer = ContextEngineer::new(8, summarizer);
    let messages = long_history();
    let out = engineer.compact(&messages).unwrap();
    let mut expected = vec![
        ("system".to_string(), "sys".to_string()),
        ("system".to_string(), "[context summary] short".to_string()),
    ];
    for _ in 0..6 {
        expected.push(("user".to_string(), "c".to_string()));
    }
    assert_eq!(texts(&out), expected);
    let excerpts = log.borrow();
    assert_eq!(excerpts.len(), 1);
    assert_eq!(excerpts[0], format!("[user]: {}\n[assistant]: {}", "a".repeat(40), "b".repeat(40)));
}

#[test]
fn a_rolling_step_summarises_the_oldest_non_system_window() {
    let messages = long_history();
    let (roomy, roomy_log) = RecordingSummarizer::new();
    assert!(RollingCompactor::new(1000, roomy).step(&messages).unwrap().is_none());
    assert!(roomy_log.borrow().is_empty());
    let (tight, log) = RecordingSummarizer::new();
    let stepped = RollingCompactor::new(5, tight).step(&messages).unwrap().unwrap();
    assert_eq!(
        texts(&stepped),
        vec![
            ("system".to_string(), "sys".to_string()),
            ("system".to_string(), "[context summary] short".to_string()),
        ]
    );
    let mut excerpt = format!("[user]: {}\n[assistant]: {}", "a".repeat(40), "b".repeat(40));
    for _ in 0..6 {
        excerpt.push_str("\n[user]: c");
    }
    assert_eq!(log.borrow().as_slice(), &[excerpt]);
}

/// A summarizer that always fails.
struct Down;

impl ModelProvider for Down {
    fn call(&self, _request: ModelRequest) -> Result<ModelResponse, Error> {
        Err(Error::Internal { message: "model down".to_string() })
    }
}

#[test]
fn compaction_fails_only_with_the_summarizers_error() {
    let engineer = ContextEngineer::new(8, Down);
    match engineer.compact(&long_history()) {
        Err(e) => assert_eq!(e.text(), "internal error: model down"),
        Ok(_) => panic!("a summary was needed"),
    }
    let roomy = ContextEngineer::new(1000, Down);
    assert_eq!(roomy.compact(&long_history()).unwrap().len(), 9);
}
