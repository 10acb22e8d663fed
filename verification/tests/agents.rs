use tesela::agent_loop::{AgentAction, AgentLoop, AgentPhase};
use tesela::agent_tools::{channel_tools, memory_tools, ontology_tools, subagent_tools};
use tesela::agents::{
    build_system_prompt, plan_tool_call, should_compact, tool_operation, turn_request, AgentPorts,
    ToolInvocation,
};
use tesela::context::{Message, ModelResponse, ToolCall};
use tesela::ir::{Agent, AgentLimits, Operation};
use tesela::primitives::{ApiName, Error};

#[test]
fn ontology_tools_expose_runtime_primitives() {
    let tools = ontology_tools();
    let names = tools.iter().map(|tool| tool.name.as_str()).collect::<Vec<_>>();

    assert!(names.contains(&"tesela.spec"));
    assert!(names.contains(&"tesela.search"));
    assert!(names.contains(&"tesela.get"));
    assert!(names.contains(&"tesela.traverse"));
    assert!(names.contains(&"tesela.actions.list"));
    assert!(tools.iter().all(|tool| {
        tool.parameters
            .as_object()
            .and_then(|schema| schema.get("type"))
            .and_then(serde_json::Value::as_str)
            == Some("object")
    }),);
}

#[test]
fn catalog_schemas_parse() {
    for tool in memory_tools().iter().chain(channel_tools().iter()).chain(subagent_tools().iter()) {
        assert!(tool.parameters.get("required").is_some(), "{}", tool.name);
    }
    assert_eq!(memory_tools()[0].name, "memory_remember");
    assert_eq!(channel_tools()[1].name, "channel_receive");
    assert_eq!(subagent_tools()[1].name, "subagent_wait");
}

fn ports() -> AgentPorts {
    AgentPorts {
        planner: false,
        compactor: false,
        memory_store: true,
        channel: false,
        subagent_runtime: false,
        approval_provider: false,
        policy_evaluator: false,
    }
}

fn agent(name: &str) -> Agent {
    Agent {
        api_name: ApiName::new_unchecked(name),
        display: None,
        description: None,
        model: None,
        model_provider: None,
        instructions: Some("Be brief.".to_string()),
        allowed_tools: Vec::new(),
        custom_tools: Vec::new(),
        context_sources: Vec::new(),
        memory: None,
        limits: None,
        requires_approval: None,
        deprecated_at: None,
        metadata: None,
        capabilities: Vec::new(),
        output_schema: None,
        output_object_type: None,
    }
}

fn call(name: &str, arguments: &str) -> ToolCall {
    ToolCall { name: name.to_string(), id: format!("id-{name}"), arguments: arguments.to_string() }
}

#[test]
fn system_prompt_lists_tools() {
    let prompt = build_system_prompt(&ApiName::new_unchecked("helper"), &Some("Be brief.".to_string()), &channel_tools());
    assert_eq!(
        prompt,
        "You are the agent 'helper'.\nInstructions: Be brief.\n\nAvailable tools:\n- channel_send: Send a message to a channel.\n- channel_receive: Receive a message from a channel.\n"
    );
    let bare = build_system_prompt(&ApiName::new_unchecked("helper"), &None, &Vec::new());
    assert_eq!(bare, "You are the agent 'helper'.\nInstructions: \n\n");
}

#[test]
fn tool_prefixes_map_to_operations() {
    assert_eq!(tool_operation("search_users"), Operation::Search);
    assert_eq!(tool_operation("get_user"), Operation::Read);
    assert_eq!(tool_operation("mutate_user"), Operation::Mutate);
    assert_eq!(tool_operation("aggregate_orders"), Operation::Aggregate);
    assert_eq!(tool_operation("traverse_links"), Operation::Traverse);
    assert_eq!(tool_operation("execute_job"), Operation::Execute);
    assert_eq!(tool_operation("memory_recall"), Operation::Search);
}

#[test]
fn tool_calls_become_port_invocations() {
    match plan_tool_call(&call("memory_remember", "{\"key\": \"k\", \"value\": \"v\"}"), ports()) {
        ToolInvocation::Remember { key, value } => {
            assert_eq!(key, "k");
            assert_eq!(value, "v");
        },
        _ => panic!("expected remember"),
    }
    match plan_tool_call(&call("memory_recall", "not json"), ports()) {
        ToolInvocation::Recall { key } => assert_eq!(key, ""),
        _ => panic!("expected recall"),
    }
    match plan_tool_call(&call("channel_send", "{}"), ports()) {
        ToolInvocation::Reply { text } => assert_eq!(text, "unknown tool: channel_send"),
        _ => panic!("a tool without its port is unknown"),
    }
    let mut with_channel = ports();
    with_channel.channel = true;
    with_channel.subagent_runtime = true;
    match plan_tool_call(&call("channel_receive", "{\"channel\": \"c\"}"), with_channel) {
        ToolInvocation::Receive { channel, timeout_ms } => {
            assert_eq!(channel, "c");
            assert_eq!(timeout_ms, 5000);
        },
        _ => panic!("expected receive"),
    }
    match plan_tool_call(&call("subagent_spawn", "{\"agent_name\": \"worker\"}"), with_channel) {
        ToolInvocation::Reply { text } => assert_eq!(text, "spawned worker"),
        _ => panic!("expected a reply"),
    }
    match plan_tool_call(&call("subagent_wait", "{\"run_id\": \"r1\", \"timeout_ms\": 10}"), with_channel) {
        ToolInvocation::Wait { run_id, timeout_ms } => {
            assert_eq!(run_id, "r1");
            assert_eq!(timeout_ms, 10);
        },
        _ => panic!("expected wait"),
    }
}

fn message(role: &str, content: &str) -> Message {
    Message { role: role.to_string(), content: content.to_string(), tool_calls: Vec::new(), tool_call_id: None }
}

#[test]
fn turn_request_separates_the_system_prompt() {
    let messages = vec![message("system", "sys"), message("user", "hi"), message("system", "later"), message("assistant", "yo")];
    let request = turn_request(&messages, &memory_tools(), Some(100));
    assert_eq!(request.system, "sys");
    assert_eq!(request.messages.len(), 2);
    assert_eq!(request.messages[1].get("content"), Some(&serde_json::Value::from("yo")));
    assert_eq!(request.tools.len(), 4);
    assert_eq!(request.max_tokens, Some(100));
}

#[test]
fn compaction_is_due_past_the_budget_or_the_threshold() {
    let long = vec![message("user", &"x".repeat(400))];
    assert!(should_compact(&long, Some(50)));
    assert!(!should_compact(&long, Some(200)));
    let many: Vec<Message> = (0..41).map(|_| message("user", "")).collect();
    assert!(should_compact(&many, None));
    assert!(!should_compact(&many[..40].to_vec(), None));
}

fn reply(content: &str, calls: Vec<ToolCall>) -> ModelResponse {
    ModelResponse { content: content.to_string(), tool_calls: calls, tokens_used: None, structured_output: None }
}

#[test]
fn agent_loop_runs_model_and_tools_to_completion() {
    let mut run = AgentLoop::new(&agent("helper"), &serde_json::from_str::<serde_json::Value>("{\"q\": 1}").unwrap(), ports());
    assert!(matches!(run.next_action(), AgentAction::NewRunId));
    run.on_run_id("run_1".to_string());
    match run.next_action() {
        AgentAction::CallModel(request) => {
            assert!(request.system.starts_with("You are the agent 'helper'."));
            assert_eq!(request.messages.len(), 1);
            assert_eq!(request.tools.len(), 4);
        },
        _ => panic!("expected a model call"),
    }
    run.on_model_reply(Ok(reply("thinking", vec![call("memory_recall", "{\"key\": \"k\"}")])));
    match run.next_action() {
        AgentAction::ExecuteTool(ToolInvocation::Recall { key }) => assert_eq!(key, "k"),
        _ => panic!("expected a recall"),
    }
    run.on_tool_result(Ok(serde_json::Value::from("remembered")));
    assert!(matches!(run.next_action(), AgentAction::CallModel(_)));
    run.on_model_reply(Ok(reply("final answer", Vec::new())));
    assert!(matches!(run.next_action(), AgentAction::Finished));
    let record = run.into_outcome().unwrap().unwrap();
    assert_eq!(record.id, "run_1");
    assert_eq!(record.status, "completed");
    assert_eq!(record.output.as_deref(), Some("final answer"));
    assert_eq!(record.tool_calls, Some(1));
    assert_eq!(record.messages.len(), 5);
    assert_eq!(record.messages[3].get("content"), Some(&serde_json::Value::from("\"remembered\"")));
}

#[test]
fn tool_call_budget_is_enforced() {
    let mut a = agent("helper");
    a.limits = Some(AgentLimits { max_tool_calls: Some(1), max_tokens: None, timeout_seconds: None, token_budget: None });
    let mut run = AgentLoop::new(&a, &serde_json::Value::Null, ports());
    run.on_run_id("r".to_string());
    run.on_model_reply(Ok(reply("", vec![call("memory_recall", "{}"), call("memory_recall", "{}")])));
    assert!(matches!(run.next_action(), AgentAction::ExecuteTool(_)));
    run.on_tool_result(Ok(serde_json::Value::from("")));
    match run.into_outcome() {
        Some(Err(Error::Validation { message })) => assert_eq!(message, "max tool calls exceeded"),
        _ => panic!("expected the budget error"),
    }
}

#[test]
fn denied_approval_fails_the_run() {
    let mut a = agent("risky");
    a.requires_approval = Some(true);
    let mut p = ports();
    p.approval_provider = true;
    let mut run = AgentLoop::new(&a, &serde_json::Value::Null, p);
    run.on_run_id("r".to_string());
    match run.next_action() {
        AgentAction::RequestApproval { resource, reason } => {
            assert_eq!(resource, "risky");
            assert_eq!(reason, "high-risk agent execution");
        },
        _ => panic!("expected an approval request"),
    }
    run.on_approval(Ok(false));
    match run.into_outcome() {
        Some(Err(Error::PolicyDenied { message })) => assert_eq!(message, "agent execution denied by approval gate"),
        _ => panic!("expected a denial"),
    }
}

#[test]
fn policy_filters_tools_and_failed_checks_allow() {
    let mut p = ports();
    p.policy_evaluator = true;
    let mut run = AgentLoop::new(&agent("helper"), &serde_json::Value::Null, p);
    run.on_run_id("r".to_string());
    match run.next_action() {
        AgentAction::AuthorizeTool { tool, operation } => {
            assert_eq!(tool, "memory_remember");
            assert_eq!(operation, Operation::Search);
        },
        _ => panic!("expected a policy check"),
    }
    run.on_tool_policy(Ok(false));
    run.on_tool_policy(Err(Error::Internal { message: "x".to_string() }));
    run.on_tool_policy(Ok(true));
    run.on_tool_policy(Ok(false));
    let names: Vec<&str> = run.tools().iter().map(|t| t.name.as_str()).collect();
    assert_eq!(names, vec!["memory_recall", "memory_search"]);
    assert!(matches!(run.phase(), AgentPhase::CallModel));
}

#[test]
fn output_schema_rejects_bad_output() {
    let mut a = agent("typed");
    a.output_schema = Some(serde_json::from_str::<serde_json::Value>("{\"type\": \"object\", \"required\": [\"answer\"]}").unwrap());
    let mut run = AgentLoop::new(&a, &serde_json::Value::Null, ports());
    run.on_run_id("r".to_string());
    run.on_model_reply(Ok(reply("{\"other\": 1}", Vec::new())));
    match run.into_outcome() {
        Some(Err(Error::Validation { message })) => {
            assert!(message.starts_with("agent 'typed' output failed schema validation: "), "{message}")
        },
        _ => panic!("expected a schema failure"),
    }
}

#[test]
fn output_schema_accepts_good_output_and_plain_text() {
    let mut a = agent("typed");
    a.output_schema = Some(serde_json::from_str::<serde_json::Value>("{\"type\": \"object\", \"required\": [\"answer\"]}").unwrap());
    let mut run = AgentLoop::new(&a, &serde_json::Value::Null, ports());
    run.on_run_id("r".to_string());
    run.on_model_reply(Ok(reply("{\"answer\": 1}", Vec::new())));
    assert!(matches!(run.into_outcome(), Some(Ok(_))));
    let mut run = AgentLoop::new(&a, &serde_json::Value::Null, ports());
    run.on_run_id("r".to_string());
    run.on_model_reply(Ok(reply("not json", Vec::new())));
    assert!(matches!(run.into_outcome(), Some(Ok(_))));
}
