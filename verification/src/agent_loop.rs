//! An agent run as a state machine. It asks for the outside work of a run
//! (a run id, tool policy checks, a plan, an approval, a compaction, model
//! turns, tool calls) one piece at a time, takes each outcome, and keeps the
//! conversation, the tool-call budget and the final record.

use vstd::prelude::*;
use crate::agent_tools::{
    channel_tool_views, channel_tools, memory_tool_views, memory_tools, parse_json, parsed_json,
    subagent_tool_views, subagent_tools,
};
use crate::agents::{
    all_entries, build_system_prompt, compaction_due, copy_tools, invocation_for,
    json_copy, json_object_entries, map_contents, maps_wf, message_entry_of, operation_for_tool,
    plan_tool_call, should_compact, system_prompt, text_or_empty, tool_operation, tool_views,
    turn_request, is_turn_request, AgentPorts, ToolInvocation, AGENT_STATUS_COMPLETED,
    APPROVAL_REASON_HIGH_RISK_AGENT, DEFAULT_MAX_TOOL_CALLS,
};
use crate::context::{
    views, Message, MessageView, ModelRequest, ModelResponse, ToolCall, ToolDef, ToolDefView,
    ROLE_ASSISTANT, ROLE_SYSTEM, ROLE_TOOL, ROLE_USER,
};
use crate::condition::{json_rendering, json_to_string};
use crate::ir::{Agent, Operation};
use crate::primitives::{concat, ApiName, Error, ErrorView, StringMap};

verus! {

/// Messages of the errors found when `instance` is checked against JSON
/// Schema `schema`, or the message of why `schema` is not a valid schema.
pub uninterp spec fn schema_errors(schema: serde_json::Value, instance: serde_json::Value) -> Result<Seq<Seq<char>>, Seq<char>>;

/// Check `instance` against JSON Schema `schema`.
#[verifier::external_body]
pub(crate) fn check_schema(schema: &serde_json::Value, instance: &serde_json::Value) -> (result: Result<Vec<String>, String>)
    ensures
        match result {
            Ok(errors) => schema_errors(*schema, *instance) == Ok::<Seq<Seq<char>>, Seq<char>>(
                errors@.map_values(|e: String| e@),
            ),
            Err(message) => schema_errors(*schema, *instance) == Err::<Seq<Seq<char>>, Seq<char>>(message@),
        },
{
    match jsonschema::validator_for(schema) {
        Ok(validator) => Ok(validator.iter_errors(instance).map(|e| e.to_string()).collect()),
        Err(e) => Err(e.to_string()),
    }
}

/// Record of a finished agent run.
#[derive(Debug, Clone)]
pub struct AgentRun {
    /// Run id.
    pub id: String,
    /// Status.
    pub status: String,
    /// Content of the last message.
    pub output: Option<String>,
    /// Error text.
    pub error: Option<String>,
    /// Role and content of each message.
    pub messages: Vec<StringMap<serde_json::Value>>,
    /// Number of tool calls made.
    pub tool_calls: Option<i32>,
    /// Tokens used.
    pub tokens_used: Option<i32>,
    /// Whether an evaluation passed.
    pub eval_passed: Option<bool>,
    /// Evaluation notes.
    pub eval_notes: Option<String>,
}

/// A run record as plain values.
pub struct AgentRunView {
    /// Run id.
    pub id: Seq<char>,
    /// Status.
    pub status: Seq<char>,
    /// Content of the last message.
    pub output: Option<Seq<char>>,
    /// Error text.
    pub error: Option<Seq<char>>,
    /// Role and content of each message.
    pub messages: Seq<Map<Seq<char>, serde_json::Value>>,
    /// Number of tool calls made.
    pub tool_calls: Option<i32>,
    /// Tokens used.
    pub tokens_used: Option<i32>,
    /// Whether an evaluation passed.
    pub eval_passed: Option<bool>,
    /// Evaluation notes.
    pub eval_notes: Option<Seq<char>>,
}

/// View of optional text.
pub open spec fn opt_text(text: Option<String>) -> Option<Seq<char>> {
    match text {
        Some(t) => Some(t@),
        None => None,
    }
}

impl View for AgentRun {
    type V = AgentRunView;

    open spec fn view(&self) -> AgentRunView {
        AgentRunView {
            id: self.id@,
            status: self.status@,
            output: opt_text(self.output),
            error: opt_text(self.error),
            messages: map_contents(self.messages@),
            tool_calls: self.tool_calls,
            tokens_used: self.tokens_used,
            eval_passed: self.eval_passed,
            eval_notes: opt_text(self.eval_notes),
        }
    }
}

/// Where an agent run stands.
pub enum AgentPhase {
    /// Waiting for a run id.
    NeedRunId,
    /// Waiting for the policy decision on the first unchecked tool.
    Authorize,
    /// Waiting for the planner.
    Plan,
    /// Waiting for the approval gate.
    Approve,
    /// Waiting for the compactor.
    Compact,
    /// Waiting for the model.
    CallModel,
    /// Waiting for the current tool call.
    ExecuteTool,
    /// Finished with a record.
    Done(AgentRun),
    /// Finished with an error.
    Failed(Error),
}

/// Where an agent run stands, as plain values.
pub enum AgentPhaseView {
    /// Waiting for a run id.
    NeedRunId,
    /// Waiting for a policy decision.
    Authorize,
    /// Waiting for the planner.
    Plan,
    /// Waiting for the approval gate.
    Approve,
    /// Waiting for the compactor.
    Compact,
    /// Waiting for the model.
    CallModel,
    /// Waiting for a tool call.
    ExecuteTool,
    /// Finished with a record.
    Done(AgentRunView),
    /// Finished with an error.
    Failed(ErrorView),
}

impl View for AgentPhase {
    type V = AgentPhaseView;

    open spec fn view(&self) -> AgentPhaseView {
        match self {
            AgentPhase::NeedRunId => AgentPhaseView::NeedRunId,
            AgentPhase::Authorize => AgentPhaseView::Authorize,
            AgentPhase::Plan => AgentPhaseView::Plan,
            AgentPhase::Approve => AgentPhaseView::Approve,
            AgentPhase::Compact => AgentPhaseView::Compact,
            AgentPhase::CallModel => AgentPhaseView::CallModel,
            AgentPhase::ExecuteTool => AgentPhaseView::ExecuteTool,
            AgentPhase::Done(run) => AgentPhaseView::Done(run@),
            AgentPhase::Failed(e) => AgentPhaseView::Failed(e@),
        }
    }
}

/// The outside work an agent run asks for next.
pub enum AgentAction {
    /// Generate a run id with prefix `run`.
    NewRunId,
    /// Ask the policy evaluator whether `tool` may be offered.
    AuthorizeTool {
        /// Tool name.
        tool: String,
        /// Operation the tool stands for.
        operation: Operation,
    },
    /// Ask the planner for a plan of the system prompt and tools.
    Plan,
    /// Ask the approval provider to approve running the agent.
    RequestApproval {
        /// The agent.
        resource: String,
        /// Why approval is asked.
        reason: String,
    },
    /// Ask the compactor to compact the messages.
    Compact,
    /// Send this request to the model.
    CallModel(ModelRequest),
    /// Run this tool invocation.
    ExecuteTool(ToolInvocation),
    /// Nothing: the run is over.
    Finished,
}

/// An agent run as plain values.
pub struct AgentModel {
    /// Agent name.
    pub name: Seq<char>,
    /// Agent instructions.
    pub instructions: Seq<char>,
    /// Runs need approval.
    pub requires_approval: bool,
    /// Tool calls allowed, and turns.
    pub max_tool_calls: usize,
    /// Token budget of the context.
    pub token_budget: Option<u32>,
    /// Maximum tokens per model turn.
    pub max_tokens: Option<i32>,
    /// Schema of the final output.
    pub output_schema: Option<serde_json::Value>,
    /// Configured ports.
    pub ports: AgentPorts,
    /// Content of the user message.
    pub user_content: Seq<char>,
    /// Run id.
    pub run_id: Seq<char>,
    /// Tools still to be checked by policy.
    pub unchecked: Seq<ToolDefView>,
    /// Tools offered.
    pub tools: Seq<ToolDefView>,
    /// System prompt.
    pub prompt: Seq<char>,
    /// Conversation.
    pub messages: Seq<MessageView>,
    /// Turns taken.
    pub turn: int,
    /// Tool calls made.
    pub count: int,
    /// Tool calls of the last model turn.
    pub calls: Seq<ToolCall>,
    /// Position of the next of those calls.
    pub next_call: int,
    /// Where the run stands.
    pub phase: AgentPhaseView,
}

/// A message with a role and content only.
pub open spec fn plain_message(role: Seq<char>, content: Seq<char>) -> MessageView {
    MessageView { role, content, tool_calls: Seq::empty(), tool_call_id: None }
}

/// The tools offered by the configured ports, before policy checks.
pub open spec fn catalog(ports: AgentPorts) -> Seq<ToolDefView> {
    (if ports.memory_store { memory_tool_views() } else { Seq::empty() }) + (if ports.channel {
        channel_tool_views()
    } else {
        Seq::empty()
    }) + (if ports.subagent_runtime { subagent_tool_views() } else { Seq::empty() })
}

/// Texts joined with `sep` between them.
pub open spec fn joined(items: Seq<Seq<char>>, sep: Seq<char>) -> Seq<char>
    decreases items.len(),
{
    if items.len() == 0 {
        Seq::empty()
    } else if items.len() == 1 {
        items[0]
    } else {
        joined(items.drop_last(), sep) + sep + items.last()
    }
}

/// Content of the last message, if any.
pub open spec fn final_output(messages: Seq<MessageView>) -> Option<Seq<char>> {
    if messages.len() > 0 {
        Some(messages.last().content)
    } else {
        None
    }
}

/// Why the final output is refused: it is JSON that the output schema
/// rejects, or the schema is invalid.
pub open spec fn output_problem(m: AgentModel) -> Option<ErrorView> {
    match (m.output_schema, final_output(m.messages)) {
        (Some(schema), Some(out)) => match parsed_json(out) {
            Some(json) => match schema_errors(schema, json) {
                Err(msg) => Some(ErrorView::Validation("invalid output schema: "@ + msg)),
                Ok(errs) => if errs.len() > 0 {
                    Some(
                        ErrorView::Validation(
                            "agent '"@ + m.name + "' output failed schema validation: "@ + joined(errs, "; "@),
                        ),
                    )
                } else {
                    None
                },
            },
            None => None,
        },
        _ => None,
    }
}

/// The record of a completed run.
pub open spec fn completed_run(m: AgentModel) -> AgentRunView {
    AgentRunView {
        id: m.run_id,
        status: AGENT_STATUS_COMPLETED@,
        output: final_output(m.messages),
        error: None,
        messages: all_entries(m.messages),
        tool_calls: Some(m.count as i32),
        tokens_used: None,
        eval_passed: None,
        eval_notes: None,
    }
}

/// The run after it fails with `e`.
pub open spec fn failed(m: AgentModel, e: ErrorView) -> AgentModel {
    AgentModel { phase: AgentPhaseView::Failed(e), ..m }
}

/// The run once the conversation is over.
pub open spec fn finish(m: AgentModel) -> AgentModel {
    match output_problem(m) {
        Some(e) => failed(m, e),
        None => AgentModel { phase: AgentPhaseView::Done(completed_run(m)), ..m },
    }
}

/// The run at the start of a turn: over when the turns are used up; else
/// compact first when due, then ask the model.
pub open spec fn enter_turn(m: AgentModel) -> AgentModel {
    if m.turn >= m.max_tool_calls {
        finish(m)
    } else if m.ports.compactor && compaction_due(m.messages, m.token_budget) {
        AgentModel { phase: AgentPhaseView::Compact, ..m }
    } else {
        AgentModel { phase: AgentPhaseView::CallModel, ..m }
    }
}

/// The run before its next tool call: the turn ends when the calls are
/// done; the run fails when one more call exceeds the budget.
pub open spec fn enter_tool(m: AgentModel) -> AgentModel {
    if m.next_call >= m.calls.len() {
        enter_turn(AgentModel { turn: m.turn + 1, ..m })
    } else if m.count + 1 > m.max_tool_calls {
        failed(m, ErrorView::Validation("max tool calls exceeded"@))
    } else {
        AgentModel { count: m.count + 1, phase: AgentPhaseView::ExecuteTool, ..m }
    }
}

/// The run once the planner agreed: the conversation starts with the system
/// prompt and the user input, then waits for approval when it needs one.
pub open spec fn after_plan(m: AgentModel) -> AgentModel {
    let m1 = AgentModel {
        messages: seq![plain_message(ROLE_SYSTEM@, m.prompt), plain_message(ROLE_USER@, m.user_content)],
        ..m
    };
    if m.requires_approval && m.ports.approval_provider {
        AgentModel { phase: AgentPhaseView::Approve, ..m1 }
    } else {
        enter_turn(AgentModel { turn: 0, ..m1 })
    }
}

/// The run once its tools are settled: the system prompt lists them, and
/// the planner is asked when there is one.
pub open spec fn after_tools(m: AgentModel) -> AgentModel {
    let m1 = AgentModel { prompt: system_prompt(m.name, m.instructions, m.tools), ..m };
    if m.ports.planner {
        AgentModel { phase: AgentPhaseView::Plan, ..m1 }
    } else {
        after_plan(m1)
    }
}

/// The run while tools wait for policy checks.
pub open spec fn authorize_next(m: AgentModel) -> AgentModel {
    if m.unchecked.len() == 0 {
        after_tools(m)
    } else {
        AgentModel { phase: AgentPhaseView::Authorize, ..m }
    }
}

/// The run once it has run id `id`: every tool of the catalog is checked by
/// policy when a policy evaluator is configured, else offered.
pub open spec fn after_run_id(m: AgentModel, id: Seq<char>) -> AgentModel {
    if m.ports.policy_evaluator {
        authorize_next(AgentModel { run_id: id, unchecked: catalog(m.ports), tools: Seq::empty(), ..m })
    } else {
        after_tools(AgentModel { run_id: id, unchecked: Seq::empty(), tools: catalog(m.ports), ..m })
    }
}

/// The run after the policy decision on the first unchecked tool; a failed
/// check lets the tool through.
pub open spec fn after_tool_policy(m: AgentModel, outcome: Result<bool, Error>) -> AgentModel {
    let keep = match outcome {
        Ok(allow) => allow,
        Err(_) => true,
    };
    let t = m.unchecked[0];
    authorize_next(
        AgentModel {
            unchecked: m.unchecked.drop_first(),
            tools: if keep { m.tools.push(t) } else { m.tools },
            ..m
        },
    )
}

/// The run after the planner answered.
pub open spec fn after_planner(m: AgentModel, outcome: Result<(), Error>) -> AgentModel {
    match outcome {
        Ok(_) => after_plan(m),
        Err(e) => failed(m, e@),
    }
}

/// The run after the approval gate answered.
pub open spec fn after_approval(m: AgentModel, outcome: Result<bool, Error>) -> AgentModel {
    match outcome {
        Ok(true) => enter_turn(AgentModel { turn: 0, ..m }),
        Ok(false) => failed(m, ErrorView::PolicyDenied("agent execution denied by approval gate"@)),
        Err(e) => failed(m, e@),
    }
}

/// The run after the compactor answered.
pub open spec fn after_compaction(m: AgentModel, outcome: Result<Seq<MessageView>, ErrorView>) -> AgentModel {
    match outcome {
        Ok(messages) => AgentModel { messages, phase: AgentPhaseView::CallModel, ..m },
        Err(e) => failed(m, e),
    }
}

/// The run after the model answered with `content` and tool `calls`: the
/// answer joins the conversation; without calls the run is over.
pub open spec fn after_model(m: AgentModel, content: Seq<char>, calls: Seq<ToolCall>) -> AgentModel {
    let m1 = AgentModel {
        messages: m.messages.push(MessageView { role: ROLE_ASSISTANT@, content, tool_calls: calls, tool_call_id: None }),
        ..m
    };
    if calls.len() == 0 {
        finish(m1)
    } else {
        enter_tool(AgentModel { calls, next_call: 0, ..m1 })
    }
}

/// The run after the current tool call returned `value`: its JSON text joins
/// the conversation as the answer to the call.
pub open spec fn after_tool(m: AgentModel, value: serde_json::Value) -> AgentModel {
    let call = m.calls[m.next_call];
    enter_tool(
        AgentModel {
            messages: m.messages.push(
                MessageView { role: ROLE_TOOL@, content: json_rendering(value), tool_calls: Seq::empty(), tool_call_id: Some(call.id@) },
            ),
            next_call: m.next_call + 1,
            ..m
        },
    )
}

/// `action` is the outside work that the run in `m` waits for.
pub open spec fn asks(m: AgentModel, action: AgentAction) -> bool {
    match m.phase {
        AgentPhaseView::NeedRunId => action is NewRunId,
        AgentPhaseView::Authorize => action matches AgentAction::AuthorizeTool { tool, operation } && tool@
            == m.unchecked[0].name && operation == operation_for_tool(m.unchecked[0].name),
        AgentPhaseView::Plan => action is Plan,
        AgentPhaseView::Approve => action matches AgentAction::RequestApproval { resource, reason } && resource@
            == m.name && reason@ == APPROVAL_REASON_HIGH_RISK_AGENT@,
        AgentPhaseView::Compact => action is Compact,
        AgentPhaseView::CallModel => action matches AgentAction::CallModel(request) && is_turn_request(
            request,
            m.messages,
            m.tools,
            m.max_tokens,
        ),
        AgentPhaseView::ExecuteTool => action matches AgentAction::ExecuteTool(invocation) && invocation@
            == invocation_for(
            m.calls[m.next_call].name@,
            json_object_entries(m.calls[m.next_call].arguments@),
            m.ports,
        ),
        _ => action is Finished,
    }
}

/// Tool calls allowed by an agent's limits; fifty when not set. A negative
/// limit is reinterpreted as an unsigned size.
pub open spec fn call_limit(agent: Agent) -> usize {
    (match agent.limits {
        Some(limits) => match limits.max_tool_calls {
            Some(n) => n,
            None => DEFAULT_MAX_TOOL_CALLS as i32,
        },
        None => DEFAULT_MAX_TOOL_CALLS as i32,
    }) as usize
}

/// The state of a new run of `agent` on input `input` with `ports`.
pub open spec fn started(agent: Agent, input: serde_json::Value, ports: AgentPorts) -> AgentModel {
    AgentModel {
        name: agent.api_name@,
        instructions: text_or_empty(agent.instructions),
        requires_approval: agent.requires_approval == Some(true),
        max_tool_calls: call_limit(agent),
        token_budget: match agent.limits {
            Some(limits) => limits.token_budget,
            None => None,
        },
        max_tokens: match agent.limits {
            Some(limits) => limits.max_tokens,
            None => None,
        },
        output_schema: agent.output_schema,
        ports,
        user_content: json_rendering(input),
        run_id: Seq::empty(),
        unchecked: Seq::empty(),
        tools: Seq::empty(),
        prompt: Seq::empty(),
        messages: Seq::empty(),
        turn: 0,
        count: 0,
        calls: Seq::empty(),
        next_call: 0,
        phase: AgentPhaseView::NeedRunId,
    }
}


/// Texts joined with `sep` between them.
pub fn join_texts(items: &Vec<String>, sep: &str) -> (result: String)
    ensures
        result@ == joined(items@.map_values(|s: String| s@), sep@),
{
    let ghost texts = items@.map_values(|s: String| s@);
    let mut out = String::new();
    let mut i: usize = 0;
    while i < items.len()
        invariant
            i <= items@.len(),
            texts == items@.map_values(|s: String| s@),
            out@ == joined(texts.take(i as int), sep@),
        decreases items@.len() - i,
    {
        proof {
            assert(texts.take(i + 1).drop_last() =~= texts.take(i as int));
            if i == 0 {
                assert(texts.take(1)[0] == texts[0]);
            }
        }
        if i > 0 {
            out.append(sep);
        }
        out.append(items[i].as_str());
        i = i + 1;
    }
    proof {
        assert(texts.take(i as int) =~= texts);
    }
    out
}

/// Role and content of each message.
pub fn message_entries(messages: &Vec<Message>) -> (result: Vec<StringMap<serde_json::Value>>)
    ensures
        maps_wf(result@),
        map_contents(result@) == all_entries(views(messages@)),
{
    let mut out: Vec<StringMap<serde_json::Value>> = Vec::new();
    let mut i: usize = 0;
    while i < messages.len()
        invariant
            i <= messages@.len(),
            out@.len() == i,
            maps_wf(out@),
            forall|k: int| 0 <= k < i ==> #[trigger] out@[k].as_map() == crate::agents::message_entry(messages@[k]@),
        decreases messages@.len() - i,
    {
        out.push(message_entry_of(&messages[i]));
        i = i + 1;
    }
    proof {
        assert(map_contents(out@) =~= all_entries(views(messages@)));
    }
    out
}

/// A run of an agent.
pub struct AgentLoop {
    name: ApiName,
    instructions: Option<String>,
    requires_approval: bool,
    max_tool_calls: usize,
    token_budget: Option<u32>,
    max_tokens: Option<i32>,
    output_schema: Option<serde_json::Value>,
    ports: AgentPorts,
    user_content: String,
    run_id: String,
    unchecked: Vec<ToolDef>,
    tools: Vec<ToolDef>,
    prompt: String,
    messages: Vec<Message>,
    turn: usize,
    count: usize,
    calls: Vec<ToolCall>,
    next_call: usize,
    phase: AgentPhase,
}

impl AgentLoop {
    /// The run as plain values.
    pub closed spec fn model(&self) -> AgentModel {
        AgentModel {
            name: self.name@,
            instructions: text_or_empty(self.instructions),
            requires_approval: self.requires_approval,
            max_tool_calls: self.max_tool_calls,
            token_budget: self.token_budget,
            max_tokens: self.max_tokens,
            output_schema: self.output_schema,
            ports: self.ports,
            user_content: self.user_content@,
            run_id: self.run_id@,
            unchecked: tool_views(self.unchecked@),
            tools: tool_views(self.tools@),
            prompt: self.prompt@,
            messages: views(self.messages@),
            turn: self.turn as int,
            count: self.count as int,
            calls: self.calls@,
            next_call: self.next_call as int,
            phase: self.phase@,
        }
    }

    /// Counters stay within the budget.
    closed spec fn counters_ok(&self) -> bool {
        &&& self.count <= self.max_tool_calls
        &&& self.turn <= self.max_tool_calls
        &&& self.next_call <= self.calls@.len()
    }

    /// Counters stay within the budget, the current tool call exists, and a
    /// tool waits while checks are pending.
    pub closed spec fn wf(&self) -> bool {
        &&& self.counters_ok()
        &&& (self.phase is ExecuteTool ==> self.next_call < self.calls@.len())
        &&& (self.phase is Authorize ==> self.unchecked@.len() > 0)
        &&& (self.phase is CallModel || self.phase is Compact || self.phase is ExecuteTool ==> self.turn
            < self.max_tool_calls)
    }

    /// A new run of `agent` on `input`, with the ports that are configured.
    pub fn new(agent: &Agent, input: &serde_json::Value, ports: AgentPorts) -> (result: AgentLoop)
        ensures
            result.wf(),
            result.model() == started(*agent, *input, ports),
    {
        let limit: i32 = match &agent.limits {
            Some(limits) => match limits.max_tool_calls {
                Some(n) => n,
                None => DEFAULT_MAX_TOOL_CALLS as i32,
            },
            None => DEFAULT_MAX_TOOL_CALLS as i32,
        };
        let token_budget = match &agent.limits {
            Some(limits) => limits.token_budget,
            None => None,
        };
        let max_tokens = match &agent.limits {
            Some(limits) => limits.max_tokens,
            None => None,
        };
        let output_schema = match &agent.output_schema {
            Some(schema) => Some(json_copy(schema)),
            None => None,
        };
        let run = AgentLoop {
            name: agent.api_name.duplicate(),
            instructions: match &agent.instructions {
                Some(text) => Some(text.clone()),
                None => None,
            },
            requires_approval: agent.requires_approval == Some(true),
            max_tool_calls: limit as usize,
            token_budget,
            max_tokens,
            output_schema,
            ports,
            user_content: json_to_string(input),
            run_id: String::new(),
            unchecked: Vec::new(),
            tools: Vec::new(),
            prompt: String::new(),
            messages: Vec::new(),
            turn: 0,
            count: 0,
            calls: Vec::new(),
            next_call: 0,
            phase: AgentPhase::NeedRunId,
        };
        proof {
            assert(tool_views(run.unchecked@) =~= Seq::<ToolDefView>::empty());
            assert(tool_views(run.tools@) =~= Seq::<ToolDefView>::empty());
            assert(views(run.messages@) =~= Seq::<MessageView>::empty());
            assert(run.model() == started(*agent, *input, ports));
        }
        run
    }

    /// Why the final output is refused, if it is.
    fn output_problem_of(&self, output: &Option<String>) -> (result: Option<Error>)
        requires
            opt_text(*output) == final_output(self.model().messages),
        ensures
            match result {
                Some(e) => output_problem(self.model()) == Some(e@),
                None => output_problem(self.model()) is None,
            },
    {
        let schema = match &self.output_schema {
            Some(schema) => schema,
            None => {
                return None;
            },
        };
        let out = match output {
            Some(out) => out,
            None => {
                return None;
            },
        };
        let json = match parse_json(out.as_str()) {
            Some(json) => json,
            None => {
                return None;
            },
        };
        match check_schema(schema, &json) {
            Err(message) => Some(Error::Validation { message: concat("invalid output schema: ", message.as_str()) }),
            Ok(errors) => {
                if errors.len() > 0 {
                    let mut text = concat("agent '", self.name.as_str());
                    text.append("' output failed schema validation: ");
                    let listed = join_texts(&errors, "; ");
                    text.append(listed.as_str());
                    Some(Error::Validation { message: text })
                } else {
                    None
                }
            },
        }
    }

    /// End the run: keep its record, or fail when the output schema refuses
    /// the output.
    fn finish_run(&mut self)
        requires
            old(self).counters_ok(),
        ensures
            final(self).wf(),
            final(self).model() == finish(old(self).model()),
    {
        let n = self.messages.len();
        let output: Option<String> = if n > 0 {
            Some(self.messages[n - 1].content.clone())
        } else {
            None
        };
        match self.output_problem_of(&output) {
            Some(e) => {
                self.phase = AgentPhase::Failed(e);
            },
            None => {
                let entries = message_entries(&self.messages);
                let run = AgentRun {
                    id: self.run_id.clone(),
                    status: AGENT_STATUS_COMPLETED.to_owned(),
                    output,
                    error: None,
                    messages: entries,
                    tool_calls: Some(self.count as i32),
                    tokens_used: None,
                    eval_passed: None,
                    eval_notes: None,
                };
                self.phase = AgentPhase::Done(run);
            },
        }
    }

    /// Start a turn, or end the run when the turns are used up.
    fn enter_turn(&mut self)
        requires
            old(self).counters_ok(),
        ensures
            final(self).wf(),
            final(self).model() == enter_turn(old(self).model()),
    {
        if self.turn >= self.max_tool_calls {
            self.finish_run();
        } else if self.ports.compactor && should_compact(&self.messages, self.token_budget) {
            self.phase = AgentPhase::Compact;
        } else {
            self.phase = AgentPhase::CallModel;
        }
    }

    /// Go to the next tool call, or end the turn when the calls are done.
    fn enter_tool(&mut self)
        requires
            old(self).counters_ok(),
            old(self).turn < old(self).max_tool_calls,
        ensures
            final(self).wf(),
            final(self).model() == enter_tool(old(self).model()),
    {
        if self.next_call >= self.calls.len() {
            self.turn = self.turn + 1;
            self.enter_turn();
        } else if self.count >= self.max_tool_calls {
            self.phase = AgentPhase::Failed(Error::Validation { message: "max tool calls exceeded".to_owned() });
        } else {
            self.count = self.count + 1;
            self.phase = AgentPhase::ExecuteTool;
        }
    }

    /// Start the conversation, then wait for approval when it needs one.
    fn start_conversation(&mut self)
        requires
            old(self).counters_ok(),
        ensures
            final(self).wf(),
            final(self).model() == after_plan(old(self).model()),
    {
        let mut messages: Vec<Message> = Vec::new();
        messages.push(
            Message { role: ROLE_SYSTEM.to_owned(), content: self.prompt.clone(), tool_calls: Vec::new(), tool_call_id: None },
        );
        messages.push(
            Message { role: ROLE_USER.to_owned(), content: self.user_content.clone(), tool_calls: Vec::new(), tool_call_id: None },
        );
        self.messages = messages;
        proof {
            assert(views(self.messages@) =~= seq![
                plain_message(ROLE_SYSTEM@, old(self).model().prompt),
                plain_message(ROLE_USER@, old(self).model().user_content),
            ]);
        }
        if self.requires_approval && self.ports.approval_provider {
            self.phase = AgentPhase::Approve;
        } else {
            self.turn = 0;
            self.enter_turn();
        }
    }

    /// Write the system prompt for the settled tools, then ask the planner
    /// when there is one.
    fn settle_tools(&mut self)
        requires
            old(self).counters_ok(),
        ensures
            final(self).wf(),
            final(self).model() == after_tools(old(self).model()),
    {
        self.prompt = build_system_prompt(&self.name, &self.instructions, &self.tools);
        if self.ports.planner {
            self.phase = AgentPhase::Plan;
        } else {
            self.start_conversation();
        }
    }

    /// Wait for the next policy check, or settle the tools when none is left.
    fn authorize_next(&mut self)
        requires
            old(self).counters_ok(),
        ensures
            final(self).wf(),
            final(self).model() == authorize_next(old(self).model()),
    {
        if self.unchecked.len() == 0 {
            self.settle_tools();
        } else {
            self.phase = AgentPhase::Authorize;
        }
    }

    /// Take the run id.
    pub fn on_run_id(&mut self, id: String)
        requires
            old(self).wf(),
            old(self).model().phase is NeedRunId,
        ensures
            final(self).wf(),
            final(self).model() == after_run_id(old(self).model(), id@),
    {
        let ghost m0 = self.model();
        self.run_id = id;
        let mut candidates: Vec<ToolDef> = Vec::new();
        if self.ports.memory_store {
            let mut more = memory_tools();
            candidates.append(&mut more);
        }
        let ghost c1 = candidates@;
        if self.ports.channel {
            let mut more = channel_tools();
            candidates.append(&mut more);
        }
        let ghost c2 = candidates@;
        if self.ports.subagent_runtime {
            let mut more = subagent_tools();
            candidates.append(&mut more);
        }
        proof {
            assert(tool_views(c1) =~= (if m0.ports.memory_store { memory_tool_views() } else { Seq::<ToolDefView>::empty() }));
            assert(tool_views(c2) =~= tool_views(c1) + (if m0.ports.channel { channel_tool_views() } else { Seq::<ToolDefView>::empty() }));
            assert(tool_views(candidates@) =~= tool_views(c2) + (if m0.ports.subagent_runtime { subagent_tool_views() } else { Seq::<ToolDefView>::empty() }));
            assert(tool_views(candidates@) =~= catalog(m0.ports));
        }
        if self.ports.policy_evaluator {
            self.unchecked = candidates;
            self.tools = Vec::new();
            proof {
                assert(tool_views(self.tools@) =~= Seq::<ToolDefView>::empty());
            }
            self.authorize_next();
        } else {
            self.unchecked = Vec::new();
            self.tools = candidates;
            proof {
                assert(tool_views(self.unchecked@) =~= Seq::<ToolDefView>::empty());
            }
            self.settle_tools();
        }
    }

    /// Take the policy decision on the first unchecked tool.
    pub fn on_tool_policy(&mut self, outcome: Result<bool, Error>)
        requires
            old(self).wf(),
            old(self).model().phase is Authorize,
        ensures
            final(self).wf(),
            final(self).model() == after_tool_policy(old(self).model(), outcome),
    {
        let ghost m0 = self.model();
        let keep = match outcome {
            Ok(allow) => allow,
            Err(_) => true,
        };
        let tool = self.unchecked.remove(0);
        if keep {
            self.tools.push(tool);
        }
        proof {
            assert(tool_views(self.unchecked@) =~= m0.unchecked.drop_first());
            assert(tool_views(self.tools@) =~= (if keep { m0.tools.push(m0.unchecked[0]) } else { m0.tools }));
        }
        self.authorize_next();
    }

    /// Take the planner's answer; only its failure matters.
    pub fn on_plan(&mut self, outcome: Result<(), Error>)
        requires
            old(self).wf(),
            old(self).model().phase is Plan,
        ensures
            final(self).wf(),
            final(self).model() == after_planner(old(self).model(), outcome),
    {
        match outcome {
            Ok(_) => self.start_conversation(),
            Err(e) => {
                self.phase = AgentPhase::Failed(e);
            },
        }
    }

    /// Take the approval gate's answer.
    pub fn on_approval(&mut self, outcome: Result<bool, Error>)
        requires
            old(self).wf(),
            old(self).model().phase is Approve,
        ensures
            final(self).wf(),
            final(self).model() == after_approval(old(self).model(), outcome),
    {
        match outcome {
            Ok(true) => {
                self.turn = 0;
                self.enter_turn();
            },
            Ok(false) => {
                self.phase = AgentPhase::Failed(
                    Error::PolicyDenied { message: "agent execution denied by approval gate".to_owned() },
                );
            },
            Err(e) => {
                self.phase = AgentPhase::Failed(e);
            },
        }
    }

    /// Take the compactor's answer.
    pub fn on_compacted(&mut self, outcome: Result<Vec<Message>, Error>)
        requires
            old(self).wf(),
            old(self).model().phase is Compact,
        ensures
            final(self).wf(),
            final(self).model() == after_compaction(
                old(self).model(),
                match outcome {
                    Ok(ms) => Ok(views(ms@)),
                    Err(e) => Err(e@),
                },
            ),
    {
        match outcome {
            Ok(messages) => {
                self.messages = messages;
                self.phase = AgentPhase::CallModel;
            },
            Err(e) => {
                self.phase = AgentPhase::Failed(e);
            },
        }
    }

    /// Take the model's answer.
    pub fn on_model_reply(&mut self, outcome: Result<ModelResponse, Error>)
        requires
            old(self).wf(),
            old(self).model().phase is CallModel,
        ensures
            final(self).wf(),
            final(self).model() == match outcome {
                Ok(response) => after_model(old(self).model(), response.content@, response.tool_calls@),
                Err(e) => failed(old(self).model(), e@),
            },
    {
        match outcome {
            Ok(response) => {
                let ghost m0 = self.model();
                let ghost calls0 = response.tool_calls@;
                let mut copies: Vec<ToolCall> = Vec::new();
                let mut i: usize = 0;
                while i < response.tool_calls.len()
                    invariant
                        i <= response.tool_calls@.len(),
                        copies@ == response.tool_calls@.take(i as int),
                    decreases response.tool_calls@.len() - i,
                {
                    copies.push(response.tool_calls[i].duplicate());
                    proof {
                        assert(copies@ =~= response.tool_calls@.take(i + 1));
                    }
                    i = i + 1;
                }
                proof {
                    assert(copies@ =~= response.tool_calls@);
                }
                let no_calls = copies.len() == 0;
                let ModelResponse { content, tool_calls, .. } = response;
                self.messages.push(
                    Message { role: ROLE_ASSISTANT.to_owned(), content, tool_calls, tool_call_id: None },
                );
                proof {
                    assert(views(self.messages@) =~= m0.messages.push(
                        MessageView { role: ROLE_ASSISTANT@, content: self.messages@.last().content@, tool_calls: calls0, tool_call_id: None },
                    ));
                }
                if no_calls {
                    self.finish_run();
                } else {
                    self.calls = copies;
                    self.next_call = 0;
                    self.enter_tool();
                }
            },
            Err(e) => {
                self.phase = AgentPhase::Failed(e);
            },
        }
    }

    /// Take the result of the current tool call.
    pub fn on_tool_result(&mut self, outcome: Result<serde_json::Value, Error>)
        requires
            old(self).wf(),
            old(self).model().phase is ExecuteTool,
        ensures
            final(self).wf(),
            final(self).model() == match outcome {
                Ok(value) => after_tool(old(self).model(), value),
                Err(e) => failed(old(self).model(), e@),
            },
    {
        match outcome {
            Ok(value) => {
                let ghost m0 = self.model();
                let text = json_to_string(&value);
                let _ = self.calls.len();
                let id = self.calls[self.next_call].id.clone();
                self.messages.push(
                    Message { role: ROLE_TOOL.to_owned(), content: text, tool_calls: Vec::new(), tool_call_id: Some(id) },
                );
                proof {
                    assert(views(self.messages@) =~= m0.messages.push(
                        MessageView {
                            role: ROLE_TOOL@,
                            content: json_rendering(value),
                            tool_calls: Seq::empty(),
                            tool_call_id: Some(m0.calls[m0.next_call].id@),
                        },
                    ));
                }
                self.next_call = self.next_call + 1;
                self.enter_tool();
            },
            Err(e) => {
                self.phase = AgentPhase::Failed(e);
            },
        }
    }

    /// The outside work the run waits for.
    pub fn next_action(&self) -> (result: AgentAction)
        requires
            self.wf(),
        ensures
            asks(self.model(), result),
    {
        match &self.phase {
            AgentPhase::NeedRunId => AgentAction::NewRunId,
            AgentPhase::Authorize => {
                let name = self.unchecked[0].name.clone();
                let operation = tool_operation(name.as_str());
                AgentAction::AuthorizeTool { tool: name, operation }
            },
            AgentPhase::Plan => AgentAction::Plan,
            AgentPhase::Approve => AgentAction::RequestApproval {
                resource: self.name.as_str().to_owned(),
                reason: APPROVAL_REASON_HIGH_RISK_AGENT.to_owned(),
            },
            AgentPhase::Compact => AgentAction::Compact,
            AgentPhase::CallModel => AgentAction::CallModel(turn_request(&self.messages, &self.tools, self.max_tokens)),
            AgentPhase::ExecuteTool => AgentAction::ExecuteTool(plan_tool_call(&self.calls[self.next_call], self.ports)),
            _ => AgentAction::Finished,
        }
    }

    /// A run never makes more tool calls, nor takes more turns, than its
    /// limit allows.
    pub proof fn lemma_within_limits(&self)
        requires
            self.wf(),
        ensures
            self.model().count <= self.model().max_tool_calls,
            self.model().turn <= self.model().max_tool_calls,
    {
    }

    /// Where the run stands.
    pub fn phase(&self) -> (result: &AgentPhase)
        ensures
            result@ == self.model().phase,
    {
        &self.phase
    }

    /// The system prompt.
    pub fn system_prompt(&self) -> (result: &String)
        ensures
            result@ == self.model().prompt,
    {
        &self.prompt
    }

    /// The tools offered.
    pub fn tools(&self) -> (result: &Vec<ToolDef>)
        ensures
            tool_views(result@) == self.model().tools,
    {
        &self.tools
    }

    /// The conversation.
    pub fn messages(&self) -> (result: &Vec<Message>)
        ensures
            views(result@) == self.model().messages,
    {
        &self.messages
    }

    /// The outcome of a finished run: its record or its error.
    pub fn into_outcome(self) -> (result: Option<Result<AgentRun, Error>>)
        ensures
            match self.model().phase {
                AgentPhaseView::Done(run) => result matches Some(Ok(r)) && r@ == run,
                AgentPhaseView::Failed(e) => result matches Some(Err(x)) && x@ == e,
                _ => result is None,
            },
    {
        match self.phase {
            AgentPhase::Done(run) => Some(Ok(run)),
            AgentPhase::Failed(e) => Some(Err(e)),
            _ => None,
        }
    }
}

} // verus!
