//! Decisions of an agent run that need no outside work: the system prompt,
//! the operation a tool name stands for, when to compact, the request sent
//! to the model, and what a tool call asks of the configured ports.

use vstd::prelude::*;
use crate::context::{
    ToolCall, over_budget, total_tokens, views, Message, MessageView, ModelRequest, ToolDef, ToolDefView,
    ROLE_SYSTEM,
};
use crate::agent_tools::{
    TOOL_CHANNEL_RECEIVE, TOOL_CHANNEL_SEND, TOOL_MEMORY_FORGET, TOOL_MEMORY_RECALL,
    TOOL_MEMORY_REMEMBER, TOOL_MEMORY_SEARCH, TOOL_SUBAGENT_SPAWN, TOOL_SUBAGENT_WAIT,
};
use crate::condition::{json_as_str, json_str};
use crate::ir::Operation;
use crate::primitives::{concat, json_from_str, json_string, str_eq, ApiName, StringMap};
use crate::text::{has_prefix, starts_with_text};

verus! {

/// Prefix of search tools generated from the ontology.
pub const TOOL_PREFIX_SEARCH: &'static str = "search_";

/// Prefix of get tools generated from the ontology.
pub const TOOL_PREFIX_GET: &'static str = "get_";

/// Prefix of mutate tools generated from the ontology.
pub const TOOL_PREFIX_MUTATE: &'static str = "mutate_";

/// Prefix of aggregate tools generated from the ontology.
pub const TOOL_PREFIX_AGGREGATE: &'static str = "aggregate_";

/// Prefix of traverse tools generated from the ontology.
pub const TOOL_PREFIX_TRAVERSE: &'static str = "traverse_";

/// Prefix of execute tools generated from the ontology.
pub const TOOL_PREFIX_EXECUTE: &'static str = "execute_";

/// Resource kind used when evaluating tool-level policy.
pub const RESOURCE_KIND_TOOL: &'static str = "tool";

/// Default maximum tool calls per agent run.
pub const DEFAULT_MAX_TOOL_CALLS: usize = 50;

/// Number of messages above which a history without token budget is compacted.
pub const DEFAULT_COMPACTION_THRESHOLD: usize = 40;

/// Default channel receive timeout in milliseconds.
pub const DEFAULT_CHANNEL_TIMEOUT_MS: u64 = 5000;

/// Default sub-agent wait timeout in milliseconds.
pub const DEFAULT_SUBAGENT_TIMEOUT_MS: u64 = 30000;

/// Status of a completed agent run.
pub const AGENT_STATUS_COMPLETED: &'static str = "completed";

/// Reason attached to approval requests for high-risk agents.
pub const APPROVAL_REASON_HIGH_RISK_AGENT: &'static str = "high-risk agent execution";

/// The line that presents one tool in the system prompt.
pub open spec fn tool_line(tool: ToolDefView) -> Seq<char> {
    "- "@ + tool.name + ": "@ + tool.description + "\n"@
}

/// The lines that present the tools, in order.
pub open spec fn tool_lines(tools: Seq<ToolDefView>) -> Seq<char>
    decreases tools.len(),
{
    if tools.len() == 0 {
        Seq::empty()
    } else {
        tool_lines(tools.drop_last()) + tool_line(tools.last())
    }
}

/// Views of a list of tools.
pub open spec fn tool_views(tools: Seq<ToolDef>) -> Seq<ToolDefView> {
    tools.map_values(|t: ToolDef| t@)
}

/// The system prompt of agent `name` with `instructions`, listing `tools`.
pub open spec fn system_prompt(name: Seq<char>, instructions: Seq<char>, tools: Seq<ToolDefView>) -> Seq<char> {
    let head = "You are the agent '"@ + name + "'.\nInstructions: "@ + instructions + "\n\n"@;
    if tools.len() == 0 {
        head
    } else {
        head + "Available tools:\n"@ + tool_lines(tools)
    }
}

/// Instructions text of an optional instruction; empty when absent.
pub open spec fn text_or_empty(text: Option<String>) -> Seq<char> {
    match text {
        Some(t) => t@,
        None => Seq::empty(),
    }
}

/// The system prompt of agent `name` with `instructions`, listing `tools`.
pub fn build_system_prompt(name: &ApiName, instructions: &Option<String>, tools: &Vec<ToolDef>) -> (result: String)
    ensures
        result@ == system_prompt(name@, text_or_empty(*instructions), tool_views(tools@)),
{
    let mut prompt = concat("You are the agent '", name.as_str());
    prompt.append("'.\nInstructions: ");
    match instructions {
        Some(text) => prompt.append(text.as_str()),
        None => {},
    }
    prompt.append("\n\n");
    if tools.len() > 0 {
        let ghost head = prompt@;
        prompt.append("Available tools:\n");
        let mut i: usize = 0;
        while i < tools.len()
            invariant
                i <= tools@.len(),
                prompt@ == head + "Available tools:\n"@ + tool_lines(tool_views(tools@).take(i as int)),
            decreases tools@.len() - i,
        {
            proof {
                assert(tool_views(tools@).take(i + 1).drop_last() =~= tool_views(tools@).take(i as int));
            }
            prompt.append("- ");
            prompt.append(tools[i].name.as_str());
            prompt.append(": ");
            prompt.append(tools[i].description.as_str());
            prompt.append("\n");
            i = i + 1;
        }
        proof {
            assert(tool_views(tools@).take(i as int) =~= tool_views(tools@));
        }
    }
    prompt
}

/// Operation that a tool name stands for, by its prefix; search otherwise.
pub open spec fn operation_for_tool(name: Seq<char>) -> Operation {
    if has_prefix(name, TOOL_PREFIX_SEARCH@) {
        Operation::Search
    } else if has_prefix(name, TOOL_PREFIX_GET@) {
        Operation::Read
    } else if has_prefix(name, TOOL_PREFIX_MUTATE@) {
        Operation::Mutate
    } else if has_prefix(name, TOOL_PREFIX_AGGREGATE@) {
        Operation::Aggregate
    } else if has_prefix(name, TOOL_PREFIX_TRAVERSE@) {
        Operation::Traverse
    } else if has_prefix(name, TOOL_PREFIX_EXECUTE@) {
        Operation::Execute
    } else {
        Operation::Search
    }
}

/// Operation that tool `name` stands for when its use is checked by policy.
pub fn tool_operation(name: &str) -> (result: Operation)
    ensures
        result == operation_for_tool(name@),
{
    if starts_with_text(name, TOOL_PREFIX_SEARCH) {
        Operation::Search
    } else if starts_with_text(name, TOOL_PREFIX_GET) {
        Operation::Read
    } else if starts_with_text(name, TOOL_PREFIX_MUTATE) {
        Operation::Mutate
    } else if starts_with_text(name, TOOL_PREFIX_AGGREGATE) {
        Operation::Aggregate
    } else if starts_with_text(name, TOOL_PREFIX_TRAVERSE) {
        Operation::Traverse
    } else if starts_with_text(name, TOOL_PREFIX_EXECUTE) {
        Operation::Execute
    } else {
        Operation::Search
    }
}

/// A history is due for compaction: over its token budget when it has
/// one, else longer than the message threshold.
pub open spec fn compaction_due(messages: Seq<MessageView>, token_budget: Option<u32>) -> bool {
    match token_budget {
        Some(budget) => total_tokens(messages) > budget,
        None => messages.len() > DEFAULT_COMPACTION_THRESHOLD,
    }
}

/// Whether `messages` are due for compaction.
pub fn should_compact(messages: &Vec<Message>, token_budget: Option<u32>) -> (result: bool)
    ensures
        result == compaction_due(views(messages@), token_budget),
{
    match token_budget {
        Some(budget) => over_budget(messages.as_slice(), budget as usize),
        None => messages.len() > DEFAULT_COMPACTION_THRESHOLD,
    }
}

/// Content of the first system message; empty when there is none.
pub open spec fn system_text(messages: Seq<MessageView>) -> Seq<char>
    decreases messages.len(),
{
    if messages.len() == 0 {
        Seq::empty()
    } else if messages[0].role == ROLE_SYSTEM@ {
        messages[0].content
    } else {
        system_text(messages.drop_first())
    }
}

/// The entry of a message in a model request: its role and content.
pub open spec fn message_entry(m: MessageView) -> Map<Seq<char>, serde_json::Value> {
    Map::<Seq<char>, serde_json::Value>::empty().insert("role"@, json_string(m.role)).insert(
        "content"@,
        json_string(m.content),
    )
}

/// Entries of the messages other than system messages, in order.
pub open spec fn conversation_entries(messages: Seq<MessageView>) -> Seq<Map<Seq<char>, serde_json::Value>>
    decreases messages.len(),
{
    if messages.len() == 0 {
        Seq::empty()
    } else {
        let rest = conversation_entries(messages.drop_last());
        if messages.last().role == ROLE_SYSTEM@ {
            rest
        } else {
            rest.push(message_entry(messages.last()))
        }
    }
}

/// Entries of all messages, in order.
pub open spec fn all_entries(messages: Seq<MessageView>) -> Seq<Map<Seq<char>, serde_json::Value>> {
    messages.map_values(|m: MessageView| message_entry(m))
}

/// Contents of a list of maps.
pub open spec fn map_contents(maps: Seq<StringMap<serde_json::Value>>) -> Seq<Map<Seq<char>, serde_json::Value>> {
    maps.map_values(|m: StringMap<serde_json::Value>| m.as_map())
}

/// Each map holds each key once.
pub open spec fn maps_wf(maps: Seq<StringMap<serde_json::Value>>) -> bool {
    forall|i: int| 0 <= i < maps.len() ==> #[trigger] maps[i].wf()
}

/// `request` asks the model to go on with `messages`, offering `tools`.
pub open spec fn is_turn_request(
    request: ModelRequest,
    messages: Seq<MessageView>,
    tools: Seq<ToolDefView>,
    max_tokens: Option<i32>,
) -> bool {
    &&& request.system@ == system_text(messages)
    &&& maps_wf(request.messages@)
    &&& map_contents(request.messages@) == conversation_entries(messages)
    &&& tool_views(request.tools@) == tools
    &&& request.max_tokens == max_tokens
    &&& request.tool_choice is None
    &&& request.response_format is None
    &&& request.parallel_tool_calls is None
}

/// A copy of a JSON value.
#[verifier::external_body]
pub(crate) fn json_copy(value: &serde_json::Value) -> (result: serde_json::Value)
    ensures
        result == *value,
{
    value.clone()
}

/// A copy of a tool definition.
pub fn copy_tool(tool: &ToolDef) -> (result: ToolDef)
    ensures
        result@ == tool@,
{
    ToolDef {
        name: tool.name.clone(),
        description: tool.description.clone(),
        parameters: json_copy(&tool.parameters),
    }
}

/// Copies of tool definitions.
pub fn copy_tools(tools: &Vec<ToolDef>) -> (result: Vec<ToolDef>)
    ensures
        tool_views(result@) == tool_views(tools@),
{
    let mut out: Vec<ToolDef> = Vec::new();
    let mut i: usize = 0;
    while i < tools.len()
        invariant
            i <= tools@.len(),
            out@.len() == i,
            forall|k: int| 0 <= k < i ==> #[trigger] out@[k]@ == tools@[k]@,
        decreases tools@.len() - i,
    {
        out.push(copy_tool(&tools[i]));
        i = i + 1;
    }
    proof {
        assert(tool_views(out@) =~= tool_views(tools@));
    }
    out
}

/// The request entry of a message.
pub fn message_entry_of(message: &Message) -> (result: StringMap<serde_json::Value>)
    ensures
        result.wf(),
        result.as_map() == message_entry(message@),
{
    let mut entry: StringMap<serde_json::Value> = StringMap::new();
    entry.insert("role".to_owned(), json_from_str(message.role.as_str()));
    entry.insert("content".to_owned(), json_from_str(message.content.as_str()));
    entry
}

/// The request that asks the model to go on with `messages`, offering `tools`.
pub fn turn_request(messages: &Vec<Message>, tools: &Vec<ToolDef>, max_tokens: Option<i32>) -> (result: ModelRequest)
    ensures
        is_turn_request(result, views(messages@), tool_views(tools@), max_tokens),
{
    let ghost ms = views(messages@);
    let mut system: Option<String> = None;
    let mut entries: Vec<StringMap<serde_json::Value>> = Vec::new();
    let mut i: usize = 0;
    proof {
        assert(ms.skip(0) =~= ms);
        assert(map_contents(entries@) =~= conversation_entries(ms.take(0)));
    }
    while i < messages.len()
        invariant
            i <= messages@.len(),
            ms == views(messages@),
            maps_wf(entries@),
            map_contents(entries@) == conversation_entries(ms.take(i as int)),
            match system {
                Some(s) => s@ == system_text(ms),
                None => system_text(ms) == system_text(ms.skip(i as int)),
            },
        decreases messages@.len() - i,
    {
        proof {
            assert(ms.take(i + 1).drop_last() =~= ms.take(i as int));
            assert(ms.skip(i as int).drop_first() =~= ms.skip(i + 1));
        }
        let is_system = str_eq(messages[i].role.as_str(), ROLE_SYSTEM);
        if is_system {
            if system.is_none() {
                system = Some(messages[i].content.clone());
            }
        } else {
            let ghost before = entries@;
            let entry = message_entry_of(&messages[i]);
            entries.push(entry);
            proof {
                assert(map_contents(entries@) =~= map_contents(before).push(entry.as_map()));
            }
        }
        i = i + 1;
    }
    proof {
        assert(ms.take(i as int) =~= ms);
        assert(ms.skip(i as int) =~= Seq::<MessageView>::empty());
    }
    let system_prompt = match system {
        Some(s) => s,
        None => String::new(),
    };
    ModelRequest {
        system: system_prompt,
        messages: entries,
        tools: copy_tools(tools),
        max_tokens,
        tool_choice: None,
        response_format: None,
        parallel_tool_calls: None,
    }
}

/// Which ports an agent runtime is configured with.
#[derive(Debug, Clone, Copy, PartialEq, Eq, Structural)]
pub struct AgentPorts {
    /// A planner is configured.
    pub planner: bool,
    /// A compactor is configured.
    pub compactor: bool,
    /// A memory store is configured.
    pub memory_store: bool,
    /// A communication channel is configured.
    pub channel: bool,
    /// A sub-agent runtime is configured.
    pub subagent_runtime: bool,
    /// An approval provider is configured.
    pub approval_provider: bool,
    /// A policy evaluator is configured.
    pub policy_evaluator: bool,
}

/// Entries of the JSON object held by `text`, by key; none when `text`
/// holds no JSON object.
pub uninterp spec fn json_object_entries(text: Seq<char>) -> Seq<(Seq<char>, serde_json::Value)>;

/// Views of the keys of a list of entries.
pub open spec fn entry_views(entries: Seq<(String, serde_json::Value)>) -> Seq<(Seq<char>, serde_json::Value)> {
    entries.map_values(|e: (String, serde_json::Value)| (e.0@, e.1))
}

/// Parse tool-call arguments as a JSON object; no entries when they are not one.
#[verifier::external_body]
pub(crate) fn parse_arguments(text: &str) -> (result: Vec<(String, serde_json::Value)>)
    ensures
        entry_views(result@) == json_object_entries(text@),
{
    let map: std::collections::BTreeMap<String, serde_json::Value> = serde_json::from_str(text).unwrap_or_default();
    map.into_iter().collect()
}

/// The integer held by a JSON value, when it holds one that fits in `i64`.
pub uninterp spec fn json_i64(value: serde_json::Value) -> Option<i64>;

/// The integer held by `value`, when it holds one that fits in `i64`.
#[verifier::external_body]
pub(crate) fn json_as_i64(value: &serde_json::Value) -> (result: Option<i64>)
    ensures
        result == json_i64(*value),
{
    value.as_i64()
}

/// The value of the first entry under `key`.
pub open spec fn argument(entries: Seq<(Seq<char>, serde_json::Value)>, key: Seq<char>) -> Option<serde_json::Value>
    decreases entries.len(),
{
    if entries.len() == 0 {
        None
    } else if entries[0].0 == key {
        Some(entries[0].1)
    } else {
        argument(entries.drop_first(), key)
    }
}

/// The text under `key`; empty when there is none or it is not a string.
pub open spec fn argument_text(entries: Seq<(Seq<char>, serde_json::Value)>, key: Seq<char>) -> Seq<char> {
    match argument(entries, key) {
        Some(v) => match json_str(v) {
            Some(s) => s,
            None => Seq::empty(),
        },
        None => Seq::empty(),
    }
}

/// The timeout under `key`, as the original integer reinterpreted as
/// unsigned; `default` when there is none.
pub open spec fn argument_timeout(entries: Seq<(Seq<char>, serde_json::Value)>, key: Seq<char>, default: u64) -> u64 {
    match argument(entries, key) {
        Some(v) => match json_i64(v) {
            Some(n) => n as u64,
            None => default,
        },
        None => default,
    }
}

/// The port call a tool call asks for, or the reply given without one.
pub enum ToolInvocation {
    /// Store `value` under `key` in memory.
    Remember {
        /// Key.
        key: String,
        /// Value.
        value: String,
    },
    /// Recall the value under `key`.
    Recall {
        /// Key.
        key: String,
    },
    /// Search memory for `query`.
    SearchMemory {
        /// Query.
        query: String,
    },
    /// Delete `key` from memory.
    Forget {
        /// Key.
        key: String,
    },
    /// Send `message` to `channel`.
    Send {
        /// Channel.
        channel: String,
        /// Message.
        message: String,
    },
    /// Receive from `channel`, waiting at most `timeout_ms`.
    Receive {
        /// Channel.
        channel: String,
        /// Timeout in milliseconds.
        timeout_ms: u64,
    },
    /// Wait for sub-agent run `run_id`, at most `timeout_ms`.
    Wait {
        /// Run id.
        run_id: String,
        /// Timeout in milliseconds.
        timeout_ms: u64,
    },
    /// Reply `text` without a port call.
    Reply {
        /// Reply text.
        text: String,
    },
}

/// A tool invocation as plain values.
pub enum ToolInvocationView {
    /// Store a value under a key.
    Remember(Seq<char>, Seq<char>),
    /// Recall the value under a key.
    Recall(Seq<char>),
    /// Search memory.
    SearchMemory(Seq<char>),
    /// Delete a key.
    Forget(Seq<char>),
    /// Send a message to a channel.
    Send(Seq<char>, Seq<char>),
    /// Receive from a channel with a timeout.
    Receive(Seq<char>, u64),
    /// Wait for a run with a timeout.
    Wait(Seq<char>, u64),
    /// Reply without a port call.
    Reply(Seq<char>),
}

impl View for ToolInvocation {
    type V = ToolInvocationView;

    open spec fn view(&self) -> ToolInvocationView {
        match self {
            ToolInvocation::Remember { key, value } => ToolInvocationView::Remember(key@, value@),
            ToolInvocation::Recall { key } => ToolInvocationView::Recall(key@),
            ToolInvocation::SearchMemory { query } => ToolInvocationView::SearchMemory(query@),
            ToolInvocation::Forget { key } => ToolInvocationView::Forget(key@),
            ToolInvocation::Send { channel, message } => ToolInvocationView::Send(channel@, message@),
            ToolInvocation::Receive { channel, timeout_ms } => ToolInvocationView::Receive(channel@, *timeout_ms),
            ToolInvocation::Wait { run_id, timeout_ms } => ToolInvocationView::Wait(run_id@, *timeout_ms),
            ToolInvocation::Reply { text } => ToolInvocationView::Reply(text@),
        }
    }
}

/// What a call of tool `name` with arguments `args` asks for, given the
/// configured ports; a tool whose port is missing is unknown.
pub open spec fn invocation_for(
    name: Seq<char>,
    args: Seq<(Seq<char>, serde_json::Value)>,
    ports: AgentPorts,
) -> ToolInvocationView {
    if name == TOOL_MEMORY_REMEMBER@ && ports.memory_store {
        ToolInvocationView::Remember(argument_text(args, "key"@), argument_text(args, "value"@))
    } else if name == TOOL_MEMORY_RECALL@ && ports.memory_store {
        ToolInvocationView::Recall(argument_text(args, "key"@))
    } else if name == TOOL_MEMORY_SEARCH@ && ports.memory_store {
        ToolInvocationView::SearchMemory(argument_text(args, "query"@))
    } else if name == TOOL_MEMORY_FORGET@ && ports.memory_store {
        ToolInvocationView::Forget(argument_text(args, "key"@))
    } else if name == TOOL_CHANNEL_SEND@ && ports.channel {
        ToolInvocationView::Send(argument_text(args, "channel"@), argument_text(args, "message"@))
    } else if name == TOOL_CHANNEL_RECEIVE@ && ports.channel {
        ToolInvocationView::Receive(
            argument_text(args, "channel"@),
            argument_timeout(args, "timeout_ms"@, DEFAULT_CHANNEL_TIMEOUT_MS),
        )
    } else if name == TOOL_SUBAGENT_SPAWN@ && ports.subagent_runtime {
        ToolInvocationView::Reply("spawned "@ + argument_text(args, "agent_name"@))
    } else if name == TOOL_SUBAGENT_WAIT@ && ports.subagent_runtime {
        ToolInvocationView::Wait(
            argument_text(args, "run_id"@),
            argument_timeout(args, "timeout_ms"@, DEFAULT_SUBAGENT_TIMEOUT_MS),
        )
    } else {
        ToolInvocationView::Reply("unknown tool: "@ + name)
    }
}

/// The value of the first entry under `key`.
fn find_argument<'a>(args: &'a Vec<(String, serde_json::Value)>, key: &str) -> (result: Option<&'a serde_json::Value>)
    ensures
        match result {
            Some(v) => argument(entry_views(args@), key@) == Some(*v),
            None => argument(entry_views(args@), key@) is None,
        },
{
    let ghost es = entry_views(args@);
    let mut i: usize = 0;
    proof {
        assert(es.skip(0) =~= es);
    }
    while i < args.len()
        invariant
            i <= args@.len(),
            es == entry_views(args@),
            argument(es, key@) == argument(es.skip(i as int), key@),
        decreases args@.len() - i,
    {
        proof {
            assert(es.skip(i as int).drop_first() =~= es.skip(i + 1));
            assert(es.skip(i as int)[0] == es[i as int]);
        }
        if str_eq(args[i].0.as_str(), key) {
            return Some(&args[i].1);
        }
        i = i + 1;
    }
    proof {
        assert(es.skip(i as int) =~= Seq::<(Seq<char>, serde_json::Value)>::empty());
    }
    None
}

/// The text under `key`; empty when there is none or it is not a string.
fn text_argument(args: &Vec<(String, serde_json::Value)>, key: &str) -> (result: String)
    ensures
        result@ == argument_text(entry_views(args@), key@),
{
    proof {
        assert(entry_views(args@).skip(0) =~= entry_views(args@));
    }
    match find_argument(args, key) {
        Some(v) => match json_as_str(v) {
            Some(s) => s.to_owned(),
            None => String::new(),
        },
        None => String::new(),
    }
}

/// The timeout under `key`; `default` when there is none.
fn timeout_argument(args: &Vec<(String, serde_json::Value)>, key: &str, default: u64) -> (result: u64)
    ensures
        result == argument_timeout(entry_views(args@), key@, default),
{
    proof {
        assert(entry_views(args@).skip(0) =~= entry_views(args@));
    }
    match find_argument(args, key) {
        Some(v) => match json_as_i64(v) {
            Some(n) => n as u64,
            None => default,
        },
        None => default,
    }
}

/// What `call` asks of the configured `ports`.
pub fn plan_tool_call(call: &ToolCall, ports: AgentPorts) -> (result: ToolInvocation)
    ensures
        result@ == invocation_for(call.name@, json_object_entries(call.arguments@), ports),
{
    let args = parse_arguments(call.arguments.as_str());
    let name = call.name.as_str();
    proof {
        reveal_strlit("key");
        reveal_strlit("value");
        reveal_strlit("query");
        reveal_strlit("channel");
        reveal_strlit("message");
        reveal_strlit("timeout_ms");
        reveal_strlit("agent_name");
        reveal_strlit("run_id");
    }
    if str_eq(name, TOOL_MEMORY_REMEMBER) && ports.memory_store {
        ToolInvocation::Remember { key: text_argument(&args, "key"), value: text_argument(&args, "value") }
    } else if str_eq(name, TOOL_MEMORY_RECALL) && ports.memory_store {
        ToolInvocation::Recall { key: text_argument(&args, "key") }
    } else if str_eq(name, TOOL_MEMORY_SEARCH) && ports.memory_store {
        ToolInvocation::SearchMemory { query: text_argument(&args, "query") }
    } else if str_eq(name, TOOL_MEMORY_FORGET) && ports.memory_store {
        ToolInvocation::Forget { key: text_argument(&args, "key") }
    } else if str_eq(name, TOOL_CHANNEL_SEND) && ports.channel {
        ToolInvocation::Send { channel: text_argument(&args, "channel"), message: text_argument(&args, "message") }
    } else if str_eq(name, TOOL_CHANNEL_RECEIVE) && ports.channel {
        ToolInvocation::Receive {
            channel: text_argument(&args, "channel"),
            timeout_ms: timeout_argument(&args, "timeout_ms", DEFAULT_CHANNEL_TIMEOUT_MS),
        }
    } else if str_eq(name, TOOL_SUBAGENT_SPAWN) && ports.subagent_runtime {
        let agent_name = text_argument(&args, "agent_name");
        ToolInvocation::Reply { text: concat("spawned ", agent_name.as_str()) }
    } else if str_eq(name, TOOL_SUBAGENT_WAIT) && ports.subagent_runtime {
        ToolInvocation::Wait {
            run_id: text_argument(&args, "run_id"),
            timeout_ms: timeout_argument(&args, "timeout_ms", DEFAULT_SUBAGENT_TIMEOUT_MS),
        }
    } else {
        ToolInvocation::Reply { text: concat("unknown tool: ", name) }
    }
}

/// The reply of a tool whose port call succeeded, when that reply does not
/// depend on what the port returned: `ok` for storing, forgetting and
/// sending, `done` for waiting, and the reply text of a reply.
pub open spec fn fixed_reply_of(invocation: ToolInvocationView) -> Option<Seq<char>> {
    match invocation {
        ToolInvocationView::Remember(..) => Some("ok"@),
        ToolInvocationView::Forget(..) => Some("ok"@),
        ToolInvocationView::Send(..) => Some("ok"@),
        ToolInvocationView::Wait(..) => Some("done"@),
        ToolInvocationView::Reply(text) => Some(text),
        _ => None,
    }
}

/// The reply of a tool whose port call succeeded, when it is fixed.
pub fn fixed_reply(invocation: &ToolInvocation) -> (result: Option<String>)
    ensures
        match result {
            Some(s) => fixed_reply_of(invocation@) == Some(s@),
            None => fixed_reply_of(invocation@) is None,
        },
{
    match invocation {
        ToolInvocation::Remember { .. } => Some("ok".to_owned()),
        ToolInvocation::Forget { .. } => Some("ok".to_owned()),
        ToolInvocation::Send { .. } => Some("ok".to_owned()),
        ToolInvocation::Wait { .. } => Some("done".to_owned()),
        ToolInvocation::Reply { text } => Some(text.clone()),
        _ => None,
    }
}

} // verus!
