//! The tools offered to agents: memory, channel and sub-agent tools, and the
//! backend-agnostic ontology tools. Each parameter schema is written as JSON
//! text and parsed once when the catalog is built.

use vstd::prelude::*;
use crate::context::{ToolDef, ToolDefView};
use crate::agents::tool_views;
use crate::primitives::{json_from_str, json_string};

verus! {

/// Tool: store a key-value pair in agent memory.
pub const TOOL_MEMORY_REMEMBER: &'static str = "memory_remember";

/// Tool: recall a value from agent memory by key.
pub const TOOL_MEMORY_RECALL: &'static str = "memory_recall";

/// Tool: search agent memory by query.
pub const TOOL_MEMORY_SEARCH: &'static str = "memory_search";

/// Tool: delete a key from agent memory.
pub const TOOL_MEMORY_FORGET: &'static str = "memory_forget";

/// Tool: send a message to a channel.
pub const TOOL_CHANNEL_SEND: &'static str = "channel_send";

/// Tool: receive a message from a channel.
pub const TOOL_CHANNEL_RECEIVE: &'static str = "channel_receive";

/// Tool: spawn a sub-agent.
pub const TOOL_SUBAGENT_SPAWN: &'static str = "subagent_spawn";

/// Tool: wait for a sub-agent run to complete.
pub const TOOL_SUBAGENT_WAIT: &'static str = "subagent_wait";

/// The JSON value that `text` parses to, if it is JSON.
pub uninterp spec fn parsed_json(text: Seq<char>) -> Option<serde_json::Value>;

/// Parse `text` as JSON.
#[verifier::external_body]
pub(crate) fn parse_json(text: &str) -> (result: Option<serde_json::Value>)
    ensures
        result == parsed_json(text@),
{
    serde_json::from_str(text).ok()
}

/// The JSON value of a schema text; the text itself as a JSON string when
/// it is not JSON.
pub open spec fn schema_value(text: Seq<char>) -> serde_json::Value {
    match parsed_json(text) {
        Some(v) => v,
        None => json_string(text),
    }
}

/// `tool` is named `name`, described by `description`, and takes the
/// parameters that `schema` describes.
pub open spec fn tool_is(tool: ToolDef, name: Seq<char>, description: Seq<char>, schema: Seq<char>) -> bool {
    &&& tool.name@ == name
    &&& tool.description@ == description
    &&& tool.parameters == schema_value(schema)
}

/// The view of a tool named `name`, described by `description`, whose
/// parameters the JSON text `schema` describes.
pub open spec fn tool_view(name: Seq<char>, description: Seq<char>, schema: Seq<char>) -> ToolDefView {
    ToolDefView { name, description, parameters: schema_value(schema) }
}

/// A tool named `name`, described by `description`, whose parameters the
/// JSON text `schema` describes.
pub fn tool(name: &str, description: &str, schema: &str) -> (result: ToolDef)
    ensures
        tool_is(result, name@, description@, schema@),
{
    let parameters = match parse_json(schema) {
        Some(v) => v,
        None => json_from_str(schema),
    };
    ToolDef { name: name.to_owned(), description: description.to_owned(), parameters }
}

/// Parameters of the remember tool.
pub const MEMORY_REMEMBER_SCHEMA: &'static str = "{\"type\": \"object\", \"properties\": {\"key\": {\"type\": \"string\"}, \"value\": {\"type\": \"string\"}}, \"required\": [\"key\", \"value\"]}";

/// Parameters of the recall and forget tools.
pub const MEMORY_KEY_SCHEMA: &'static str = "{\"type\": \"object\", \"properties\": {\"key\": {\"type\": \"string\"}}, \"required\": [\"key\"]}";

/// Parameters of the memory search tool.
pub const MEMORY_SEARCH_SCHEMA: &'static str = "{\"type\": \"object\", \"properties\": {\"query\": {\"type\": \"string\"}}, \"required\": [\"query\"]}";

/// Views of the memory tools.
pub open spec fn memory_tool_views() -> Seq<ToolDefView> {
    seq![
        tool_view(TOOL_MEMORY_REMEMBER@, "Store a key-value pair in memory."@, MEMORY_REMEMBER_SCHEMA@),
        tool_view(TOOL_MEMORY_RECALL@, "Recall a value from memory by key."@, MEMORY_KEY_SCHEMA@),
        tool_view(TOOL_MEMORY_SEARCH@, "Search memory by query."@, MEMORY_SEARCH_SCHEMA@),
        tool_view(TOOL_MEMORY_FORGET@, "Delete a key from memory."@, MEMORY_KEY_SCHEMA@),
    ]
}

/// The memory tools.
pub fn memory_tools() -> (result: Vec<ToolDef>)
    ensures
        tool_views(result@) == memory_tool_views(),
        result@.len() == 4,
        tool_is(result@[0], TOOL_MEMORY_REMEMBER@, "Store a key-value pair in memory."@, MEMORY_REMEMBER_SCHEMA@),
        tool_is(result@[1], TOOL_MEMORY_RECALL@, "Recall a value from memory by key."@, MEMORY_KEY_SCHEMA@),
        tool_is(result@[2], TOOL_MEMORY_SEARCH@, "Search memory by query."@, MEMORY_SEARCH_SCHEMA@),
        tool_is(result@[3], TOOL_MEMORY_FORGET@, "Delete a key from memory."@, MEMORY_KEY_SCHEMA@),
{
    let mut tools = Vec::new();
    tools.push(tool(TOOL_MEMORY_REMEMBER, "Store a key-value pair in memory.", MEMORY_REMEMBER_SCHEMA));
    tools.push(tool(TOOL_MEMORY_RECALL, "Recall a value from memory by key.", MEMORY_KEY_SCHEMA));
    tools.push(tool(TOOL_MEMORY_SEARCH, "Search memory by query.", MEMORY_SEARCH_SCHEMA));
    tools.push(tool(TOOL_MEMORY_FORGET, "Delete a key from memory.", MEMORY_KEY_SCHEMA));
    proof {
        assert(tool_views(tools@) =~= memory_tool_views());
    }
    tools
}

/// Parameters of the channel send tool.
pub const CHANNEL_SEND_SCHEMA: &'static str = "{\"type\": \"object\", \"properties\": {\"channel\": {\"type\": \"string\"}, \"message\": {\"type\": \"string\"}}, \"required\": [\"channel\", \"message\"]}";

/// Parameters of the channel receive tool.
pub const CHANNEL_RECEIVE_SCHEMA: &'static str = "{\"type\": \"object\", \"properties\": {\"channel\": {\"type\": \"string\"}, \"timeout_ms\": {\"type\": \"integer\"}}, \"required\": [\"channel\", \"timeout_ms\"]}";

/// Views of the channel tools.
pub open spec fn channel_tool_views() -> Seq<ToolDefView> {
    seq![
        tool_view(TOOL_CHANNEL_SEND@, "Send a message to a channel."@, CHANNEL_SEND_SCHEMA@),
        tool_view(TOOL_CHANNEL_RECEIVE@, "Receive a message from a channel."@, CHANNEL_RECEIVE_SCHEMA@),
    ]
}

/// The channel tools.
pub fn channel_tools() -> (result: Vec<ToolDef>)
    ensures
        tool_views(result@) == channel_tool_views(),
        result@.len() == 2,
        tool_is(result@[0], TOOL_CHANNEL_SEND@, "Send a message to a channel."@, CHANNEL_SEND_SCHEMA@),
        tool_is(result@[1], TOOL_CHANNEL_RECEIVE@, "Receive a message from a channel."@, CHANNEL_RECEIVE_SCHEMA@),
{
    let mut tools = Vec::new();
    tools.push(tool(TOOL_CHANNEL_SEND, "Send a message to a channel.", CHANNEL_SEND_SCHEMA));
    tools.push(tool(TOOL_CHANNEL_RECEIVE, "Receive a message from a channel.", CHANNEL_RECEIVE_SCHEMA));
    proof {
        assert(tool_views(tools@) =~= channel_tool_views());
    }
    tools
}

/// Parameters of the sub-agent spawn tool.
pub const SUBAGENT_SPAWN_SCHEMA: &'static str = "{\"type\": \"object\", \"properties\": {\"agent_name\": {\"type\": \"string\"}, \"input\": {\"type\": \"object\"}}, \"required\": [\"agent_name\", \"input\"]}";

/// Parameters of the sub-agent wait tool.
pub const SUBAGENT_WAIT_SCHEMA: &'static str = "{\"type\": \"object\", \"properties\": {\"run_id\": {\"type\": \"string\"}, \"timeout_ms\": {\"type\": \"integer\"}}, \"required\": [\"run_id\", \"timeout_ms\"]}";

/// Views of the sub-agent tools.
pub open spec fn subagent_tool_views() -> Seq<ToolDefView> {
    seq![
        tool_view(TOOL_SUBAGENT_SPAWN@, "Spawn a subagent."@, SUBAGENT_SPAWN_SCHEMA@),
        tool_view(TOOL_SUBAGENT_WAIT@, "Wait for a subagent run to complete."@, SUBAGENT_WAIT_SCHEMA@),
    ]
}

/// The sub-agent tools.
pub fn subagent_tools() -> (result: Vec<ToolDef>)
    ensures
        tool_views(result@) == subagent_tool_views(),
        result@.len() == 2,
        tool_is(result@[0], TOOL_SUBAGENT_SPAWN@, "Spawn a subagent."@, SUBAGENT_SPAWN_SCHEMA@),
        tool_is(result@[1], TOOL_SUBAGENT_WAIT@, "Wait for a subagent run to complete."@, SUBAGENT_WAIT_SCHEMA@),
{
    let mut tools = Vec::new();
    tools.push(tool(TOOL_SUBAGENT_SPAWN, "Spawn a subagent.", SUBAGENT_SPAWN_SCHEMA));
    tools.push(tool(TOOL_SUBAGENT_WAIT, "Wait for a subagent run to complete.", SUBAGENT_WAIT_SCHEMA));
    proof {
        assert(tool_views(tools@) =~= subagent_tool_views());
    }
    tools
}

/// Parameters of a tool that takes none.
pub const EMPTY_OBJECT_SCHEMA: &'static str = "{\"type\": \"object\"}";

/// Parameters of the ontology search tool.
pub const ONTOLOGY_SEARCH_SCHEMA: &'static str = "{\"type\": \"object\", \"required\": [\"object_type\"], \"properties\": {\"object_type\": {\"type\": \"string\"}, \"limit\": {\"type\": \"integer\", \"minimum\": 1, \"maximum\": 100}}}";

/// Parameters of the ontology get tool.
pub const ONTOLOGY_GET_SCHEMA: &'static str = "{\"type\": \"object\", \"required\": [\"object_type\", \"id\"], \"properties\": {\"object_type\": {\"type\": \"string\"}, \"id\": {\"type\": \"string\"}}}";

/// Parameters of the ontology aggregate tool.
pub const ONTOLOGY_AGGREGATE_SCHEMA: &'static str = "{\"type\": \"object\", \"required\": [\"object_type\"], \"properties\": {\"object_type\": {\"type\": \"string\"}}}";

/// Parameters of the object set resolve tool.
pub const ONTOLOGY_RESOLVE_SCHEMA: &'static str = "{\"type\": \"object\", \"required\": [\"name\"], \"properties\": {\"name\": {\"type\": \"string\"}}}";

/// Parameters of the object set compose tool.
pub const ONTOLOGY_COMPOSE_SCHEMA: &'static str = "{\"type\": \"object\", \"required\": [\"names\", \"op\"], \"properties\": {\"names\": {\"type\": \"array\", \"items\": {\"type\": \"string\"}}, \"op\": {\"type\": \"string\", \"enum\": [\"union\", \"intersect\", \"subtract\"]}}}";

/// Parameters of the ontology traverse tool.
pub const ONTOLOGY_TRAVERSE_SCHEMA: &'static str = "{\"type\": \"object\", \"required\": [\"link\", \"source_id\"], \"properties\": {\"link\": {\"type\": \"string\"}, \"source_id\": {\"type\": \"string\"}, \"limit\": {\"type\": \"integer\", \"minimum\": 1, \"maximum\": 100}}}";

/// Parameters of the action describe tool.
pub const ONTOLOGY_DESCRIBE_SCHEMA: &'static str = "{\"type\": \"object\", \"required\": [\"action\"], \"properties\": {\"action\": {\"type\": \"string\"}}}";

/// The backend-agnostic ontology tools. Callers run them through their own
/// runtime and keep product-specific authorization outside this catalog.
pub fn ontology_tools() -> (result: Vec<ToolDef>)
    ensures
        result@.len() == 10,
        tool_is(result@[0], "tesela.spec"@, "Return the active Tesela ontology spec with object types, datasources, and properties."@, EMPTY_OBJECT_SCHEMA@),
        tool_is(result@[1], "tesela.search"@, "Search records for any Tesela object type."@, ONTOLOGY_SEARCH_SCHEMA@),
        tool_is(result@[2], "tesela.get"@, "Get one record by object type and id."@, ONTOLOGY_GET_SCHEMA@),
        tool_is(result@[3], "tesela.aggregate"@, "Count records for any Tesela object type."@, ONTOLOGY_AGGREGATE_SCHEMA@),
        tool_is(result@[4], "tesela.object_set.resolve"@, "Resolve a named Tesela object set."@, ONTOLOGY_RESOLVE_SCHEMA@),
        tool_is(result@[5], "tesela.object_set.compose"@, "Compose named Tesela object sets with union, intersect, or subtract."@, ONTOLOGY_COMPOSE_SCHEMA@),
        tool_is(result@[6], "tesela.links.list"@, "List declared Tesela links between object types."@, EMPTY_OBJECT_SCHEMA@),
        tool_is(result@[7], "tesela.traverse"@, "Traverse a declared Tesela link from one source object id."@, ONTOLOGY_TRAVERSE_SCHEMA@),
        tool_is(result@[8], "tesela.actions.list"@, "List declared Tesela actions available in the active ontology without executing them."@, EMPTY_OBJECT_SCHEMA@),
        tool_is(result@[9], "tesela.action.describe"@, "Describe one declared Tesela action by API name without executing it."@, ONTOLOGY_DESCRIBE_SCHEMA@),
{
    let mut tools = Vec::new();
    tools.push(tool("tesela.spec", "Return the active Tesela ontology spec with object types, datasources, and properties.", EMPTY_OBJECT_SCHEMA));
    tools.push(tool("tesela.search", "Search records for any Tesela object type.", ONTOLOGY_SEARCH_SCHEMA));
    tools.push(tool("tesela.get", "Get one record by object type and id.", ONTOLOGY_GET_SCHEMA));
    tools.push(tool("tesela.aggregate", "Count records for any Tesela object type.", ONTOLOGY_AGGREGATE_SCHEMA));
    tools.push(tool("tesela.object_set.resolve", "Resolve a named Tesela object set.", ONTOLOGY_RESOLVE_SCHEMA));
    tools.push(tool("tesela.object_set.compose", "Compose named Tesela object sets with union, intersect, or subtract.", ONTOLOGY_COMPOSE_SCHEMA));
    tools.push(tool("tesela.links.list", "List declared Tesela links between object types.", EMPTY_OBJECT_SCHEMA));
    tools.push(tool("tesela.traverse", "Traverse a declared Tesela link from one source object id.", ONTOLOGY_TRAVERSE_SCHEMA));
    tools.push(tool("tesela.actions.list", "List declared Tesela actions available in the active ontology without executing them.", EMPTY_OBJECT_SCHEMA));
    tools.push(tool("tesela.action.describe", "Describe one declared Tesela action by API name without executing it.", ONTOLOGY_DESCRIBE_SCHEMA));
    tools
}

} // verus!
