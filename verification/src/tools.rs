//! Built-in ontology tools that runtimes expose to agents: their
//! provider-visible names, documentation, policy classification and the
//! argument shapes they accept.

use vstd::prelude::*;
use crate::primitives::str_eq;

verus! {

/// Approval policy advertised by a tool.
#[derive(Debug, Clone, Copy, PartialEq, Eq)]
pub enum ToolApprovalPolicy {
    /// The tool can run without an explicit approval step.
    Never,
    /// The tool requires explicit approval with a user-visible reason.
    Required {
        /// Reason shown to the user.
        reason: &'static str,
    },
}

/// Side-effect classification for agent tool planning and policy.
#[derive(Debug, Clone, Copy, PartialEq, Eq, Structural)]
pub enum ToolSideEffect {
    /// Reads existing state only.
    ReadOnly,
    /// Mutates user-visible UI state without changing persisted data.
    UserInterface,
    /// Mutates durable ontology/application data.
    DataMutation,
    /// Starts or controls external work.
    ExternalJob,
}

/// Ontology tool exposed by runtimes.
#[derive(Debug, Clone, Copy, PartialEq, Eq, Hash, Structural)]
pub enum OntologyTool {
    /// Return the active ontology spec.
    Spec,
    /// Search records for any object type.
    Search,
    /// Fetch one record by object type and primary key.
    Get,
    /// Aggregate records.
    Aggregate,
    /// Resolve a named object set.
    ObjectSetResolve,
    /// Compose named object sets.
    ObjectSetCompose,
    /// List ontology link types.
    LinksList,
    /// Follow a named ontology link.
    Traverse,
    /// List ontology actions.
    ActionsList,
    /// Describe one ontology action.
    ActionDescribe,
}

/// Provider-visible name of each tool.
pub open spec fn tool_name(tool: OntologyTool) -> Seq<char> {
    match tool {
        OntologyTool::Spec => "tesela.spec"@,
        OntologyTool::Search => "tesela.search"@,
        OntologyTool::Get => "tesela.get"@,
        OntologyTool::Aggregate => "tesela.aggregate"@,
        OntologyTool::ObjectSetResolve => "tesela.object_set.resolve"@,
        OntologyTool::ObjectSetCompose => "tesela.object_set.compose"@,
        OntologyTool::LinksList => "tesela.links.list"@,
        OntologyTool::Traverse => "tesela.traverse"@,
        OntologyTool::ActionsList => "tesela.actions.list"@,
        OntologyTool::ActionDescribe => "tesela.action.describe"@,
    }
}

/// The tool whose provider-visible name is `name`, if any.
pub open spec fn tool_named(name: Seq<char>) -> Option<OntologyTool> {
    if name == tool_name(OntologyTool::Spec) {
        Some(OntologyTool::Spec)
    } else if name == tool_name(OntologyTool::Search) {
        Some(OntologyTool::Search)
    } else if name == tool_name(OntologyTool::Get) {
        Some(OntologyTool::Get)
    } else if name == tool_name(OntologyTool::Aggregate) {
        Some(OntologyTool::Aggregate)
    } else if name == tool_name(OntologyTool::ObjectSetResolve) {
        Some(OntologyTool::ObjectSetResolve)
    } else if name == tool_name(OntologyTool::ObjectSetCompose) {
        Some(OntologyTool::ObjectSetCompose)
    } else if name == tool_name(OntologyTool::LinksList) {
        Some(OntologyTool::LinksList)
    } else if name == tool_name(OntologyTool::Traverse) {
        Some(OntologyTool::Traverse)
    } else if name == tool_name(OntologyTool::ActionsList) {
        Some(OntologyTool::ActionsList)
    } else if name == tool_name(OntologyTool::ActionDescribe) {
        Some(OntologyTool::ActionDescribe)
    } else {
        None
    }
}

/// Human-readable description of each tool.
pub open spec fn tool_description(tool: OntologyTool) -> Seq<char> {
    match tool {
        OntologyTool::Spec => "Return the active ontology spec."@,
        OntologyTool::Search => "Search records for any object type."@,
        OntologyTool::Get => "Fetch one record by object type and primary key."@,
        OntologyTool::Aggregate => "Aggregate records by count, sum, avg, min, or max."@,
        OntologyTool::ObjectSetResolve => "Resolve a named object set."@,
        OntologyTool::ObjectSetCompose => "Compose named object sets with union, intersect, or subtract."@,
        OntologyTool::LinksList => "List ontology link types."@,
        OntologyTool::Traverse => "Follow a named ontology link from a source record."@,
        OntologyTool::ActionsList => "List available ontology actions."@,
        OntologyTool::ActionDescribe => "Describe one ontology action."@,
    }
}

/// Short display title of each tool.
pub open spec fn tool_title(tool: OntologyTool) -> Seq<char> {
    match tool {
        OntologyTool::Spec => "Read Ontology Spec"@,
        OntologyTool::Search => "Search Objects"@,
        OntologyTool::Get => "Get Object"@,
        OntologyTool::Aggregate => "Aggregate Objects"@,
        OntologyTool::ObjectSetResolve => "Resolve Object Set"@,
        OntologyTool::ObjectSetCompose => "Compose Object Sets"@,
        OntologyTool::LinksList => "List Links"@,
        OntologyTool::Traverse => "Traverse Link"@,
        OntologyTool::ActionsList => "List Actions"@,
        OntologyTool::ActionDescribe => "Describe Action"@,
    }
}

/// Prompt guidance for agents using each tool.
pub open spec fn tool_prompt_hint(tool: OntologyTool) -> Seq<char> {
    match tool {
        OntologyTool::Spec => "Use when you need the ontology contract before choosing object types or links."@,
        OntologyTool::Search => "Use scoped filters whenever possible; prefer get or traverse when you already have IDs."@,
        OntologyTool::Get => "Use when the user or frontend context provides an object ID."@,
        OntologyTool::Aggregate => "Use for numeric summaries over one object type."@,
        OntologyTool::ObjectSetResolve => "Use saved object sets instead of recreating common filters."@,
        OntologyTool::ObjectSetCompose => "Use to combine saved object sets without loading unrelated records."@,
        OntologyTool::LinksList => "Use before traverse when you need to discover valid graph edges."@,
        OntologyTool::Traverse => "Use to follow declared ontology links from a verified source record."@,
        OntologyTool::ActionsList => "Use before proposing ontology actions."@,
        OntologyTool::ActionDescribe => "Use before executing or explaining a specific action contract."@,
    }
}

/// All built-in tools in stable registration order.
pub open spec fn all_tools() -> Seq<OntologyTool> {
    seq![
        OntologyTool::Spec,
        OntologyTool::Search,
        OntologyTool::Get,
        OntologyTool::Aggregate,
        OntologyTool::ObjectSetResolve,
        OntologyTool::ObjectSetCompose,
        OntologyTool::LinksList,
        OntologyTool::Traverse,
        OntologyTool::ActionsList,
        OntologyTool::ActionDescribe,
    ]
}

impl OntologyTool {
    /// All built-in ontology tools in stable registration order.
    pub fn all() -> (result: Vec<OntologyTool>)
        ensures
            result@ == all_tools(),
    {
        let v = vec![
            OntologyTool::Spec,
            OntologyTool::Search,
            OntologyTool::Get,
            OntologyTool::Aggregate,
            OntologyTool::ObjectSetResolve,
            OntologyTool::ObjectSetCompose,
            OntologyTool::LinksList,
            OntologyTool::Traverse,
            OntologyTool::ActionsList,
            OntologyTool::ActionDescribe,
        ];
        assert(v@ =~= all_tools());
        v
    }

    /// Parse a provider-visible tool name.
    pub fn from_name(name: &str) -> (result: Option<OntologyTool>)
        ensures
            result == tool_named(name@),
    {
        if str_eq(name, "tesela.spec") {
            Some(OntologyTool::Spec)
        } else if str_eq(name, "tesela.search") {
            Some(OntologyTool::Search)
        } else if str_eq(name, "tesela.get") {
            Some(OntologyTool::Get)
        } else if str_eq(name, "tesela.aggregate") {
            Some(OntologyTool::Aggregate)
        } else if str_eq(name, "tesela.object_set.resolve") {
            Some(OntologyTool::ObjectSetResolve)
        } else if str_eq(name, "tesela.object_set.compose") {
            Some(OntologyTool::ObjectSetCompose)
        } else if str_eq(name, "tesela.links.list") {
            Some(OntologyTool::LinksList)
        } else if str_eq(name, "tesela.traverse") {
            Some(OntologyTool::Traverse)
        } else if str_eq(name, "tesela.actions.list") {
            Some(OntologyTool::ActionsList)
        } else if str_eq(name, "tesela.action.describe") {
            Some(OntologyTool::ActionDescribe)
        } else {
            None
        }
    }

    /// Provider-visible function name.
    pub fn name(self) -> (result: &'static str)
        ensures
            result@ == tool_name(self),
    {
        match self {
            OntologyTool::Spec => "tesela.spec",
            OntologyTool::Search => "tesela.search",
            OntologyTool::Get => "tesela.get",
            OntologyTool::Aggregate => "tesela.aggregate",
            OntologyTool::ObjectSetResolve => "tesela.object_set.resolve",
            OntologyTool::ObjectSetCompose => "tesela.object_set.compose",
            OntologyTool::LinksList => "tesela.links.list",
            OntologyTool::Traverse => "tesela.traverse",
            OntologyTool::ActionsList => "tesela.actions.list",
            OntologyTool::ActionDescribe => "tesela.action.describe",
        }
    }

    /// Human-readable tool description.
    pub fn description(self) -> (result: &'static str)
        ensures
            result@ == tool_description(self),
    {
        match self {
            OntologyTool::Spec => "Return the active ontology spec.",
            OntologyTool::Search => "Search records for any object type.",
            OntologyTool::Get => "Fetch one record by object type and primary key.",
            OntologyTool::Aggregate => "Aggregate records by count, sum, avg, min, or max.",
            OntologyTool::ObjectSetResolve => "Resolve a named object set.",
            OntologyTool::ObjectSetCompose => "Compose named object sets with union, intersect, or subtract.",
            OntologyTool::LinksList => "List ontology link types.",
            OntologyTool::Traverse => "Follow a named ontology link from a source record.",
            OntologyTool::ActionsList => "List available ontology actions.",
            OntologyTool::ActionDescribe => "Describe one ontology action.",
        }
    }

    /// Short display title.
    pub fn title(self) -> (result: &'static str)
        ensures
            result@ == tool_title(self),
    {
        match self {
            OntologyTool::Spec => "Read Ontology Spec",
            OntologyTool::Search => "Search Objects",
            OntologyTool::Get => "Get Object",
            OntologyTool::Aggregate => "Aggregate Objects",
            OntologyTool::ObjectSetResolve => "Resolve Object Set",
            OntologyTool::ObjectSetCompose => "Compose Object Sets",
            OntologyTool::LinksList => "List Links",
            OntologyTool::Traverse => "Traverse Link",
            OntologyTool::ActionsList => "List Actions",
            OntologyTool::ActionDescribe => "Describe Action",
        }
    }

    /// Prompt guidance for agents.
    pub fn prompt_hint(self) -> (result: &'static str)
        ensures
            result@ == tool_prompt_hint(self),
    {
        match self {
            OntologyTool::Spec => "Use when you need the ontology contract before choosing object types or links.",
            OntologyTool::Search => "Use scoped filters whenever possible; prefer get or traverse when you already have IDs.",
            OntologyTool::Get => "Use when the user or frontend context provides an object ID.",
            OntologyTool::Aggregate => "Use for numeric summaries over one object type.",
            OntologyTool::ObjectSetResolve => "Use saved object sets instead of recreating common filters.",
            OntologyTool::ObjectSetCompose => "Use to combine saved object sets without loading unrelated records.",
            OntologyTool::LinksList => "Use before traverse when you need to discover valid graph edges.",
            OntologyTool::Traverse => "Use to follow declared ontology links from a verified source record.",
            OntologyTool::ActionsList => "Use before proposing ontology actions.",
            OntologyTool::ActionDescribe => "Use before executing or explaining a specific action contract.",
        }
    }

    /// Approval policy for this tool: every built-in tool runs without approval.
    pub fn approval(self) -> (result: ToolApprovalPolicy)
        ensures
            result == ToolApprovalPolicy::Never,
    {
        ToolApprovalPolicy::Never
    }

    /// Side-effect classification: every built-in tool only reads.
    pub fn side_effect(self) -> (result: ToolSideEffect)
        ensures
            result == ToolSideEffect::ReadOnly,
    {
        ToolSideEffect::ReadOnly
    }
}

/// Reading a tool's name back yields the same tool.
pub proof fn lemma_tool_name_round_trip(tool: OntologyTool)
    ensures
        tool_named(tool_name(tool)) == Some(tool),
{
    reveal_strlit("tesela.spec");
    reveal_strlit("tesela.search");
    reveal_strlit("tesela.get");
    reveal_strlit("tesela.aggregate");
    reveal_strlit("tesela.object_set.resolve");
    reveal_strlit("tesela.object_set.compose");
    reveal_strlit("tesela.links.list");
    reveal_strlit("tesela.traverse");
    reveal_strlit("tesela.actions.list");
    reveal_strlit("tesela.action.describe");
    assert(tool_name(OntologyTool::Spec).len() == 11);
    assert(tool_name(OntologyTool::Search).len() == 13);
    assert(tool_name(OntologyTool::Get).len() == 10);
    assert(tool_name(OntologyTool::Aggregate).len() == 16);
    assert(tool_name(OntologyTool::ObjectSetResolve).len() == 25);
    assert(tool_name(OntologyTool::ObjectSetCompose).len() == 25);
    assert(tool_name(OntologyTool::LinksList).len() == 17);
    assert(tool_name(OntologyTool::Traverse).len() == 15);
    assert(tool_name(OntologyTool::ActionsList).len() == 19);
    assert(tool_name(OntologyTool::ActionDescribe).len() == 22);
    assert(tool_name(OntologyTool::ObjectSetResolve)[18] != tool_name(OntologyTool::ObjectSetCompose)[18]);
}

/// Distinct tools carry distinct provider-visible names.
pub proof fn lemma_tool_names_distinct(first: OntologyTool, second: OntologyTool)
    requires
        first != second,
    ensures
        tool_name(first) != tool_name(second),
{
    lemma_tool_name_round_trip(first);
    lemma_tool_name_round_trip(second);
}

/// Names of the properties that a tool's input schema declares.
pub open spec fn tool_input_properties(tool: OntologyTool) -> Seq<Seq<char>> {
    match tool {
        OntologyTool::Spec | OntologyTool::LinksList | OntologyTool::ActionsList => seq![],
        OntologyTool::Search => seq!["object_type"@, "limit"@],
        OntologyTool::Get => seq!["object_type"@, "id"@],
        OntologyTool::Aggregate => seq!["object_type"@, "group_by"@, "aggregations"@],
        OntologyTool::ObjectSetResolve => seq!["name"@],
        OntologyTool::ObjectSetCompose => seq!["names"@, "op"@],
        OntologyTool::Traverse => seq!["link"@, "source_id"@, "limit"@],
        OntologyTool::ActionDescribe => seq!["action"@],
    }
}

/// Scope names that belong to the embedding application, not to the tools.
pub open spec fn host_scope_names() -> Seq<Seq<char>> {
    seq!["scenario_id"@, "world_id"@, "locale_id"@, "tenant_id"@]
}

/// No built-in tool declares a host-scope property in its input: scope
/// vocabulary belongs to the embedding application.
pub proof fn lemma_tools_declare_no_host_scope(tool: OntologyTool)
    ensures
        forall|i: int, j: int|
            0 <= i < tool_input_properties(tool).len() && 0 <= j < host_scope_names().len()
                ==> #[trigger] tool_input_properties(tool)[i] != #[trigger] host_scope_names()[j],
{
    reveal_strlit("scenario_id");
    reveal_strlit("world_id");
    reveal_strlit("locale_id");
    reveal_strlit("tenant_id");
    reveal_strlit("object_type");
    reveal_strlit("limit");
    reveal_strlit("id");
    reveal_strlit("group_by");
    reveal_strlit("aggregations");
    reveal_strlit("name");
    reveal_strlit("names");
    reveal_strlit("op");
    reveal_strlit("link");
    reveal_strlit("source_id");
    reveal_strlit("action");
    assert forall|i: int, j: int|
        0 <= i < tool_input_properties(tool).len() && 0 <= j < host_scope_names().len()
            implies #[trigger] tool_input_properties(tool)[i] != #[trigger] host_scope_names()[j] by {
        let p = tool_input_properties(tool)[i];
        let h = host_scope_names()[j];
        assert(h.len() >= 8);
        if p.len() == h.len() {
            assert(p[0] != h[0]);
        }
    }
}

impl OntologyTool {
    /// Names of the properties declared by this tool's typed input, in
    /// declaration order.
    pub fn input_properties(self) -> (result: Vec<&'static str>)
        ensures
            result@.map_values(|p: &'static str| p@) == tool_input_properties(self),
    {
        let v: Vec<&'static str> = match self {
            OntologyTool::Spec | OntologyTool::LinksList | OntologyTool::ActionsList => vec![],
            OntologyTool::Search => vec!["object_type", "limit"],
            OntologyTool::Get => vec!["object_type", "id"],
            OntologyTool::Aggregate => vec!["object_type", "group_by", "aggregations"],
            OntologyTool::ObjectSetResolve => vec!["name"],
            OntologyTool::ObjectSetCompose => vec!["names", "op"],
            OntologyTool::Traverse => vec!["link", "source_id", "limit"],
            OntologyTool::ActionDescribe => vec!["action"],
        };
        assert(v@.map_values(|p: &'static str| p@) =~= tool_input_properties(self));
        v
    }

    /// Assemble the self-contained definition of this tool around the JSON
    /// schema of its input.
    pub fn definition(self, input_schema: serde_json::Value) -> (result: OntologyToolDefinition)
        ensures
            result.tool == self,
            result.name@ == tool_name(self),
            result.title@ == tool_title(self),
            result.description@ == tool_description(self),
            result.prompt_hint@ == tool_prompt_hint(self),
            result.approval == ToolApprovalPolicy::Never,
            result.side_effect == ToolSideEffect::ReadOnly,
            result.input_schema == input_schema,
    {
        OntologyToolDefinition {
            tool: self,
            name: self.name(),
            title: self.title(),
            description: self.description(),
            prompt_hint: self.prompt_hint(),
            approval: self.approval(),
            side_effect: self.side_effect(),
            input_schema,
        }
    }
}

/// Self-contained ontology tool definition.
#[derive(Debug)]
pub struct OntologyToolDefinition {
    /// Typed tool identifier.
    pub tool: OntologyTool,
    /// Provider-visible name.
    pub name: &'static str,
    /// Short display title.
    pub title: &'static str,
    /// Provider-visible description.
    pub description: &'static str,
    /// Prompt guidance for agents.
    pub prompt_hint: &'static str,
    /// Approval policy.
    pub approval: ToolApprovalPolicy,
    /// Side-effect classification.
    pub side_effect: ToolSideEffect,
    /// JSON schema for arguments.
    pub input_schema: serde_json::Value,
}

/// Empty tool input.
#[derive(Debug, Clone)]
pub struct EmptyArgs {}

/// Search records for one object type.
#[derive(Debug, Clone)]
pub struct SearchArgs {
    /// Object type API name.
    pub object_type: String,
    /// Optional page size.
    pub limit: Option<i32>,
}

/// Fetch one record by primary key.
#[derive(Debug, Clone)]
pub struct GetArgs {
    /// Object type API name.
    pub object_type: String,
    /// Primary key.
    pub id: String,
}

/// Aggregate records for one object type.
#[derive(Debug, Clone)]
pub struct AggregateArgs {
    /// Object type API name.
    pub object_type: String,
    /// Group-by property names.
    pub group_by: Vec<String>,
    /// Aggregate expressions.
    pub aggregations: Vec<AggregateInput>,
}

/// Aggregate expression accepted by the ontology aggregate tool.
#[derive(Debug, Clone)]
pub struct AggregateInput {
    /// Aggregate function.
    pub function: AggregateFunctionInput,
    /// Property to aggregate for non-count functions.
    pub property: Option<String>,
    /// Output alias.
    pub alias: Option<String>,
}

/// Aggregate function accepted by tools.
#[derive(Debug, Clone, Copy, PartialEq, Eq, Structural)]
pub enum AggregateFunctionInput {
    /// Count records.
    Count,
    /// Sum numeric values.
    Sum,
    /// Average numeric values.
    Avg,
    /// Minimum value.
    Min,
    /// Maximum value.
    Max,
}

/// Resolve a saved object set.
#[derive(Debug, Clone)]
pub struct ObjectSetResolveArgs {
    /// Object set API name.
    pub name: String,
}

/// Compose saved object sets.
#[derive(Debug, Clone)]
pub struct ObjectSetComposeArgs {
    /// Object set API names.
    pub names: Vec<String>,
    /// Composition operation.
    pub op: ObjectSetComposeOp,
}

/// Object set composition operation.
#[derive(Debug, Clone, Copy, PartialEq, Eq, Structural)]
pub enum ObjectSetComposeOp {
    /// Union all object sets.
    Union,
    /// Intersect all object sets.
    Intersect,
    /// Subtract later sets from the first set.
    Subtract,
}

/// Traverse a link from a source record.
#[derive(Debug, Clone)]
pub struct TraverseArgs {
    /// Link type API name.
    pub link: String,
    /// Source record primary key.
    pub source_id: String,
    /// Optional page size.
    pub limit: Option<i32>,
}

/// Describe one action.
#[derive(Debug, Clone)]
pub struct ActionDescribeArgs {
    /// Action API name.
    pub action: String,
}

} // verus!
