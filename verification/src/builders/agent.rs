//! Builder for agent definitions.

use vstd::prelude::*;
use crate::ir::{Agent, AgentLimits, AgentMemory, ContextSource};
use crate::primitives::{entries_of, insert_into, opt_wf, pushed, some_text, ApiName, StringMap};

verus! {

/// Builder for [`Agent`].
pub struct AgentBuilder {
    api_name: ApiName,
    display: Option<String>,
    description: Option<String>,
    model: Option<String>,
    model_provider: Option<String>,
    instructions: Option<String>,
    allowed_tools: Vec<ApiName>,
    custom_tools: Vec<ApiName>,
    context_sources: Vec<ContextSource>,
    memory: Option<AgentMemory>,
    limits: Option<AgentLimits>,
    requires_approval: Option<bool>,
    capabilities: Vec<String>,
    output_schema: Option<serde_json::Value>,
    output_object_type: Option<ApiName>,
    deprecated_at: Option<String>,
    metadata: Option<StringMap<serde_json::Value>>,
}

impl AgentBuilder {
    /// The agent this builder would build now.
    pub closed spec fn spec_build(&self) -> Agent {
        Agent {
            api_name: self.api_name,
            display: self.display,
            description: self.description,
            model: self.model,
            model_provider: self.model_provider,
            instructions: self.instructions,
            allowed_tools: self.allowed_tools,
            custom_tools: self.custom_tools,
            context_sources: self.context_sources,
            memory: self.memory,
            limits: self.limits,
            requires_approval: self.requires_approval,
            deprecated_at: self.deprecated_at,
            metadata: self.metadata,
            capabilities: self.capabilities,
            output_schema: self.output_schema,
            output_object_type: self.output_object_type,
        }
    }

    /// The builder's metadata holds each key once.
    pub open spec fn wf(&self) -> bool {
        opt_wf(self.spec_build().metadata)
    }

    /// Create a new agent builder with nothing set.
    pub fn new(api_name: &str) -> (result: AgentBuilder)
        ensures
            result.wf(),
            result.spec_build().api_name@ == api_name@,
            result.spec_build().display is None,
            result.spec_build().description is None,
            result.spec_build().model is None,
            result.spec_build().model_provider is None,
            result.spec_build().instructions is None,
            result.spec_build().allowed_tools@.len() == 0,
            result.spec_build().custom_tools@.len() == 0,
            result.spec_build().context_sources@.len() == 0,
            result.spec_build().memory is None,
            result.spec_build().limits is None,
            result.spec_build().requires_approval is None,
            result.spec_build().capabilities@.len() == 0,
            result.spec_build().output_schema is None,
            result.spec_build().output_object_type is None,
            result.spec_build().deprecated_at is None,
            result.spec_build().metadata is None,
    {
        AgentBuilder {
            api_name: ApiName::new_unchecked(api_name),
            display: None,
            description: None,
            model: None,
            model_provider: None,
            instructions: None,
            allowed_tools: Vec::new(),
            custom_tools: Vec::new(),
            context_sources: Vec::new(),
            memory: None,
            limits: None,
            requires_approval: None,
            capabilities: Vec::new(),
            output_schema: None,
            output_object_type: None,
            deprecated_at: None,
            metadata: None,
        }
    }

    /// Set display name.
    pub fn display(self, name: &str) -> (result: AgentBuilder)
        requires
            self.wf(),
        ensures
            result.wf(),
            result.spec_build().display matches Some(d) && d@ == name@,
            result.spec_build() == (Agent { display: result.spec_build().display, ..self.spec_build() }),
    {
        AgentBuilder { display: some_text(name), ..self }
    }

    /// Set description.
    pub fn description(self, desc: &str) -> (result: AgentBuilder)
        requires
            self.wf(),
        ensures
            result.wf(),
            result.spec_build().description matches Some(d) && d@ == desc@,
            result.spec_build() == (Agent { description: result.spec_build().description, ..self.spec_build() }),
    {
        AgentBuilder { description: some_text(desc), ..self }
    }

    /// Set the model identifier.
    pub fn model(self, model: &str) -> (result: AgentBuilder)
        requires
            self.wf(),
        ensures
            result.wf(),
            result.spec_build().model matches Some(m) && m@ == model@,
            result.spec_build() == (Agent { model: result.spec_build().model, ..self.spec_build() }),
    {
        AgentBuilder { model: some_text(model), ..self }
    }

    /// Set the model provider.
    pub fn model_provider(self, provider: &str) -> (result: AgentBuilder)
        requires
            self.wf(),
        ensures
            result.wf(),
            result.spec_build().model_provider matches Some(p) && p@ == provider@,
            result.spec_build() == (Agent { model_provider: result.spec_build().model_provider, ..self.spec_build() }),
    {
        AgentBuilder { model_provider: some_text(provider), ..self }
    }

    /// Set the system instructions.
    pub fn instructions(self, instructions: &str) -> (result: AgentBuilder)
        requires
            self.wf(),
        ensures
            result.wf(),
            result.spec_build().instructions matches Some(i) && i@ == instructions@,
            result.spec_build() == (Agent { instructions: result.spec_build().instructions, ..self.spec_build() }),
    {
        AgentBuilder { instructions: some_text(instructions), ..self }
    }

    /// Allow a named tool.
    pub fn allow_tool(self, tool: &str) -> (result: AgentBuilder)
        requires
            self.wf(),
        ensures
            result.wf(),
            pushed(result.spec_build().allowed_tools@, self.spec_build().allowed_tools@, tool@),
            result.spec_build() == (Agent { allowed_tools: result.spec_build().allowed_tools, ..self.spec_build() }),
    {
        let ghost before = self.allowed_tools@;
        let mut allowed_tools = self.allowed_tools;
        allowed_tools.push(ApiName::new_unchecked(tool));
        assert(allowed_tools@.drop_last() =~= before);
        AgentBuilder { allowed_tools, ..self }
    }

    /// Allow a custom tool.
    pub fn custom_tool(self, tool: &str) -> (result: AgentBuilder)
        requires
            self.wf(),
        ensures
            result.wf(),
            pushed(result.spec_build().custom_tools@, self.spec_build().custom_tools@, tool@),
            result.spec_build() == (Agent { custom_tools: result.spec_build().custom_tools, ..self.spec_build() }),
    {
        let ghost before = self.custom_tools@;
        let mut custom_tools = self.custom_tools;
        custom_tools.push(ApiName::new_unchecked(tool));
        assert(custom_tools@.drop_last() =~= before);
        AgentBuilder { custom_tools, ..self }
    }

    /// Add a context source.
    pub fn context_source(self, name: &str, kind: &str, reference: Option<&str>) -> (result: AgentBuilder)
        requires
            self.wf(),
        ensures
            result.wf(),
            result.spec_build().context_sources@.len() == self.spec_build().context_sources@.len() + 1,
            result.spec_build().context_sources@.drop_last() == self.spec_build().context_sources@,
            ({
                let c = result.spec_build().context_sources@.last();
                &&& c.name@ == name@
                &&& c.kind@ == kind@
                &&& match reference {
                    Some(r) => c.reference matches Some(cr) && cr@ == r@,
                    None => c.reference is None,
                }
                &&& c.description is None
                &&& c.max_items is None
                &&& c.metadata is None
            }),
            result.spec_build() == (Agent { context_sources: result.spec_build().context_sources, ..self.spec_build() }),
    {
        let reference = match reference {
            Some(r) => some_text(r),
            None => None,
        };
        let ghost before = self.context_sources@;
        let mut context_sources = self.context_sources;
        context_sources.push(ContextSource {
            name: name.to_owned(),
            kind: kind.to_owned(),
            reference,
            description: None,
            max_items: None,
            metadata: None,
        });
        assert(context_sources@.drop_last() =~= before);
        AgentBuilder { context_sources, ..self }
    }

    /// Enable or disable memory.
    pub fn memory(self, enabled: bool) -> (result: AgentBuilder)
        requires
            self.wf(),
        ensures
            result.wf(),
            result.spec_build().memory matches Some(m) && m.enabled == Some(enabled) && m.namespace is None
                && m.scope is None,
            result.spec_build() == (Agent { memory: result.spec_build().memory, ..self.spec_build() }),
    {
        AgentBuilder { memory: Some(AgentMemory { enabled: Some(enabled), namespace: None, scope: None }), ..self }
    }

    /// Set memory with namespace and scope.
    pub fn memory_with(self, enabled: bool, namespace: &str, scope: &str) -> (result: AgentBuilder)
        requires
            self.wf(),
        ensures
            result.wf(),
            result.spec_build().memory matches Some(m) && m.enabled == Some(enabled)
                && (m.namespace matches Some(n) && n@ == namespace@) && (m.scope matches Some(s) && s@
                == scope@),
            result.spec_build() == (Agent { memory: result.spec_build().memory, ..self.spec_build() }),
    {
        AgentBuilder {
            memory: Some(AgentMemory { enabled: Some(enabled), namespace: some_text(namespace), scope: some_text(scope) }),
            ..self
        }
    }

    /// Set execution limits; the token budget is cleared.
    pub fn limits(self, max_tool_calls: i32, max_tokens: i32, timeout_seconds: i32) -> (result: AgentBuilder)
        requires
            self.wf(),
        ensures
            result.wf(),
            result.spec_build() == (Agent {
                limits: Some(AgentLimits {
                    max_tool_calls: Some(max_tool_calls),
                    max_tokens: Some(max_tokens),
                    timeout_seconds: Some(timeout_seconds),
                    token_budget: None,
                }),
                ..self.spec_build()
            }),
    {
        AgentBuilder {
            limits: Some(AgentLimits {
                max_tool_calls: Some(max_tool_calls),
                max_tokens: Some(max_tokens),
                timeout_seconds: Some(timeout_seconds),
                token_budget: None,
            }),
            ..self
        }
    }

    /// Set the token budget, keeping the other limits.
    pub fn token_budget(self, budget: u32) -> (result: AgentBuilder)
        requires
            self.wf(),
        ensures
            result.wf(),
            result.spec_build() == (Agent {
                limits: Some(match self.spec_build().limits {
                    Some(l) => AgentLimits { token_budget: Some(budget), ..l },
                    None => AgentLimits {
                        max_tool_calls: None,
                        max_tokens: None,
                        timeout_seconds: None,
                        token_budget: Some(budget),
                    },
                }),
                ..self.spec_build()
            }),
    {
        let mut limits = match self.limits {
            Some(l) => l,
            None => AgentLimits { max_tool_calls: None, max_tokens: None, timeout_seconds: None, token_budget: None },
        };
        limits.token_budget = Some(budget);
        AgentBuilder { limits: Some(limits), ..self }
    }

    /// Require human approval.
    pub fn requires_approval(self) -> (result: AgentBuilder)
        requires
            self.wf(),
        ensures
            result.wf(),
            result.spec_build() == (Agent { requires_approval: Some(true), ..self.spec_build() }),
    {
        AgentBuilder { requires_approval: Some(true), ..self }
    }

    /// Add a capability tag.
    pub fn capability(self, capability: &str) -> (result: AgentBuilder)
        requires
            self.wf(),
        ensures
            result.wf(),
            pushed(result.spec_build().capabilities@, self.spec_build().capabilities@, capability@),
            result.spec_build() == (Agent { capabilities: result.spec_build().capabilities, ..self.spec_build() }),
    {
        let ghost before = self.capabilities@;
        let mut capabilities = self.capabilities;
        capabilities.push(capability.to_owned());
        assert(capabilities@.drop_last() =~= before);
        AgentBuilder { capabilities, ..self }
    }

    /// Set output JSON schema.
    pub fn output_schema(self, schema: serde_json::Value) -> (result: AgentBuilder)
        requires
            self.wf(),
        ensures
            result.wf(),
            result.spec_build() == (Agent { output_schema: Some(schema), ..self.spec_build() }),
    {
        AgentBuilder { output_schema: Some(schema), ..self }
    }

    /// Set output object type.
    pub fn output_object_type(self, object_type: &str) -> (result: AgentBuilder)
        requires
            self.wf(),
        ensures
            result.wf(),
            result.spec_build().output_object_type matches Some(o) && o@ == object_type@,
            result.spec_build() == (Agent { output_object_type: result.spec_build().output_object_type, ..self.spec_build() }),
    {
        AgentBuilder { output_object_type: Some(ApiName::new_unchecked(object_type)), ..self }
    }

    /// Set deprecation timestamp.
    pub fn deprecated_at(self, at: &str) -> (result: AgentBuilder)
        requires
            self.wf(),
        ensures
            result.wf(),
            result.spec_build().deprecated_at matches Some(d) && d@ == at@,
            result.spec_build() == (Agent { deprecated_at: result.spec_build().deprecated_at, ..self.spec_build() }),
    {
        AgentBuilder { deprecated_at: some_text(at), ..self }
    }

    /// Set a metadata key/value.
    pub fn metadata(self, key: &str, value: serde_json::Value) -> (result: AgentBuilder)
        requires
            self.wf(),
        ensures
            result.wf(),
            result.spec_build().metadata is Some,
            entries_of(result.spec_build().metadata) == entries_of(self.spec_build().metadata).insert(key@, value),
            result.spec_build() == (Agent { metadata: result.spec_build().metadata, ..self.spec_build() }),
    {
        let metadata = insert_into(self.metadata, key, value);
        AgentBuilder { metadata, ..self }
    }

    /// Build the [`Agent`].
    pub fn build(self) -> (result: Agent)
        ensures
            result == self.spec_build(),
    {
        Agent {
            api_name: self.api_name,
            display: self.display,
            description: self.description,
            model: self.model,
            model_provider: self.model_provider,
            instructions: self.instructions,
            allowed_tools: self.allowed_tools,
            custom_tools: self.custom_tools,
            context_sources: self.context_sources,
            memory: self.memory,
            limits: self.limits,
            requires_approval: self.requires_approval,
            deprecated_at: self.deprecated_at,
            metadata: self.metadata,
            capabilities: self.capabilities,
            output_schema: self.output_schema,
            output_object_type: self.output_object_type,
        }
    }
}

} // verus!
