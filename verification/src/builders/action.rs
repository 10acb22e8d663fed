//! Builder for action types.

use vstd::prelude::*;
use crate::ir::{ActionHandler, ActionType};
use crate::primitives::{entries_of, insert_into, opt_wf, some_text, ApiName, StringMap};

verus! {

/// Builder for [`ActionType`].
pub struct ActionBuilder {
    api_name: ApiName,
    display: Option<String>,
    description: Option<String>,
    subject: Option<ApiName>,
    handler_kind: String,
    handler_target: Option<String>,
    handler_config: Option<StringMap<serde_json::Value>>,
    input_schema: Option<serde_json::Value>,
    output_schema: Option<serde_json::Value>,
    mode: Option<String>,
    risk_level: Option<String>,
    idempotency_key: Option<String>,
    deprecated_at: Option<String>,
    metadata: Option<StringMap<serde_json::Value>>,
}

impl ActionBuilder {
    /// The action this builder would build now.
    pub closed spec fn spec_build(&self) -> ActionType {
        ActionType {
            api_name: self.api_name,
            display: self.display,
            description: self.description,
            subject: self.subject,
            handler: ActionHandler {
                kind: self.handler_kind,
                target: self.handler_target,
                config: self.handler_config,
            },
            input_schema: self.input_schema,
            output_schema: self.output_schema,
            mode: self.mode,
            risk_level: self.risk_level,
            idempotency_key: self.idempotency_key,
            deprecated_at: self.deprecated_at,
            metadata: self.metadata,
        }
    }

    /// The builder's maps hold each key once.
    pub open spec fn wf(&self) -> bool {
        &&& opt_wf(self.spec_build().handler.config)
        &&& opt_wf(self.spec_build().metadata)
    }

    /// Create a new action builder with a callback handler and nothing else set.
    pub fn new(api_name: &str) -> (result: ActionBuilder)
        ensures
            result.wf(),
            result.spec_build().api_name@ == api_name@,
            result.spec_build().display is None,
            result.spec_build().description is None,
            result.spec_build().subject is None,
            result.spec_build().handler.kind@ == "callback"@,
            result.spec_build().handler.target is None,
            result.spec_build().handler.config is None,
            result.spec_build().input_schema is None,
            result.spec_build().output_schema is None,
            result.spec_build().mode is None,
            result.spec_build().risk_level is None,
            result.spec_build().idempotency_key is None,
            result.spec_build().deprecated_at is None,
            result.spec_build().metadata is None,
    {
        ActionBuilder {
            api_name: ApiName::new_unchecked(api_name),
            display: None,
            description: None,
            subject: None,
            handler_kind: "callback".to_owned(),
            handler_target: None,
            handler_config: None,
            input_schema: None,
            output_schema: None,
            mode: None,
            risk_level: None,
            idempotency_key: None,
            deprecated_at: None,
            metadata: None,
        }
    }

    /// Set display name.
    pub fn display(self, name: &str) -> (result: ActionBuilder)
        requires
            self.wf(),
        ensures
            result.wf(),
            result.spec_build().display matches Some(d) && d@ == name@,
            result.spec_build() == (ActionType { display: result.spec_build().display, ..self.spec_build() }),
    {
        ActionBuilder { display: some_text(name), ..self }
    }

    /// Set description.
    pub fn description(self, desc: &str) -> (result: ActionBuilder)
        requires
            self.wf(),
        ensures
            result.wf(),
            result.spec_build().description matches Some(d) && d@ == desc@,
            result.spec_build() == (ActionType { description: result.spec_build().description, ..self.spec_build() }),
    {
        ActionBuilder { description: some_text(desc), ..self }
    }

    /// Set subject object type.
    pub fn subject(self, object_type: &str) -> (result: ActionBuilder)
        requires
            self.wf(),
        ensures
            result.wf(),
            result.spec_build().subject matches Some(s) && s@ == object_type@,
            result.spec_build() == (ActionType { subject: result.spec_build().subject, ..self.spec_build() }),
    {
        ActionBuilder { subject: Some(ApiName::new_unchecked(object_type)), ..self }
    }

    /// Set handler kind and optional target.
    pub fn handler(self, kind: &str, target: Option<String>) -> (result: ActionBuilder)
        requires
            self.wf(),
        ensures
            result.wf(),
            result.spec_build().handler.kind@ == kind@,
            result.spec_build().handler.target == target,
            result.spec_build() == (ActionType {
                handler: ActionHandler {
                    kind: result.spec_build().handler.kind,
                    target: target,
                    ..self.spec_build().handler
                },
                ..self.spec_build()
            }),
    {
        ActionBuilder { handler_kind: kind.to_owned(), handler_target: target, ..self }
    }

    /// Set a handler config key/value.
    pub fn handler_config(self, key: &str, value: serde_json::Value) -> (result: ActionBuilder)
        requires
            self.wf(),
        ensures
            result.wf(),
            result.spec_build().handler.config is Some,
            entries_of(result.spec_build().handler.config) == entries_of(self.spec_build().handler.config).insert(key@, value),
            result.spec_build() == (ActionType {
                handler: ActionHandler {
                    config: result.spec_build().handler.config,
                    ..self.spec_build().handler
                },
                ..self.spec_build()
            }),
    {
        let ActionBuilder {
            api_name,
            display,
            description,
            subject,
            handler_kind,
            handler_target,
            handler_config,
            input_schema,
            output_schema,
            mode,
            risk_level,
            idempotency_key,
            deprecated_at,
            metadata,
        } = self;
        ActionBuilder {
            api_name,
            display,
            description,
            subject,
            handler_kind,
            handler_target,
            handler_config: insert_into(handler_config, key, value),
            input_schema,
            output_schema,
            mode,
            risk_level,
            idempotency_key,
            deprecated_at,
            metadata,
        }
    }

    /// Set input JSON schema.
    pub fn input_schema(self, schema: serde_json::Value) -> (result: ActionBuilder)
        requires
            self.wf(),
        ensures
            result.wf(),
            result.spec_build() == (ActionType { input_schema: Some(schema), ..self.spec_build() }),
    {
        ActionBuilder { input_schema: Some(schema), ..self }
    }

    /// Set output JSON schema.
    pub fn output_schema(self, schema: serde_json::Value) -> (result: ActionBuilder)
        requires
            self.wf(),
        ensures
            result.wf(),
            result.spec_build() == (ActionType { output_schema: Some(schema), ..self.spec_build() }),
    {
        ActionBuilder { output_schema: Some(schema), ..self }
    }

    /// Set execution mode.
    pub fn mode(self, mode: &str) -> (result: ActionBuilder)
        requires
            self.wf(),
        ensures
            result.wf(),
            result.spec_build().mode matches Some(m) && m@ == mode@,
            result.spec_build() == (ActionType { mode: result.spec_build().mode, ..self.spec_build() }),
    {
        ActionBuilder { mode: some_text(mode), ..self }
    }

    /// Set risk level ("low", "medium", "high").
    pub fn risk_level(self, level: &str) -> (result: ActionBuilder)
        requires
            self.wf(),
        ensures
            result.wf(),
            result.spec_build().risk_level matches Some(r) && r@ == level@,
            result.spec_build() == (ActionType { risk_level: result.spec_build().risk_level, ..self.spec_build() }),
    {
        ActionBuilder { risk_level: some_text(level), ..self }
    }

    /// Set idempotency key template.
    pub fn idempotency_key(self, key: &str) -> (result: ActionBuilder)
        requires
            self.wf(),
        ensures
            result.wf(),
            result.spec_build().idempotency_key matches Some(k) && k@ == key@,
            result.spec_build() == (ActionType { idempotency_key: result.spec_build().idempotency_key, ..self.spec_build() }),
    {
        ActionBuilder { idempotency_key: some_text(key), ..self }
    }

    /// Set deprecation timestamp.
    pub fn deprecated_at(self, at: &str) -> (result: ActionBuilder)
        requires
            self.wf(),
        ensures
            result.wf(),
            result.spec_build().deprecated_at matches Some(d) && d@ == at@,
            result.spec_build() == (ActionType { deprecated_at: result.spec_build().deprecated_at, ..self.spec_build() }),
    {
        ActionBuilder { deprecated_at: some_text(at), ..self }
    }

    /// Set a metadata key/value.
    pub fn metadata(self, key: &str, value: serde_json::Value) -> (result: ActionBuilder)
        requires
            self.wf(),
        ensures
            result.wf(),
            result.spec_build().metadata is Some,
            entries_of(result.spec_build().metadata) == entries_of(self.spec_build().metadata).insert(key@, value),
            result.spec_build() == (ActionType { metadata: result.spec_build().metadata, ..self.spec_build() }),
    {
        let metadata = insert_into(self.metadata, key, value);
        ActionBuilder { metadata, ..self }
    }

    /// Build the [`ActionType`].
    pub fn build(self) -> (result: ActionType)
        ensures
            result == self.spec_build(),
    {
        ActionType {
            api_name: self.api_name,
            display: self.display,
            description: self.description,
            subject: self.subject,
            handler: ActionHandler {
                kind: self.handler_kind,
                target: self.handler_target,
                config: self.handler_config,
            },
            input_schema: self.input_schema,
            output_schema: self.output_schema,
            mode: self.mode,
            risk_level: self.risk_level,
            idempotency_key: self.idempotency_key,
            deprecated_at: self.deprecated_at,
            metadata: self.metadata,
        }
    }
}

/// Setting metadata under two different keys gives the same action in
/// either order: every other part is the same, and the metadata holds the
/// same entries in the same order.
pub proof fn lemma_metadata_order(
    base: ActionType,
    x1: ActionType,
    x2: ActionType,
    y1: ActionType,
    y2: ActionType,
    k1: Seq<char>,
    v1: serde_json::Value,
    k2: Seq<char>,
    v2: serde_json::Value,
)
    requires
        k1 != k2,
        opt_wf(x2.metadata),
        opt_wf(y2.metadata),
        x1 == (ActionType { metadata: x1.metadata, ..base }),
        entries_of(x1.metadata) == entries_of(base.metadata).insert(k1, v1),
        x2 == (ActionType { metadata: x2.metadata, ..x1 }),
        x2.metadata is Some,
        entries_of(x2.metadata) == entries_of(x1.metadata).insert(k2, v2),
        y1 == (ActionType { metadata: y1.metadata, ..base }),
        entries_of(y1.metadata) == entries_of(base.metadata).insert(k2, v2),
        y2 == (ActionType { metadata: y2.metadata, ..y1 }),
        y2.metadata is Some,
        entries_of(y2.metadata) == entries_of(y1.metadata).insert(k1, v1),
    ensures
        x2 == (ActionType { metadata: x2.metadata, ..y2 }),
        entries_of(x2.metadata) == entries_of(y2.metadata),
        x2.metadata->0.key_seq() == y2.metadata->0.key_seq(),
        x2.metadata->0.value_seq() == y2.metadata->0.value_seq(),
{
    assert(entries_of(x2.metadata) =~= entries_of(y2.metadata));
    let mx = x2.metadata->0;
    let my = y2.metadata->0;
    mx.lemma_same_contents(&my);
}

/// Setting metadata twice under one key keeps the last value.
pub proof fn lemma_metadata_last_wins(
    base: ActionType,
    x1: ActionType,
    x2: ActionType,
    k: Seq<char>,
    v1: serde_json::Value,
    v2: serde_json::Value,
)
    requires
        entries_of(x1.metadata) == entries_of(base.metadata).insert(k, v1),
        entries_of(x2.metadata) == entries_of(x1.metadata).insert(k, v2),
    ensures
        entries_of(x2.metadata) == entries_of(base.metadata).insert(k, v2),
        entries_of(x2.metadata)[k] == v2,
{
    assert(entries_of(x2.metadata) =~= entries_of(base.metadata).insert(k, v2));
}

} // verus!
