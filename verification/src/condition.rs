//! The built-in evaluator of pipeline conditions: `true`, `false`,
//! `var == 'value'`, `var != 'value'`, and a bare variable name.

use vstd::prelude::*;
use crate::pipeline_run::PipelineContext;
use crate::primitives::str_eq;
use crate::text::{
    contains_seq, contains_text, eq_ignore_ascii_case, equal_ignoring_ascii_case, equality_parts,
    parse_equality, trim, trim_char, trim_end_char, trim_start_char, trim_ws,
};

verus! {

/// Text of a JSON value when it is a string.
pub uninterp spec fn json_str(value: serde_json::Value) -> Option<Seq<char>>;

/// Text of `value` when it is a JSON string.
#[verifier::external_body]
pub(crate) fn json_as_str(value: &serde_json::Value) -> (result: Option<&str>)
    ensures
        match result {
            Some(s) => json_str(*value) == Some(s@),
            None => json_str(*value) is None,
        },
{
    value.as_str()
}

/// Compact JSON text of a value.
pub uninterp spec fn json_rendering(value: serde_json::Value) -> Seq<char>;

/// Compact JSON text of `value`.
#[verifier::external_body]
pub(crate) fn json_to_string(value: &serde_json::Value) -> (result: String)
    ensures
        result@ == json_rendering(*value),
{
    value.to_string()
}

/// Value under `key` among the variables, else among the metadata.
pub open spec fn looked_up(
    variables: Map<Seq<char>, serde_json::Value>,
    metadata: Map<Seq<char>, serde_json::Value>,
    key: Seq<char>,
) -> Option<serde_json::Value> {
    if variables.contains_key(key) {
        Some(variables[key])
    } else if metadata.contains_key(key) {
        Some(metadata[key])
    } else {
        None
    }
}

/// A looked-up value equals `expected`: a string by its text, anything else
/// by its JSON text without surrounding double quotes; a missing value
/// equals the empty text.
pub open spec fn value_matches(actual: Option<serde_json::Value>, expected: Seq<char>) -> bool {
    match actual {
        Some(v) => match json_str(v) {
            Some(s) => s == expected,
            None => trim_end_char(trim_start_char(json_rendering(v), '"'), '"') == expected,
        },
        None => expected.len() == 0,
    }
}

/// What a condition comes to.
pub enum ConditionOutcome<'a> {
    /// The condition holds or not.
    Known(bool),
    /// The condition holds when this value is truthy.
    TruthOf(&'a serde_json::Value),
}

/// What a condition comes to, as plain values.
pub enum ConditionView {
    /// The condition holds or not.
    Known(bool),
    /// The condition holds when this value is truthy.
    TruthOf(serde_json::Value),
}

impl<'a> View for ConditionOutcome<'a> {
    type V = ConditionView;

    open spec fn view(&self) -> ConditionView {
        match self {
            ConditionOutcome::Known(b) => ConditionView::Known(*b),
            ConditionOutcome::TruthOf(v) => ConditionView::TruthOf(**v),
        }
    }
}

/// What condition `expr` comes to against the given variables and metadata.
pub open spec fn condition_of(
    expr: Seq<char>,
    variables: Map<Seq<char>, serde_json::Value>,
    metadata: Map<Seq<char>, serde_json::Value>,
) -> ConditionView {
    let e = trim_ws(expr);
    if eq_ignore_ascii_case(e, "true"@) {
        ConditionView::Known(true)
    } else if eq_ignore_ascii_case(e, "false"@) {
        ConditionView::Known(false)
    } else {
        match equality_parts(e) {
            Some((var, val)) => {
                let hit = value_matches(looked_up(variables, metadata, var), val);
                ConditionView::Known(if contains_seq(e, "!="@) { !hit } else { hit })
            },
            None => match looked_up(variables, metadata, e) {
                Some(v) => ConditionView::TruthOf(v),
                None => ConditionView::Known(false),
            },
        }
    }
}

/// Text naming the source of a step: the string held under `expr` among the
/// variables or metadata, else `expr` itself, trimmed.
pub open spec fn source_text(
    expr: Seq<char>,
    variables: Map<Seq<char>, serde_json::Value>,
    metadata: Map<Seq<char>, serde_json::Value>,
) -> Seq<char> {
    let e = trim_ws(expr);
    match looked_up(variables, metadata, e) {
        Some(v) => match json_str(v) {
            Some(s) => s,
            None => e,
        },
        None => e,
    }
}

/// The built-in condition evaluator.
pub struct SimplePipelineConditionEvaluator;

/// Value under `key` among the variables, else among the metadata.
fn lookup<'a>(ctx: &'a PipelineContext, key: &str) -> (result: Option<&'a serde_json::Value>)
    requires
        ctx.variables.wf(),
        ctx.metadata.wf(),
    ensures
        match result {
            Some(v) => looked_up(ctx.variables.as_map(), ctx.metadata.as_map(), key@) == Some(*v),
            None => looked_up(ctx.variables.as_map(), ctx.metadata.as_map(), key@) is None,
        },
{
    match ctx.variables.get(key) {
        Some(v) => Some(v),
        None => ctx.metadata.get(key),
    }
}

impl SimplePipelineConditionEvaluator {
    /// What condition `expr` comes to against `ctx`.
    pub fn evaluate_expression<'a>(&self, expr: &str, ctx: &'a PipelineContext) -> (result: ConditionOutcome<'a>)
        requires
            ctx.variables.wf(),
            ctx.metadata.wf(),
        ensures
            result@ == condition_of(expr@, ctx.variables.as_map(), ctx.metadata.as_map()),
    {
        let e = trim(expr);
        proof {
            reveal_strlit("true");
            reveal_strlit("false");
            reveal_strlit("!=");
        }
        if equal_ignoring_ascii_case(e.as_str(), "true") {
            return ConditionOutcome::Known(true);
        }
        if equal_ignoring_ascii_case(e.as_str(), "false") {
            return ConditionOutcome::Known(false);
        }
        match parse_equality(e.as_str()) {
            Some((var, val)) => {
                let negated = contains_text(e.as_str(), "!=");
                let hit = match lookup(ctx, var.as_str()) {
                    Some(v) => match json_as_str(v) {
                        Some(s) => str_eq(s, val.as_str()),
                        None => {
                            let rendered = json_to_string(v);
                            let bare = trim_char(rendered.as_str(), '"');
                            str_eq(bare.as_str(), val.as_str())
                        },
                    },
                    None => val.as_str().unicode_len() == 0,
                };
                ConditionOutcome::Known(if negated { !hit } else { hit })
            },
            None => match lookup(ctx, e.as_str()) {
                Some(v) => ConditionOutcome::TruthOf(v),
                None => ConditionOutcome::Known(false),
            },
        }
    }

    /// Text naming the source that `expr` resolves to against `ctx`.
    pub fn source_name(&self, expr: &str, ctx: &PipelineContext) -> (result: String)
        requires
            ctx.variables.wf(),
            ctx.metadata.wf(),
        ensures
            result@ == source_text(expr@, ctx.variables.as_map(), ctx.metadata.as_map()),
    {
        let e = trim(expr);
        match lookup(ctx, e.as_str()) {
            Some(v) => match json_as_str(v) {
                Some(s) => s.to_owned(),
                None => e,
            },
            None => e,
        }
    }
}

} // verus!
