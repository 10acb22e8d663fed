use tesela::condition::{ConditionOutcome, SimplePipelineConditionEvaluator};
use tesela::pipeline_run::PipelineContext;
use tesela::primitives::StringMap;

fn context(variables: &[(&str, serde_json::Value)], metadata: &[(&str, serde_json::Value)]) -> PipelineContext {
    let mut vars = StringMap::new();
    for (k, v) in variables {
        vars.insert(k.to_string(), v.clone());
    }
    let mut meta = StringMap::new();
    for (k, v) in metadata {
        meta.insert(k.to_string(), v.clone());
    }
    PipelineContext { metadata: meta, variables: vars }
}

fn known(outcome: ConditionOutcome<'_>) -> Option<bool> {
    match outcome {
        ConditionOutcome::Known(b) => Some(b),
        ConditionOutcome::TruthOf(_) => None,
    }
}

#[test]
fn literals_ignore_case_and_whitespace() {
    let ctx = context(&[], &[]);
    let e = SimplePipelineConditionEvaluator;
    assert_eq!(known(e.evaluate_expression("  TRUE ", &ctx)), Some(true));
    assert_eq!(known(e.evaluate_expression("False", &ctx)), Some(false));
}

#[test]
fn equality_compares_string_variables() {
    let ctx = context(&[("region", serde_json::Value::from("eu"))], &[]);
    let e = SimplePipelineConditionEvaluator;
    assert_eq!(known(e.evaluate_expression("region == 'eu'", &ctx)), Some(true));
    assert_eq!(known(e.evaluate_expression("region != 'eu'", &ctx)), Some(false));
    assert_eq!(known(e.evaluate_expression("region == \"us\"", &ctx)), Some(false));
}

#[test]
fn equality_falls_back_to_metadata_and_json_text() {
    let ctx = context(&[], &[("count", serde_json::Value::from(3))]);
    let e = SimplePipelineConditionEvaluator;
    assert_eq!(known(e.evaluate_expression("count == 3", &ctx)), Some(true));
}

#[test]
fn missing_variable_equals_empty_text() {
    let ctx = context(&[], &[]);
    let e = SimplePipelineConditionEvaluator;
    assert_eq!(known(e.evaluate_expression("missing == ''", &ctx)), Some(true));
    assert_eq!(known(e.evaluate_expression("missing == 'x'", &ctx)), Some(false));
}

#[test]
fn bare_name_asks_for_truthiness() {
    let ctx = context(&[("flag", serde_json::Value::from(true))], &[]);
    let e = SimplePipelineConditionEvaluator;
    match e.evaluate_expression(" flag ", &ctx) {
        ConditionOutcome::TruthOf(v) => assert_eq!(v, &serde_json::Value::from(true)),
        ConditionOutcome::Known(_) => panic!("expected a value"),
    }
    assert_eq!(known(e.evaluate_expression("unknown", &ctx)), Some(false));
}

#[test]
fn source_name_reads_string_variables() {
    let ctx = context(&[("src", serde_json::Value::from("orders"))], &[]);
    let e = SimplePipelineConditionEvaluator;
    assert_eq!(e.source_name(" src ", &ctx), "orders");
    assert_eq!(e.source_name("customers", &ctx), "customers");
}
