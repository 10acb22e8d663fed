use tesela::pipeline::{
    topo_order, topo_sort_owned, ErrorStrategy, ExecutionQueue, RouteChange, StepKind, TransformStep,
};
use tesela::pipeline_run::{PipelineAction, PipelineRun, RunPhase, StepStatus};
use tesela::primitives::{ApiName, Error, StringMap};

fn name(text: &str) -> ApiName {
    ApiName::new_unchecked(text)
}

fn step(api_name: &str, source: &str, target: &str) -> TransformStep {
    TransformStep {
        api_name: name(api_name),
        source: name(source),
        target: name(target),
        kind: None,
        when: None,
        expression: None,
        dynamic_source: None,
        on_error: None,
    }
}

fn names(steps: &[TransformStep]) -> Vec<String> {
    steps.iter().map(|s| s.api_name.as_str().to_string()).collect()
}

#[test]
fn topo_sort_puts_producers_first() {
    let steps = vec![step("load", "staging", "warehouse"), step("extract", "raw", "staging")];
    let sorted = topo_sort_owned(steps);
    assert_eq!(names(&sorted), vec!["extract", "load"]);
}

#[test]
fn topo_sort_keeps_independent_steps_in_order() {
    let steps = vec![step("a", "x", "y"), step("b", "p", "q"), step("c", "m", "n")];
    assert_eq!(names(&topo_sort_owned(steps)), vec!["a", "b", "c"]);
}

#[test]
fn topo_sort_takes_steps_in_the_order_they_become_ready() {
    let steps = vec![step("c", "k", "out"), step("a", "in", "k"), step("b", "p", "q")];
    assert_eq!(names(&topo_sort_owned(steps)), vec!["a", "b", "c"]);
}

#[test]
fn abort_on_the_first_of_two_independent_steps_ends_the_run() {
    let mut s1 = step("s1", "a", "b");
    s1.kind = Some(StepKind::Transform);
    s1.on_error = Some(ErrorStrategy::Abort);
    let mut s2 = step("s2", "c", "d");
    s2.kind = Some(StepKind::Transform);
    let mut run = run_of(vec![s1, s2]);
    assert!(matches!(run.advance(), PipelineAction::RunTransform));
    match run.phase() {
        RunPhase::AwaitTransform(awaited) => assert_eq!(awaited.api_name.as_str(), "s1"),
        _ => panic!("a transform is awaited"),
    }
    run.on_transform(Err(Error::NotFound { kind: "backend".to_string(), key: "a".to_string() }));
    assert!(matches!(run.advance(), PipelineAction::Done));
    let result = run.into_result(0);
    assert_eq!(result.step_results.len(), 1);
    assert_eq!(result.step_results[0].step.as_str(), "s1");
    assert_eq!(result.step_results[0].status, StepStatus::Failed);
    assert_eq!(result.step_results[0].records_written, 0);
    assert_eq!(result.errors.len(), 1);
    assert_eq!(result.records_written, 0);
}

#[test]
fn topo_sort_chain_of_three() {
    let steps = vec![step("c", "t2", "t3"), step("b", "t1", "t2"), step("a", "t0", "t1")];
    assert_eq!(names(&topo_sort_owned(steps)), vec!["a", "b", "c"]);
}

#[test]
fn cycle_members_come_last_in_original_order() {
    let steps = vec![
        step("x", "b", "a"),
        step("free", "s", "t"),
        step("y", "a", "b"),
    ];
    let (order, reached) = topo_order(&steps);
    assert_eq!(reached, 1);
    assert_eq!(order, vec![1, 0, 2]);
    assert_eq!(names(&topo_sort_owned(steps)), vec!["free", "x", "y"]);
}

#[test]
fn acyclic_steps_are_all_reached() {
    let steps = vec![
        step("d", "c_out", "d_out"),
        step("b", "a_out", "b_out"),
        step("c", "b_out", "c_out"),
        step("a", "src", "a_out"),
    ];
    let (order, reached) = topo_order(&steps);
    assert_eq!(reached, 4);
    assert_eq!(order, vec![3, 1, 2, 0]);
}

#[test]
fn empty_steps_sort_to_empty() {
    let (order, reached) = topo_order(&Vec::new());
    assert!(order.is_empty());
    assert_eq!(reached, 0);
    assert!(topo_sort_owned(Vec::new()).is_empty());
}

#[test]
fn a_step_reading_its_own_output_is_not_a_cycle() {
    let steps = vec![step("self", "t", "t")];
    let (_, reached) = topo_order(&steps);
    assert_eq!(reached, 1);
}

#[test]
fn queue_pops_in_dependency_order_and_marks_completed() {
    let mut queue = ExecutionQueue::from_steps(vec![step("load", "staging", "warehouse"), step("extract", "raw", "staging")]);
    let first = queue.pop().unwrap();
    assert_eq!(first.api_name.as_str(), "extract");
    queue.mark_completed(first.api_name);
    assert_eq!(queue.completed().len(), 1);
    assert_eq!(names(queue.pending()), vec!["load"]);
    assert!(queue.pop().is_some());
    assert!(queue.pop().is_none());
}

#[test]
fn queue_remove_drops_every_named_step() {
    let mut queue = ExecutionQueue::from_steps(vec![step("a", "1", "2"), step("b", "3", "4"), step("a", "5", "6")]);
    queue.remove(&vec![name("a")]);
    assert_eq!(names(queue.pending()), vec!["b"]);
}

#[test]
fn queue_reroute_last_change_wins() {
    let mut queue = ExecutionQueue::from_steps(vec![step("a", "old", "out"), step("b", "x", "y")]);
    queue.reroute(&vec![
        RouteChange { step: name("a"), new_source: name("first") },
        RouteChange { step: name("a"), new_source: name("second") },
    ]);
    assert_eq!(queue.pending()[0].source.as_str(), "second");
    assert_eq!(queue.pending()[1].source.as_str(), "x");
}

#[test]
fn queue_inject_resorts_with_new_dependencies() {
    let mut queue = ExecutionQueue::from_steps(vec![step("load", "staging", "warehouse")]);
    queue.inject(vec![step("extract", "raw", "staging")]);
    assert_eq!(names(queue.pending()), vec!["extract", "load"]);
}

#[test]
fn queue_find_step_returns_first_match() {
    let queue = ExecutionQueue::from_steps(vec![step("a", "1", "2"), step("b", "3", "4")]);
    assert_eq!(queue.find_step(&name("b")).unwrap().source.as_str(), "3");
    assert!(queue.find_step(&name("zzz")).is_none());
    assert_eq!(queue.find_index(&name("b")), Some(1));
}

fn run_of(steps: Vec<TransformStep>) -> PipelineRun {
    PipelineRun::new(steps, None)
}

#[test]
fn run_reports_transforms_and_sums_records() {
    let mut run = run_of(vec![step("a", "raw", "mid"), step("b", "mid", "out")]);
    assert!(matches!(run.advance(), PipelineAction::RunTransform));
    run.on_transform(Ok(3));
    assert!(matches!(run.advance(), PipelineAction::RunTransform));
    run.on_transform(Ok(4));
    assert!(matches!(run.advance(), PipelineAction::Done));
    assert!(run.context().variables.contains_key("a.records_written"));
    let result = run.into_result(7);
    assert_eq!(result.records_written, 7);
    assert_eq!(result.duration_ms, 7);
    assert_eq!(result.step_results.len(), 2);
    assert_eq!(result.step_results[0].step.as_str(), "a");
    assert_eq!(result.step_results[1].records_written, 4);
    assert!(result.errors.is_empty());
}

#[test]
fn run_skips_a_step_whose_condition_is_false() {
    let mut s = step("a", "raw", "out");
    s.when = Some("flag".to_string());
    let mut run = run_of(vec![s]);
    match run.advance() {
        PipelineAction::EvaluateWhen { expr } => assert_eq!(expr, "flag"),
        _ => panic!("expected a condition"),
    }
    run.on_when(Ok(false));
    assert!(matches!(run.advance(), PipelineAction::Done));
    let result = run.into_result(0);
    assert_eq!(result.step_results[0].status, StepStatus::Skipped);
}

#[test]
fn condition_error_fails_the_step_and_goes_on() {
    let mut s = step("a", "raw", "out");
    s.when = Some("broken".to_string());
    let mut run = run_of(vec![s, step("b", "p", "q")]);
    run.advance();
    run.on_when(Err(Error::Validation { message: "bad".to_string() }));
    assert!(matches!(run.advance(), PipelineAction::RunTransform));
    run.on_transform(Ok(1));
    run.advance();
    let result = run.into_result(0);
    assert_eq!(result.errors, vec!["step 'a': when eval error: validation error: bad".to_string()]);
    assert_eq!(result.step_results[0].status, StepStatus::Failed);
    assert_eq!(result.step_results[0].error.as_deref(), Some("validation error: bad"));
}

#[test]
fn abort_stops_the_run() {
    let mut s = step("a", "raw", "mid");
    s.on_error = Some(ErrorStrategy::Abort);
    let mut run = run_of(vec![s, step("b", "mid", "out")]);
    run.advance();
    run.on_transform(Err(Error::Internal { message: "down".to_string() }));
    assert!(matches!(run.phase(), RunPhase::Finished));
    assert!(matches!(run.advance(), PipelineAction::Done));
    let result = run.into_result(0);
    assert_eq!(result.step_results.len(), 1);
    assert_eq!(result.errors, vec!["step 'a': internal error: down".to_string()]);
}

#[test]
fn fallback_runs_in_place_of_a_failed_step() {
    let mut s = step("a", "raw", "mid");
    s.on_error = Some(ErrorStrategy::Fallback { step: name("backup") });
    let backup = step("backup", "other", "elsewhere");
    let mut run = run_of(vec![s, backup]);
    assert!(matches!(run.advance(), PipelineAction::RunTransform));
    run.on_transform(Err(Error::Internal { message: "down".to_string() }));
    assert!(matches!(run.advance(), PipelineAction::RunFallback));
    run.on_fallback(Ok(5));
    assert!(matches!(run.advance(), PipelineAction::Done));
    let result = run.into_result(0);
    assert_eq!(result.records_written, 5);
    assert_eq!(result.step_results.len(), 2);
    assert_eq!(result.step_results[0].status, StepStatus::Failed);
    assert_eq!(result.step_results[1].step.as_str(), "backup");
    assert_eq!(result.step_results[1].status, StepStatus::Executed);
}

#[test]
fn failed_fallback_goes_back_to_the_queue() {
    let mut s = step("a", "raw", "mid");
    s.on_error = Some(ErrorStrategy::Fallback { step: name("backup") });
    let mut run = run_of(vec![s, step("backup", "other", "elsewhere")]);
    run.advance();
    run.on_transform(Err(Error::Internal { message: "down".to_string() }));
    run.advance();
    run.on_fallback(Err(Error::Internal { message: "also".to_string() }));
    assert!(matches!(run.advance(), PipelineAction::RunTransform));
    run.on_transform(Ok(2));
    run.advance();
    let result = run.into_result(0);
    assert_eq!(result.errors.len(), 2);
    assert_eq!(result.errors[1], "step 'backup': fallback also failed: internal error: also");
    assert_eq!(result.step_results.len(), 2);
    assert_eq!(result.step_results[1].step.as_str(), "backup");
}

#[test]
fn decision_injects_steps() {
    let mut d = step("decide", "n/a", "n/a2");
    d.kind = Some(StepKind::Decision);
    let mut run = run_of(vec![d]);
    match run.advance() {
        PipelineAction::EvaluateDecision { expr } => assert_eq!(expr, "true"),
        _ => panic!("expected a decision"),
    }
    let directive = tesela::pipeline::StepDirective {
        inject: vec![step("extra", "x", "y")],
        remove: Vec::new(),
        reroute: Vec::new(),
    };
    run.on_decision(Ok(directive));
    assert!(matches!(run.advance(), PipelineAction::RunTransform));
    run.on_transform(Ok(1));
    run.advance();
    let result = run.into_result(0);
    assert_eq!(result.step_results[0].injected_steps.len(), 1);
    assert_eq!(result.step_results[0].injected_steps[0].as_str(), "extra");
    assert_eq!(result.step_results[1].step.as_str(), "extra");
}

#[test]
fn fork_and_join_are_recorded_without_work() {
    let mut f = step("fork", "a", "b");
    f.kind = Some(StepKind::Fork);
    let mut j = step("join", "c", "d");
    j.kind = Some(StepKind::Join);
    let mut run = run_of(vec![f, j]);
    assert!(matches!(run.advance(), PipelineAction::Done));
    let result = run.into_result(0);
    assert_eq!(result.step_results.len(), 2);
    assert!(result.step_results.iter().all(|r| r.status == StepStatus::Executed));
}

#[test]
fn metadata_is_kept_in_the_context() {
    let mut meta = StringMap::new();
    meta.insert("env".to_string(), serde_json::Value::from("prod"));
    let run = PipelineRun::new(Vec::new(), Some(meta));
    assert!(run.context().metadata.contains_key("env"));
}
