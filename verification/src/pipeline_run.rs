//! A pipeline run as a state machine: it says which outside work comes next
//! (evaluate a condition, run a transform, evaluate a decision, run a
//! fallback) and takes its outcome, keeping the pending steps, the context
//! variables and the report up to date.

use vstd::prelude::*;
use crate::primitives::{
    concat, entries_of, error_text, json_from_i64, json_integer, opt_wf, ApiName, Error,
    StringMap,
};
use crate::pipeline::{
    first_index, name_views, rerouted, sorted_by_dependencies, without_named, ErrorStrategy,
    ExecutionQueue, StepDirective, StepKind, TransformStep,
};

verus! {

/// How a step ended.
#[derive(Debug, Clone, Copy, PartialEq, Eq)]
pub enum StepStatus {
    /// The step ran.
    Executed,
    /// Its condition was false.
    Skipped,
    /// The step failed.
    Failed,
}

/// Report of one step.
#[derive(Debug, Clone)]
pub struct StepResult {
    /// Name of the step.
    pub step: ApiName,
    /// How it ended.
    pub status: StepStatus,
    /// Records it wrote.
    pub records_written: i64,
    /// What went wrong, when it failed.
    pub error: Option<String>,
    /// Names of the steps it added.
    pub injected_steps: Vec<ApiName>,
}

/// A step report as plain values.
pub struct StepResultView {
    /// Name of the step.
    pub step: Seq<char>,
    /// How it ended.
    pub status: StepStatus,
    /// Records it wrote.
    pub records_written: i64,
    /// What went wrong, when it failed.
    pub error: Option<Seq<char>>,
    /// Names of the steps it added.
    pub injected_steps: Seq<Seq<char>>,
}

impl View for StepResult {
    type V = StepResultView;

    open spec fn view(&self) -> StepResultView {
        StepResultView {
            step: self.step@,
            status: self.status,
            records_written: self.records_written,
            error: match self.error {
                Some(e) => Some(e@),
                None => None,
            },
            injected_steps: name_views(self.injected_steps@),
        }
    }
}

/// Report of a whole run.
#[derive(Debug, Clone)]
pub struct PipelineResult {
    /// Records written by all steps.
    pub records_written: i64,
    /// Time the run took.
    pub duration_ms: u64,
    /// One line per failure.
    pub errors: Vec<String>,
    /// One report per step, in the order they ended.
    pub step_results: Vec<StepResult>,
}

/// What conditions and decisions are evaluated against.
pub struct PipelineContext {
    /// Values given with the pipeline.
    pub metadata: StringMap<serde_json::Value>,
    /// Values set by the steps of the run.
    pub variables: StringMap<serde_json::Value>,
}

/// Where a run stands.
pub enum RunPhase {
    /// Ready to take the next step.
    Idle,
    /// Waiting for the condition of a step.
    AwaitWhen(TransformStep),
    /// Waiting for a transform step to run.
    AwaitTransform(TransformStep),
    /// Waiting for the directive of a decision step.
    AwaitDecision(TransformStep),
    /// Waiting for the fallback of a failed step to run.
    AwaitFallback {
        /// The failed step.
        step: TransformStep,
        /// The step run in its place, taken out of the pending steps.
        fallback: TransformStep,
        /// Where the fallback stood among the pending steps.
        at: usize,
        /// Why the step failed.
        error: Error,
    },
    /// Done.
    Finished,
}

/// The outside work a run asks for next.
pub enum PipelineAction {
    /// Evaluate `expr`, the condition of the current step.
    EvaluateWhen {
        /// The condition.
        expr: String,
    },
    /// Run the current step as a transform.
    RunTransform,
    /// Evaluate `expr`, the expression of the current decision step.
    EvaluateDecision {
        /// The expression.
        expr: String,
    },
    /// Run the fallback step as a transform.
    RunFallback,
    /// Nothing: the run is over.
    Done,
}

/// A run as plain values.
pub struct RunModel {
    /// Steps still to run.
    pub pending: Seq<TransformStep>,
    /// Names of the steps done.
    pub completed: Seq<Seq<char>>,
    /// Values given with the pipeline.
    pub metadata: Map<Seq<char>, serde_json::Value>,
    /// Values set by the steps.
    pub variables: Map<Seq<char>, serde_json::Value>,
    /// Records written so far.
    pub total: int,
    /// Failure lines so far.
    pub errors: Seq<Seq<char>>,
    /// Step reports so far.
    pub results: Seq<StepResultView>,
    /// Where the run stands.
    pub phase: RunPhase,
}

/// What a step is; a transform when its kind is not given.
pub open spec fn kind_of(step: TransformStep) -> StepKind {
    match step.kind {
        Some(kind) => kind,
        None => StepKind::Transform,
    }
}

/// Expression of a decision step; `true` when it has none.
pub open spec fn decision_expression(step: TransformStep) -> Seq<char> {
    match step.expression {
        Some(e) => e@,
        None => "true"@,
    }
}

/// The step a phase waits on.
pub open spec fn awaited(phase: RunPhase) -> TransformStep {
    match phase {
        RunPhase::AwaitWhen(s) => s,
        RunPhase::AwaitTransform(s) => s,
        RunPhase::AwaitDecision(s) => s,
        RunPhase::AwaitFallback { step, .. } => step,
        _ => vstd::pervasive::arbitrary(),
    }
}

/// Report of a step.
pub open spec fn report(
    name: Seq<char>,
    status: StepStatus,
    written: i64,
    error: Option<Seq<char>>,
    injected: Seq<Seq<char>>,
) -> StepResultView {
    StepResultView { step: name, status, records_written: written, error, injected_steps: injected }
}

/// Report of a step that ran and wrote `written` records.
pub open spec fn executed(name: Seq<char>, written: i64) -> StepResultView {
    report(name, StepStatus::Executed, written, None, Seq::empty())
}

/// Report of a step that failed with `error`.
pub open spec fn failed(name: Seq<char>, error: Error) -> StepResultView {
    report(name, StepStatus::Failed, 0, Some(error_text(error)), Seq::empty())
}

/// Failure line of step `name`.
pub open spec fn failure_line(name: Seq<char>, what: Seq<char>, error: Error) -> Seq<char> {
    "step '"@ + name + what + error_text(error)
}

/// Records written according to a list of reports.
pub open spec fn written_total(results: Seq<StepResultView>) -> int
    decreases results.len(),
{
    if results.len() == 0 {
        0
    } else {
        written_total(results.drop_last()) + results.last().records_written
    }
}

/// The run after it reports step `s` with `result` and marks it done.
pub open spec fn close_step(m: RunModel, s: TransformStep, result: StepResultView) -> RunModel {
    RunModel {
        results: m.results.push(result),
        completed: m.completed.push(s.api_name@),
        phase: RunPhase::Idle,
        ..m
    }
}

/// The run once step `s` may go ahead: a transform or decision waits for
/// its outside work; a fork or join is reported as run.
pub open spec fn begin(m: RunModel, s: TransformStep) -> RunModel {
    match kind_of(s) {
        StepKind::Transform => RunModel { phase: RunPhase::AwaitTransform(s), ..m },
        StepKind::Decision => RunModel { phase: RunPhase::AwaitDecision(s), ..m },
        _ => close_step(m, s, executed(s.api_name@, 0)),
    }
}

/// The run after taking steps until one needs outside work or none is left.
pub open spec fn settle(m: RunModel) -> RunModel
    decreases m.pending.len(),
{
    if m.phase is Idle {
        if m.pending.len() == 0 {
            RunModel { phase: RunPhase::Finished, ..m }
        } else {
            let s = m.pending[0];
            let rest = RunModel { pending: m.pending.drop_first(), ..m };
            if s.when is Some {
                RunModel { phase: RunPhase::AwaitWhen(s), ..rest }
            } else {
                match kind_of(s) {
                    StepKind::Transform => RunModel { phase: RunPhase::AwaitTransform(s), ..rest },
                    StepKind::Decision => RunModel { phase: RunPhase::AwaitDecision(s), ..rest },
                    _ => settle(close_step(rest, s, executed(s.api_name@, 0))),
                }
            }
        }
    } else {
        m
    }
}

/// `action` is the outside work that the run in `m` waits for.
pub open spec fn asks_for(m: RunModel, action: PipelineAction) -> bool {
    match m.phase {
        RunPhase::AwaitWhen(s) => action matches PipelineAction::EvaluateWhen { expr } && s.when matches Some(w)
            && expr@ == w@,
        RunPhase::AwaitTransform(_) => action is RunTransform,
        RunPhase::AwaitDecision(s) => action matches PipelineAction::EvaluateDecision { expr } && expr@
            == decision_expression(s),
        RunPhase::AwaitFallback { .. } => action is RunFallback,
        RunPhase::Finished => action is Done,
        RunPhase::Idle => false,
    }
}

/// The run after the condition of step `s` evaluated to `outcome`.
pub open spec fn after_when(m: RunModel, s: TransformStep, outcome: Result<bool, Error>) -> RunModel {
    let name = s.api_name@;
    match outcome {
        Ok(true) => begin(m, s),
        Ok(false) => close_step(m, s, report(name, StepStatus::Skipped, 0, None, Seq::empty())),
        Err(e) => close_step(
            RunModel { errors: m.errors.push(failure_line(name, "': when eval error: "@, e)), ..m },
            s,
            failed(name, e),
        ),
    }
}

/// The run after transform step `s` ran with `outcome`.
pub open spec fn after_transform(m: RunModel, s: TransformStep, outcome: Result<i64, Error>) -> RunModel {
    let name = s.api_name@;
    match outcome {
        Ok(w) => close_step(
            RunModel {
                total: m.total + w,
                variables: m.variables.insert(name + ".records_written"@, json_integer(w as int)),
                ..m
            },
            s,
            executed(name, w),
        ),
        Err(e) => {
            let m1 = RunModel { errors: m.errors.push(failure_line(name, "': "@, e)), ..m };
            match s.on_error {
                Some(ErrorStrategy::Abort) => RunModel {
                    results: m1.results.push(failed(name, e)),
                    phase: RunPhase::Finished,
                    ..m1
                },
                Some(ErrorStrategy::Fallback { step: fb }) => match first_index(m.pending, fb@) {
                    Some(k) => RunModel {
                        pending: m.pending.remove(k as int),
                        phase: RunPhase::AwaitFallback { step: s, fallback: m.pending[k as int], at: k, error: e },
                        ..m1
                    },
                    None => close_step(m1, s, failed(name, e)),
                },
                _ => close_step(m1, s, failed(name, e)),
            }
        },
    }
}

/// The run after the fallback of a failed step ran with `outcome`.
pub open spec fn after_fallback(m: RunModel, outcome: Result<i64, Error>) -> RunModel {
    match m.phase {
        RunPhase::AwaitFallback { step, fallback, at, error } => {
            let name = step.api_name@;
            let fb = fallback.api_name@;
            match outcome {
                Ok(w) => RunModel {
                    total: m.total + w,
                    results: m.results.push(failed(name, error)).push(executed(fb, w)),
                    pending: without_named(m.pending, seq![fb]),
                    completed: m.completed.push(name),
                    phase: RunPhase::Idle,
                    ..m
                },
                Err(fe) => RunModel {
                    errors: m.errors.push(failure_line(fb, "': fallback also failed: "@, fe)),
                    results: m.results.push(failed(name, error)),
                    pending: m.pending.insert(at as int, fallback),
                    completed: m.completed.push(name),
                    phase: RunPhase::Idle,
                    ..m
                },
            }
        },
        _ => m,
    }
}

/// Pending steps after a directive: removals first, then reroutes, then
/// added steps with a new sort by dependencies; `routed` are the steps after
/// the reroutes.
pub open spec fn directed_via(
    before: Seq<TransformStep>,
    directive: StepDirective,
    routed: Seq<TransformStep>,
    after: Seq<TransformStep>,
) -> bool {
    let kept = if directive.remove@.len() > 0 {
        without_named(before, name_views(directive.remove@))
    } else {
        before
    };
    &&& (if directive.reroute@.len() > 0 {
        rerouted(kept, routed, directive.reroute@)
    } else {
        routed == kept
    })
    &&& (if directive.inject@.len() > 0 {
        sorted_by_dependencies(routed + directive.inject@, after)
    } else {
        after == routed
    })
}

/// Pending steps after a directive: removals first, then reroutes, then
/// added steps with a new sort by dependencies.
pub open spec fn directed(before: Seq<TransformStep>, directive: StepDirective, after: Seq<TransformStep>) -> bool {
    exists|routed: Seq<TransformStep>| #[trigger] directed_via(before, directive, routed, after)
}

/// Names of a list of steps.
pub open spec fn step_names(steps: Seq<TransformStep>) -> Seq<Seq<char>> {
    steps.map_values(|s: TransformStep| s.api_name@)
}

/// `after` is the run after decision step `s` evaluated to `outcome`.
pub open spec fn after_decision(m: RunModel, s: TransformStep, outcome: Result<StepDirective, Error>, after: RunModel) -> bool {
    let name = s.api_name@;
    match outcome {
        Ok(d) => {
            &&& directed(m.pending, d, after.pending)
            &&& after == close_step(
                RunModel { pending: after.pending, ..m },
                s,
                report(name, StepStatus::Executed, 0, None, step_names(d.inject@)),
            )
        },
        Err(e) => after == close_step(
            RunModel { errors: m.errors.push(failure_line(name, "': decision error: "@, e)), ..m },
            s,
            failed(name, e),
        ),
    }
}

/// Expression of a decision step; `true` when it has none.
fn decision_expr(step: &TransformStep) -> (result: String)
    ensures
        result@ == decision_expression(*step),
{
    match &step.expression {
        Some(e) => e.clone(),
        None => "true".to_owned(),
    }
}

/// Failure line of step `name`.
fn failure_message(name: &ApiName, what: &str, error: &Error) -> (result: String)
    ensures
        result@ == failure_line(name@, what@, *error),
{
    let mut out = concat("step '", name.as_str());
    out.append(what);
    let text = error.text();
    out.append(text.as_str());
    out
}

/// Names of `steps`.
fn names_of(steps: &Vec<TransformStep>) -> (result: Vec<ApiName>)
    ensures
        name_views(result@) == step_names(steps@),
{
    let mut out: Vec<ApiName> = Vec::new();
    let mut i: usize = 0;
    while i < steps.len()
        invariant
            i <= steps@.len(),
            out@.len() == i,
            forall|k: int| 0 <= k < i ==> #[trigger] out@[k]@ == steps@[k].api_name@,
        decreases steps@.len() - i,
    {
        out.push(steps[i].api_name.duplicate());
        i = i + 1;
    }
    proof {
        assert(name_views(out@) =~= step_names(steps@));
    }
    out
}

/// The total of reports grows by the records of a pushed report.
proof fn lemma_total_push(results: Seq<StepResultView>, r: StepResultView)
    ensures
        written_total(results.push(r)) == written_total(results) + r.records_written,
{
    assert(results.push(r).drop_last() =~= results);
}

/// A running pipeline: its pending steps, context and report so far, and
/// the outside work it waits for.
pub struct PipelineRun {
    queue: ExecutionQueue,
    context: PipelineContext,
    total_written: i64,
    errors: Vec<String>,
    step_results: Vec<StepResult>,
    phase: RunPhase,
}

impl PipelineRun {
    /// The run as plain values.
    pub closed spec fn model(&self) -> RunModel {
        RunModel {
            pending: self.queue.pending_steps(),
            completed: name_views(self.queue.completed_names()),
            metadata: self.context.metadata.as_map(),
            variables: self.context.variables.as_map(),
            total: self.total_written as int,
            errors: self.errors@.map_values(|e: String| e@),
            results: self.step_results@.map_values(|r: StepResult| r@),
            phase: self.phase,
        }
    }

    /// The context maps hold each key once, the total is the sum of the
    /// reports, and a step waiting for its condition has one.
    pub closed spec fn wf(&self) -> bool {
        &&& self.context.metadata.wf()
        &&& self.context.variables.wf()
        &&& self.model().total == written_total(self.model().results)
        &&& (self.phase matches RunPhase::AwaitWhen(s) ==> s.when is Some)
        &&& (self.phase matches RunPhase::AwaitFallback { at, .. } ==> at <= self.queue.pending_steps().len())
    }

    /// A run of `steps` sorted by dependencies, with `metadata` as context.
    pub fn new(steps: Vec<TransformStep>, metadata: Option<StringMap<serde_json::Value>>) -> (result: PipelineRun)
        requires
            opt_wf(metadata),
        ensures
            result.wf(),
            sorted_by_dependencies(steps@, result.model().pending),
            result.model().completed.len() == 0,
            result.model().metadata == entries_of(metadata),
            result.model().variables == Map::<Seq<char>, serde_json::Value>::empty(),
            result.model().total == 0,
            result.model().errors.len() == 0,
            result.model().results.len() == 0,
            result.model().phase is Idle,
    {
        let metadata = match metadata {
            Some(m) => m,
            None => StringMap::new(),
        };
        let run = PipelineRun {
            queue: ExecutionQueue::from_steps(steps),
            context: PipelineContext { metadata, variables: StringMap::new() },
            total_written: 0,
            errors: Vec::new(),
            step_results: Vec::new(),
            phase: RunPhase::Idle,
        };
        proof {
            assert(run.model().results =~= Seq::<StepResultView>::empty());
            assert(run.model().errors =~= Seq::<Seq<char>>::empty());
            assert(run.model().completed =~= Seq::<Seq<char>>::empty());
        }
        run
    }

    /// What conditions and decisions are evaluated against.
    pub fn context(&self) -> (result: &PipelineContext)
        ensures
            result.metadata.as_map() == self.model().metadata,
            result.variables.as_map() == self.model().variables,
    {
        &self.context
    }

    /// Where the run stands.
    pub fn phase(&self) -> (result: &RunPhase)
        ensures
            *result == self.model().phase,
    {
        &self.phase
    }

    /// The outside work the run waits for.
    fn current_action(&self) -> (action: PipelineAction)
        requires
            self.wf(),
            !(self.model().phase is Idle),
        ensures
            asks_for(self.model(), action),
    {
        match &self.phase {
            RunPhase::AwaitWhen(step) => match &step.when {
                Some(w) => PipelineAction::EvaluateWhen { expr: w.clone() },
                None => PipelineAction::Done,
            },
            RunPhase::AwaitTransform(_) => PipelineAction::RunTransform,
            RunPhase::AwaitDecision(step) => PipelineAction::EvaluateDecision { expr: decision_expr(step) },
            RunPhase::AwaitFallback { .. } => PipelineAction::RunFallback,
            _ => PipelineAction::Done,
        }
    }

    /// Take steps until one needs outside work or none is left, and say
    /// what work that is.
    pub fn advance(&mut self) -> (action: PipelineAction)
        requires
            old(self).wf(),
        ensures
            final(self).wf(),
            final(self).model() == settle(old(self).model()),
            asks_for(final(self).model(), action),
    {
        let ghost start = self.model();
        loop
            invariant
                self.wf(),
                start == old(self).model(),
                settle(self.model()) == settle(start),
            decreases self.queue.pending_steps().len(),
        {
            let idle = match &self.phase {
                RunPhase::Idle => true,
                _ => false,
            };
            if !idle {
                return self.current_action();
            }
            let ghost before = self.model();
            match self.queue.pop() {
                None => {
                    self.phase = RunPhase::Finished;
                    proof {
                        assert(self.model() == settle(before));
                    }
                    return PipelineAction::Done;
                },
                Some(step) => {
                    let ghost s = step;
                    if step.when.is_some() {
                        let expr = match &step.when {
                            Some(w) => w.clone(),
                            None => String::new(),
                        };
                        self.phase = RunPhase::AwaitWhen(step);
                        proof {
                            assert(self.model() == settle(before));
                        }
                        return PipelineAction::EvaluateWhen { expr };
                    }
                    let kind = match step.kind {
                        Some(k) => k,
                        None => StepKind::Transform,
                    };
                    match kind {
                        StepKind::Transform => {
                            self.phase = RunPhase::AwaitTransform(step);
                            proof {
                                assert(self.model() == settle(before));
                            }
                            return PipelineAction::RunTransform;
                        },
                        StepKind::Decision => {
                            let expr = decision_expr(&step);
                            self.phase = RunPhase::AwaitDecision(step);
                            proof {
                                assert(self.model() == settle(before));
                            }
                            return PipelineAction::EvaluateDecision { expr };
                        },
                        _ => {
                            self.push_report(&step.api_name, StepStatus::Executed, 0, None, Vec::new());
                            self.queue.mark_completed(step.api_name);
                            proof {
                                let rest = RunModel { pending: before.pending.drop_first(), ..before };
                                let closed = close_step(rest, s, executed(s.api_name@, 0));
                                assert(name_views(Seq::<ApiName>::empty()) =~= Seq::<Seq<char>>::empty());
                                assert(self.model().completed =~= closed.completed);
                                assert(self.model().results =~= closed.results);
                                assert(self.model() == closed);
                                assert(closed.results.drop_last() =~= before.results);
                            }
                        },
                    }
                },
            }
        }
    }

    /// Report step `step` as ended with `status`, mark it done and wait for
    /// the next step.
    fn close(
        &mut self,
        step: TransformStep,
        status: StepStatus,
        written: i64,
        error: Option<String>,
        injected: Vec<ApiName>,
    )
        ensures
            final(self).model() == close_step(
                old(self).model(),
                step,
                report(
                    step.api_name@,
                    status,
                    written,
                    match error {
                        Some(e) => Some(e@),
                        None => None,
                    },
                    name_views(injected@),
                ),
            ),
            final(self).context.metadata == old(self).context.metadata,
            final(self).context.variables == old(self).context.variables,
    {
        let ghost s = step;
        self.push_report(&step.api_name, status, written, error, injected);
        self.queue.mark_completed(step.api_name);
        self.phase = RunPhase::Idle;
        proof {
            assert(self.model().completed =~= old(self).model().completed.push(s.api_name@));
        }
    }

    /// Wait for the outside work of step `step`, or report it as run when
    /// it needs none.
    fn begin_step(&mut self, step: TransformStep)
        requires
            old(self).wf(),
        ensures
            final(self).wf(),
            final(self).model() == begin(old(self).model(), step),
    {
        let kind = match step.kind {
            Some(k) => k,
            None => StepKind::Transform,
        };
        match kind {
            StepKind::Transform => {
                self.phase = RunPhase::AwaitTransform(step);
            },
            StepKind::Decision => {
                self.phase = RunPhase::AwaitDecision(step);
            },
            _ => {
                self.close(step, StepStatus::Executed, 0, None, Vec::new());
                proof {
                    lemma_total_push(old(self).model().results, executed(step.api_name@, 0));
                    assert(name_views(Seq::<ApiName>::empty()) =~= Seq::<Seq<char>>::empty());
                }
            },
        }
    }

    /// Take the outcome of the condition of the current step.
    pub fn on_when(&mut self, outcome: Result<bool, Error>)
        requires
            old(self).wf(),
            old(self).model().phase is AwaitWhen,
        ensures
            final(self).wf(),
            final(self).model() == after_when(old(self).model(), awaited(old(self).model().phase), outcome),
    {
        let mut phase = RunPhase::Idle;
        std::mem::swap(&mut phase, &mut self.phase);
        let step = match phase {
            RunPhase::AwaitWhen(s) => s,
            _ => {
                return;
            },
        };
        let ghost s = step;
        let ghost m0 = old(self).model();
        proof {
            assert(self.model() == RunModel { phase: RunPhase::Idle, ..m0 });
        }
        match outcome {
            Ok(true) => {
                self.begin_step(step);
            },
            Ok(false) => {
                self.close(step, StepStatus::Skipped, 0, None, Vec::new());
                proof {
                    lemma_total_push(m0.results, report(s.api_name@, StepStatus::Skipped, 0, None, Seq::empty()));
                    assert(name_views(Seq::<ApiName>::empty()) =~= Seq::<Seq<char>>::empty());
                }
            },
            Err(e) => {
                let line = failure_message(&step.api_name, "': when eval error: ", &e);
                self.errors.push(line);
                proof {
                    assert(self.model().errors =~= m0.errors.push(failure_line(s.api_name@, "': when eval error: "@, e)));
                }
                let text = e.text();
                self.close(step, StepStatus::Failed, 0, Some(text), Vec::new());
                proof {
                    lemma_total_push(m0.results, failed(s.api_name@, e));
                    assert(name_views(Seq::<ApiName>::empty()) =~= Seq::<Seq<char>>::empty());
                }
            },
        }
    }

    /// Take the outcome of the current transform step: records written, or
    /// why it failed.
    pub fn on_transform(&mut self, outcome: Result<i64, Error>)
        requires
            old(self).wf(),
            old(self).model().phase is AwaitTransform,
            outcome matches Ok(w) ==> i64::MIN <= old(self).model().total + w <= i64::MAX,
        ensures
            final(self).wf(),
            final(self).model() == after_transform(
                old(self).model(),
                awaited(old(self).model().phase),
                outcome,
            ),
    {
        let mut phase = RunPhase::Idle;
        std::mem::swap(&mut phase, &mut self.phase);
        let step = match phase {
            RunPhase::AwaitTransform(s) => s,
            _ => {
                return;
            },
        };
        let ghost s = step;
        let ghost m0 = old(self).model();
        match outcome {
            Ok(w) => {
                self.total_written = self.total_written + w;
                let key = concat(step.api_name.as_str(), ".records_written");
                self.context.variables.insert(key, json_from_i64(w));
                self.close(step, StepStatus::Executed, w, None, Vec::new());
                proof {
                    lemma_total_push(m0.results, executed(s.api_name@, w));
                    assert(name_views(Seq::<ApiName>::empty()) =~= Seq::<Seq<char>>::empty());
                }
            },
            Err(e) => {
                let line = failure_message(&step.api_name, "': ", &e);
                self.errors.push(line);
                let ghost m1 = RunModel { errors: m0.errors.push(failure_line(s.api_name@, "': "@, e)), ..m0 };
                proof {
                    assert(self.model().errors =~= m1.errors);
                }
                let abort = match &step.on_error {
                    Some(ErrorStrategy::Abort) => true,
                    _ => false,
                };
                let fallback_name = match &step.on_error {
                    Some(ErrorStrategy::Fallback { step: fb }) => Some(fb.duplicate()),
                    _ => None,
                };
                if abort {
                    let text = e.text();
                    self.push_report(&step.api_name, StepStatus::Failed, 0, Some(text), Vec::new());
                    self.phase = RunPhase::Finished;
                    proof {
                        lemma_total_push(m0.results, failed(s.api_name@, e));
                        assert(name_views(Seq::<ApiName>::empty()) =~= Seq::<Seq<char>>::empty());
                    }
                } else {
                    match fallback_name {
                        Some(fb) => match self.queue.find_index(&fb) {
                            Some(k) => {
                                let fallback = self.queue.take_at(k);
                                self.phase = RunPhase::AwaitFallback { step, fallback, at: k, error: e };
                            },
                            None => {
                                let text = e.text();
                                self.close(step, StepStatus::Failed, 0, Some(text), Vec::new());
                                proof {
                                    lemma_total_push(m0.results, failed(s.api_name@, e));
                                    assert(name_views(Seq::<ApiName>::empty()) =~= Seq::<Seq<char>>::empty());
                                }
                            },
                        },
                        None => {
                            let text = e.text();
                            self.close(step, StepStatus::Failed, 0, Some(text), Vec::new());
                            proof {
                                lemma_total_push(m0.results, failed(s.api_name@, e));
                                assert(name_views(Seq::<ApiName>::empty()) =~= Seq::<Seq<char>>::empty());
                            }
                        },
                    }
                }
            },
        }
    }

    /// Take the outcome of the fallback of the failed step.
    pub fn on_fallback(&mut self, outcome: Result<i64, Error>)
        requires
            old(self).wf(),
            old(self).model().phase is AwaitFallback,
            outcome matches Ok(w) ==> i64::MIN <= old(self).model().total + w <= i64::MAX,
        ensures
            final(self).wf(),
            final(self).model() == after_fallback(old(self).model(), outcome),
    {
        let mut phase = RunPhase::Idle;
        std::mem::swap(&mut phase, &mut self.phase);
        let (step, fallback, at, error) = match phase {
            RunPhase::AwaitFallback { step, fallback, at, error } => (step, fallback, at, error),
            _ => {
                return;
            },
        };
        let ghost s = step;
        let ghost f = fallback;
        let ghost m0 = old(self).model();
        let text = error.text();
        match outcome {
            Ok(w) => {
                self.total_written = self.total_written + w;
                self.push_report(&step.api_name, StepStatus::Failed, 0, Some(text), Vec::new());
                self.push_report(&fallback.api_name, StepStatus::Executed, w, None, Vec::new());
                let names = vec![fallback.api_name];
                self.queue.remove(&names);
                self.queue.mark_completed(step.api_name);
                proof {
                    assert(name_views(Seq::<ApiName>::empty()) =~= Seq::<Seq<char>>::empty());
                    assert(name_views(names@) =~= seq![f.api_name@]);
                    assert(self.model().completed =~= m0.completed.push(s.api_name@));
                    lemma_total_push(m0.results, failed(s.api_name@, error));
                    lemma_total_push(m0.results.push(failed(s.api_name@, error)), executed(f.api_name@, w));
                }
            },
            Err(fe) => {
                let line = failure_message(&fallback.api_name, "': fallback also failed: ", &fe);
                self.errors.push(line);
                self.push_report(&step.api_name, StepStatus::Failed, 0, Some(text), Vec::new());
                self.queue.put_back(at, fallback);
                self.queue.mark_completed(step.api_name);
                proof {
                    assert(name_views(Seq::<ApiName>::empty()) =~= Seq::<Seq<char>>::empty());
                    assert(self.model().errors =~= m0.errors.push(failure_line(f.api_name@, "': fallback also failed: "@, fe)));
                    assert(self.model().completed =~= m0.completed.push(s.api_name@));
                    lemma_total_push(m0.results, failed(s.api_name@, error));
                }
            },
        }
    }

    /// Take the outcome of the current decision step: the directive to apply
    /// to the pending steps, or why it failed.
    pub fn on_decision(&mut self, outcome: Result<StepDirective, Error>)
        requires
            old(self).wf(),
            old(self).model().phase is AwaitDecision,
        ensures
            final(self).wf(),
            after_decision(old(self).model(), awaited(old(self).model().phase), outcome, final(self).model()),
    {
        let mut phase = RunPhase::Idle;
        std::mem::swap(&mut phase, &mut self.phase);
        let step = match phase {
            RunPhase::AwaitDecision(s) => s,
            _ => {
                return;
            },
        };
        let ghost s = step;
        let ghost m0 = old(self).model();
        match outcome {
            Ok(directive) => {
                let ghost d = directive;
                let StepDirective { inject, remove, reroute } = directive;
                let injected = names_of(&inject);
                if remove.len() > 0 {
                    self.queue.remove(&remove);
                }
                let ghost kept = self.queue.pending_steps();
                if reroute.len() > 0 {
                    self.queue.reroute(&reroute);
                }
                let ghost routed = self.queue.pending_steps();
                if inject.len() > 0 {
                    self.queue.inject(inject);
                }
                let ghost m1 = self.model();
                self.close(step, StepStatus::Executed, 0, None, injected);
                proof {
                    assert(directed_via(m0.pending, d, routed, m1.pending));
                    lemma_total_push(m0.results, report(s.api_name@, StepStatus::Executed, 0, None, step_names(d.inject@)));
                    let r = report(s.api_name@, StepStatus::Executed, 0, None, step_names(d.inject@));
                    assert(close_step(m1, s, r) == close_step(RunModel { pending: m1.pending, ..m0 }, s, r));
                }
            },
            Err(e) => {
                let line = failure_message(&step.api_name, "': decision error: ", &e);
                self.errors.push(line);
                proof {
                    assert(self.model().errors =~= m0.errors.push(failure_line(s.api_name@, "': decision error: "@, e)));
                }
                let text = e.text();
                self.close(step, StepStatus::Failed, 0, Some(text), Vec::new());
                proof {
                    lemma_total_push(m0.results, failed(s.api_name@, e));
                    assert(name_views(Seq::<ApiName>::empty()) =~= Seq::<Seq<char>>::empty());
                }
            },
        }
    }

    /// The report of the run, which took `duration_ms`.
    pub fn into_result(self, duration_ms: u64) -> (result: PipelineResult)
        requires
            self.wf(),
        ensures
            result.records_written == self.model().total,
            result.records_written == written_total(self.model().results),
            result.duration_ms == duration_ms,
            result.errors@.map_values(|e: String| e@) == self.model().errors,
            result.step_results@.map_values(|r: StepResult| r@) == self.model().results,
    {
        PipelineResult {
            records_written: self.total_written,
            duration_ms,
            errors: self.errors,
            step_results: self.step_results,
        }
    }

    /// Push the report of step `name`.
    fn push_report(
        &mut self,
        name: &ApiName,
        status: StepStatus,
        written: i64,
        error: Option<String>,
        injected: Vec<ApiName>,
    )
        ensures
            final(self).model() == (RunModel {
                results: old(self).model().results.push(report(
                    name@,
                    status,
                    written,
                    match error {
                        Some(e) => Some(e@),
                        None => None,
                    },
                    name_views(injected@),
                )),
                ..old(self).model()
            }),
            final(self).context.metadata == old(self).context.metadata,
            final(self).context.variables == old(self).context.variables,
            final(self).phase == old(self).phase,
            final(self).queue.pending_steps() == old(self).queue.pending_steps(),
    {
        let result = StepResult {
            step: name.duplicate(),
            status,
            records_written: written,
            error,
            injected_steps: injected,
        };
        self.step_results.push(result);
        proof {
            assert(self.model().results =~= old(self).model().results.push(result@));
        }
    }
}

} // verus!
