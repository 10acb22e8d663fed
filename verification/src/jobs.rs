//! What the runtime decides when it starts a job or hands out a signed read
//! of an artifact: the run record it creates, the work item and start event
//! that go with the run, and the path and store parameters of the read.

use vstd::prelude::*;
use crate::ir::{ArtifactType, JobType};
use crate::ports::{Actor, Event};
use crate::primitives::{json_from_str, json_string, ApiName, Error, ErrorView, StringMap};
use crate::records::{render_template, rendered};

verus! {

/// Kind of the runs that jobs create.
pub const JOB_RUN_KIND: &'static str = "job";

/// Status of a new run whose job type declares no states.
pub const DEFAULT_RUN_STATUS: &'static str = "queued";

/// Kind of the event published when a job starts.
pub const JOB_STARTED_EVENT_KIND: &'static str = "job_started";

/// Store parameter naming the object store of an artifact.
pub const STORE_PARAM: &'static str = "_store";

/// A job, action or upload run.
#[derive(Debug)]
pub struct RunRecord {
    /// Run id.
    pub id: String,
    /// Resource kind: action, job, upload.
    pub kind: String,
    /// Resource API name.
    pub resource: ApiName,
    /// Current status.
    pub status: String,
    /// Actor user id.
    pub actor_user_id: String,
    /// Idempotency key.
    pub idempotency_key: Option<String>,
    /// Correlation id.
    pub correlation_id: Option<String>,
    /// Input payload.
    pub input: StringMap<serde_json::Value>,
    /// Output payload.
    pub output: StringMap<serde_json::Value>,
    /// Step results.
    pub steps: Vec<StringMap<serde_json::Value>>,
    /// Created timestamp.
    pub created_at: String,
    /// Updated timestamp.
    pub updated_at: String,
}

/// A work item for the queue or scheduler.
#[derive(Debug)]
pub struct WorkItem {
    /// Work item kind.
    pub kind: String,
    /// Declared job type, if any.
    pub job_type: Option<ApiName>,
    /// Run id.
    pub run_id: Option<String>,
    /// Idempotency key.
    pub idempotency_key: Option<String>,
    /// Correlation id.
    pub correlation_id: Option<String>,
    /// Payload.
    pub payload: StringMap<serde_json::Value>,
}

/// A signed artifact read.
#[derive(Debug)]
pub struct ArtifactLocator {
    /// URL or adapter-owned locator.
    pub url: String,
    /// Logical path in the object store.
    pub path: String,
    /// Expiration timestamp.
    pub expires_at: String,
    /// Media type, if known.
    pub media_type: Option<String>,
    /// Headers the client must include.
    pub headers: StringMap<String>,
    /// Metadata about the artifact.
    pub metadata: StringMap<serde_json::Value>,
}

/// Views of optional text.
pub open spec fn opt_text(t: Option<String>) -> Option<Seq<char>> {
    match t {
        Some(s) => Some(s@),
        None => None,
    }
}

/// Views of a list of texts.
pub open spec fn texts(v: Seq<String>) -> Seq<Seq<char>> {
    v.map_values(|s: String| s@)
}

/// Status of a new run: the job's first state, else `queued`.
pub open spec fn initial_status(states: Seq<Seq<char>>) -> Seq<char> {
    if states.len() > 0 {
        states[0]
    } else {
        DEFAULT_RUN_STATUS@
    }
}

/// Index of the first job type named `name`, if any.
pub open spec fn job_index(jobs: Seq<JobType>, name: Seq<char>) -> Option<int> {
    if exists|i: int| 0 <= i < jobs.len() && #[trigger] jobs[i].api_name@ == name {
        Some(choose|i: int| 0 <= i < jobs.len() && #[trigger] jobs[i].api_name@ == name
            && forall|j: int| 0 <= j < i ==> #[trigger] jobs[j].api_name@ != name)
    } else {
        None
    }
}

/// Index of the first artifact type named `name`, if any.
pub open spec fn artifact_index(artifacts: Seq<ArtifactType>, name: Seq<char>) -> Option<int> {
    if exists|i: int| 0 <= i < artifacts.len() && #[trigger] artifacts[i].api_name@ == name {
        Some(choose|i: int| 0 <= i < artifacts.len() && #[trigger] artifacts[i].api_name@ == name
            && forall|j: int| 0 <= j < i ==> #[trigger] artifacts[j].api_name@ != name)
    } else {
        None
    }
}

/// The first job type named `name`; a `job_type` not-found error when none is.
pub fn find_job<'a>(jobs: &'a Vec<JobType>, name: &ApiName) -> (result: Result<&'a JobType, Error>)
    ensures
        match job_index(jobs@, name@) {
            Some(i) => result matches Ok(j) && *j == jobs@[i],
            None => result matches Err(e) && e@ == ErrorView::NotFound("job_type"@, name@),
        },
{
    let mut i: usize = 0;
    while i < jobs.len()
        invariant
            i <= jobs@.len(),
            forall|j: int| 0 <= j < i ==> #[trigger] jobs@[j].api_name@ != name@,
        decreases jobs@.len() - i,
    {
        if jobs[i].api_name.same(name) {
            proof {
                assert(jobs@[i as int].api_name@ == name@);
                let k = choose|k: int| 0 <= k < jobs@.len() && #[trigger] jobs@[k].api_name@ == name@
                    && forall|j: int| 0 <= j < k ==> #[trigger] jobs@[j].api_name@ != name@;
                if k < i {
                    assert(jobs@[k].api_name@ != name@);
                }
                if k > i {
                    assert(jobs@[i as int].api_name@ != name@);
                }
            }
            return Ok(&jobs[i]);
        }
        i = i + 1;
    }
    Err(Error::NotFound { kind: "job_type".to_owned(), key: name.as_str().to_owned() })
}

/// The first artifact type named `name`; an `artifact_type` not-found error
/// when none is.
pub fn find_artifact<'a>(artifacts: &'a Vec<ArtifactType>, name: &ApiName) -> (result: Result<&'a ArtifactType, Error>)
    ensures
        match artifact_index(artifacts@, name@) {
            Some(i) => result matches Ok(a) && *a == artifacts@[i],
            None => result matches Err(e) && e@ == ErrorView::NotFound("artifact_type"@, name@),
        },
{
    let mut i: usize = 0;
    while i < artifacts.len()
        invariant
            i <= artifacts@.len(),
            forall|j: int| 0 <= j < i ==> #[trigger] artifacts@[j].api_name@ != name@,
        decreases artifacts@.len() - i,
    {
        if artifacts[i].api_name.same(name) {
            proof {
                assert(artifacts@[i as int].api_name@ == name@);
                let k = choose|k: int| 0 <= k < artifacts@.len() && #[trigger] artifacts@[k].api_name@ == name@
                    && forall|j: int| 0 <= j < k ==> #[trigger] artifacts@[j].api_name@ != name@;
                if k < i {
                    assert(artifacts@[k].api_name@ != name@);
                }
                if k > i {
                    assert(artifacts@[i as int].api_name@ != name@);
                }
            }
            return Ok(&artifacts[i]);
        }
        i = i + 1;
    }
    Err(Error::NotFound { kind: "artifact_type".to_owned(), key: name.as_str().to_owned() })
}

/// Status of a new run of `job`: its first state, else `queued`.
pub fn first_status(job: &JobType) -> (result: String)
    ensures
        result@ == initial_status(texts(job.states@)),
{
    if job.states.len() > 0 {
        job.states[0].clone()
    } else {
        DEFAULT_RUN_STATUS.to_owned()
    }
}

/// The run created when `actor` starts `job` under the name `job_name`,
/// with the ids and timestamp given; it starts in the job's first state,
/// with no output and no steps.
pub fn new_job_run(
    job: &JobType,
    job_name: &ApiName,
    actor: &Actor,
    input: StringMap<serde_json::Value>,
    idempotency_key: Option<String>,
    run_id: String,
    correlation_id: String,
    now: String,
) -> (result: RunRecord)
    ensures
        result.id == run_id,
        result.kind@ == JOB_RUN_KIND@,
        result.resource@ == job_name@,
        result.status@ == initial_status(texts(job.states@)),
        result.actor_user_id@ == actor.user_id@,
        result.idempotency_key == idempotency_key,
        result.correlation_id == Some(correlation_id),
        result.input == input,
        result.output.wf(),
        result.output.as_map().len() == 0,
        result.steps@.len() == 0,
        result.created_at == now,
        result.updated_at@ == now@,
{
    let output = StringMap::new();
    RunRecord {
        id: run_id,
        kind: JOB_RUN_KIND.to_owned(),
        resource: job_name.duplicate(),
        status: first_status(job),
        actor_user_id: actor.user_id.clone(),
        idempotency_key,
        correlation_id: Some(correlation_id),
        input,
        output,
        steps: Vec::new(),
        created_at: now.clone(),
        updated_at: now,
    }
}

/// The job run for `job_name` among `jobs`, or the not-found error of the
/// lookup.
pub fn start_job_run(
    jobs: &Vec<JobType>,
    job_name: &ApiName,
    actor: &Actor,
    input: StringMap<serde_json::Value>,
    idempotency_key: Option<String>,
    run_id: String,
    correlation_id: String,
    now: String,
) -> (result: Result<RunRecord, Error>)
    ensures
        match job_index(jobs@, job_name@) {
            Some(i) => result matches Ok(run) && {
                &&& run.id == run_id
                &&& run.kind@ == JOB_RUN_KIND@
                &&& run.resource@ == job_name@
                &&& run.status@ == initial_status(texts(jobs@[i].states@))
                &&& run.actor_user_id@ == actor.user_id@
                &&& run.idempotency_key == idempotency_key
                &&& run.correlation_id == Some(correlation_id)
                &&& run.input == input
                &&& run.output.wf() && run.output.as_map().len() == 0
                &&& run.steps@.len() == 0
                &&& run.created_at == now && run.updated_at@ == now@
            },
            None => result matches Err(e) && e@ == ErrorView::NotFound("job_type"@, job_name@),
        },
{
    match find_job(jobs, job_name) {
        Ok(job) => Ok(new_job_run(job, job_name, actor, input, idempotency_key, run_id, correlation_id, now)),
        Err(e) => Err(e),
    }
}

/// The work item queued for `run` of the job `job_name`.
pub fn job_work_item(run: &RunRecord, job_name: &ApiName) -> (result: WorkItem)
    ensures
        result.kind@ == JOB_RUN_KIND@,
        result.job_type matches Some(j) && j@ == job_name@,
        result.run_id matches Some(r) && r@ == run.id@,
        opt_text(result.idempotency_key) == opt_text(run.idempotency_key),
        opt_text(result.correlation_id) == opt_text(run.correlation_id),
        result.payload.as_map() == run.input.as_map(),
        result.payload.key_seq() == run.input.key_seq(),
        result.payload.wf() == run.input.wf(),
{
    WorkItem {
        kind: JOB_RUN_KIND.to_owned(),
        job_type: Some(job_name.duplicate()),
        run_id: Some(run.id.clone()),
        idempotency_key: run.idempotency_key.clone(),
        correlation_id: run.correlation_id.clone(),
        payload: run.input.duplicate(),
    }
}

/// The event announcing that `run` of `job` started, when the job declares
/// a start event; none when it does not.
pub fn job_started_event(
    job: &JobType,
    run: &RunRecord,
    actor: &Actor,
    workspace: &str,
    event_id: String,
    now: String,
) -> (result: Option<Event>)
    ensures
        job.start_event is None <==> result is None,
        result matches Some(ev) ==> {
            &&& ev.id == event_id
            &&& ev.kind@ == JOB_STARTED_EVENT_KIND@
            &&& ev.workspace@ == workspace@
            &&& ev.object_type is None
            &&& ev.actor_user_id@ == actor.user_id@
            &&& ev.occurred_at == now
            &&& ev.payload.as_map() == run.input.as_map()
            &&& ev.payload.key_seq() == run.input.key_seq()
            &&& ev.event_type matches Some(t) && job.start_event matches Some(s) && t@ == s@
            &&& ev.topic is None
            &&& opt_text(ev.correlation_id) == opt_text(run.correlation_id)
            &&& ev.causation_id matches Some(c) && c@ == run.id@
        },
{
    match &job.start_event {
        Some(name) => Some(Event {
            id: event_id,
            kind: JOB_STARTED_EVENT_KIND.to_owned(),
            workspace: workspace.to_owned(),
            object_type: None,
            actor_user_id: actor.user_id.clone(),
            occurred_at: now,
            payload: run.input.duplicate(),
            event_type: Some(name.duplicate()),
            topic: None,
            correlation_id: run.correlation_id.clone(),
            causation_id: Some(run.id.clone()),
        }),
        None => None,
    }
}

/// Where a signed read of `artifact` points: its path template filled with
/// `params`, and the parameters handed to the object store, which add the
/// artifact's store under `_store`.
pub fn artifact_read_target(artifact: &ArtifactType, params: &StringMap<serde_json::Value>) -> (result: Result<
    (String, StringMap<serde_json::Value>),
    Error,
>)
    requires
        params.wf(),
    ensures
        match rendered(artifact.path_template@, params.key_seq(), params.value_seq()) {
            Ok(path) => result matches Ok((p, store_params)) && {
                &&& p@ == path
                &&& store_params.wf()
                &&& store_params.as_map() == params.as_map().insert(
                    STORE_PARAM@,
                    json_string(artifact.store@),
                )
            },
            Err(e) => result matches Err(x) && x@ == e,
        },
{
    let path = match render_template(artifact.path_template.as_str(), params) {
        Ok(p) => p,
        Err(e) => {
            return Err(e);
        },
    };
    let mut store_params = params.duplicate();
    store_params.insert(STORE_PARAM.to_owned(), json_from_str(artifact.store.as_str()));
    Ok((path, store_params))
}

/// The locator handed back, with the artifact's media type filled in when
/// the store gave none.
pub fn with_media_type(locator: ArtifactLocator, artifact: &ArtifactType) -> (result: ArtifactLocator)
    ensures
        opt_text(result.media_type) == match locator.media_type {
            Some(m) => Some(m@),
            None => opt_text(artifact.media_type),
        },
        result.url == locator.url,
        result.path == locator.path,
        result.expires_at == locator.expires_at,
        result.headers == locator.headers,
        result.metadata == locator.metadata,
{
    let mut locator = locator;
    if locator.media_type.is_none() {
        locator.media_type = artifact.media_type.clone();
    }
    locator
}

} // verus!
