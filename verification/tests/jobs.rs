use tesela::ir::{ArtifactType, JobType};
use tesela::jobs::{
    artifact_read_target, find_artifact, find_job, job_started_event, job_work_item,
    start_job_run, with_media_type, ArtifactLocator,
};
use tesela::ports::Actor;
use tesela::primitives::{ApiName, Error, StringMap};

fn name(s: &str) -> ApiName {
    ApiName::new_unchecked(s)
}

fn job(api: &str, states: &[&str], start_event: Option<&str>) -> JobType {
    JobType {
        api_name: name(api),
        display: None,
        description: None,
        executor: name("worker"),
        input_schema: None,
        output_schema: None,
        states: states.iter().map(|s| s.to_string()).collect(),
        idempotency_key: None,
        start_event: start_event.map(name),
        result_event: None,
        metadata: None,
    }
}

fn artifact(path_template: &str, media_type: Option<&str>) -> ArtifactType {
    ArtifactType {
        api_name: name("report"),
        display: None,
        description: None,
        store: name("s3main"),
        path_template: path_template.to_string(),
        media_type: media_type.map(|m| m.to_string()),
        metadata_schema: Vec::new(),
        lifecycle: Vec::new(),
        metadata: None,
    }
}

fn actor() -> Actor {
    Actor { user_id: "alice".to_string(), roles: Vec::new(), claims: StringMap::new() }
}

fn input() -> StringMap<serde_json::Value> {
    let mut m = StringMap::new();
    m.insert("n".to_string(), serde_json::Value::from(3));
    m
}

#[test]
fn run_starts_in_first_declared_state() {
    let jobs = vec![job("other", &[], None), job("nightly", &["pending", "running"], None)];
    let run = start_job_run(
        &jobs,
        &name("nightly"),
        &actor(),
        input(),
        Some("k1".to_string()),
        "run_1".to_string(),
        "corr_1".to_string(),
        "2024-01-01T00:00:00+00:00".to_string(),
    )
    .unwrap();
    assert_eq!(run.id, "run_1");
    assert_eq!(run.kind, "job");
    assert_eq!(run.resource.as_str(), "nightly");
    assert_eq!(run.status, "pending");
    assert_eq!(run.actor_user_id, "alice");
    assert_eq!(run.idempotency_key.as_deref(), Some("k1"));
    assert_eq!(run.correlation_id.as_deref(), Some("corr_1"));
    assert_eq!(run.input.get("n"), Some(&serde_json::Value::from(3)));
    assert_eq!(run.output.len(), 0);
    assert!(run.steps.is_empty());
    assert_eq!(run.created_at, run.updated_at);
}

#[test]
fn run_without_states_is_queued() {
    let jobs = vec![job("nightly", &[], None)];
    let run = start_job_run(&jobs, &name("nightly"), &actor(), StringMap::new(), None, "r".to_string(), "c".to_string(), "t".to_string()).unwrap();
    assert_eq!(run.status, "queued");
}

#[test]
fn unknown_job_is_not_found() {
    let jobs = vec![job("nightly", &[], None)];
    let err = start_job_run(&jobs, &name("weekly"), &actor(), StringMap::new(), None, "r".to_string(), "c".to_string(), "t".to_string()).unwrap_err();
    match err {
        Error::NotFound { kind, key } => {
            assert_eq!(kind, "job_type");
            assert_eq!(key, "weekly");
        }
        other => panic!("unexpected {:?}", other),
    }
    assert!(find_job(&Vec::new(), &name("x")).is_err());
}

#[test]
fn work_item_and_start_event_follow_the_run() {
    let j = job("nightly", &["pending"], Some("job_began"));
    let jobs = vec![j];
    let run = start_job_run(&jobs, &name("nightly"), &actor(), input(), None, "run_9".to_string(), "corr_9".to_string(), "t0".to_string()).unwrap();
    let work = job_work_item(&run, &name("nightly"));
    assert_eq!(work.kind, "job");
    assert_eq!(work.job_type.as_ref().map(|j| j.as_str()), Some("nightly"));
    assert_eq!(work.run_id.as_deref(), Some("run_9"));
    assert_eq!(work.correlation_id.as_deref(), Some("corr_9"));
    assert_eq!(work.payload.get("n"), Some(&serde_json::Value::from(3)));

    let ev = job_started_event(&jobs[0], &run, &actor(), "acme", "evt_1".to_string(), "t1".to_string()).unwrap();
    assert_eq!(ev.kind, "job_started");
    assert_eq!(ev.workspace, "acme");
    assert_eq!(ev.event_type.as_ref().map(|e| e.as_str()), Some("job_began"));
    assert_eq!(ev.causation_id.as_deref(), Some("run_9"));
    assert_eq!(ev.correlation_id.as_deref(), Some("corr_9"));
    assert!(ev.topic.is_none());

    let quiet = job("nightly", &[], None);
    assert!(job_started_event(&quiet, &run, &actor(), "acme", "e".to_string(), "t".to_string()).is_none());
}

#[test]
fn artifact_read_fills_path_and_store() {
    let arts = vec![artifact("reports/{id}.pdf", Some("application/pdf"))];
    let a = find_artifact(&arts, &name("report")).unwrap();
    let mut params = StringMap::new();
    params.insert("id".to_string(), serde_json::Value::from("r42"));
    let (path, store_params) = artifact_read_target(a, &params).unwrap();
    assert_eq!(path, "reports/r42.pdf");
    assert_eq!(store_params.get("_store"), Some(&serde_json::Value::from("s3main")));
    assert_eq!(store_params.get("id"), Some(&serde_json::Value::from("r42")));
    assert!(find_artifact(&arts, &name("missing")).is_err());
}

#[test]
fn artifact_read_with_missing_parameter_fails() {
    let a = artifact("reports/{id}.pdf", None);
    let err = artifact_read_target(&a, &StringMap::new()).unwrap_err();
    assert!(matches!(err, Error::Validation { .. }));
}

#[test]
fn media_type_is_filled_only_when_missing() {
    let a = artifact("x", Some("text/csv"));
    let blank = ArtifactLocator {
        url: "u".to_string(),
        path: "x".to_string(),
        expires_at: "e".to_string(),
        media_type: None,
        headers: StringMap::new(),
        metadata: StringMap::new(),
    };
    assert_eq!(with_media_type(blank, &a).media_type.as_deref(), Some("text/csv"));
    let typed = ArtifactLocator {
        url: "u".to_string(),
        path: "x".to_string(),
        expires_at: "e".to_string(),
        media_type: Some("image/png".to_string()),
        headers: StringMap::new(),
        metadata: StringMap::new(),
    };
    assert_eq!(with_media_type(typed, &a).media_type.as_deref(), Some("image/png"));
}
