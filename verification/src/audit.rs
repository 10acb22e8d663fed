//! Authorization outcomes and the audit trail: what a policy decision means
//! for the request, and the audit record and event written for each
//! operation.

use vstd::prelude::*;
use crate::ir::{LinkType, Operation};
use crate::store::{AuditEvent, OntologyEvent};
use crate::ports::{operation_name, operation_text, Actor, Event, PolicyDecision, PolicyEngine, PolicyRequest};
use crate::primitives::{concat, ApiName, Error, ErrorView, StringMap};

verus! {

/// Decision text of an allowed operation.
pub const DECISION_ALLOW: &'static str = "allow";

/// Decision text of a denied operation.
pub const DECISION_DENY: &'static str = "deny";

/// Reason of a denial that gives none.
pub const DEFAULT_DENIAL_REASON: &'static str = "policy denied";

/// An entry of the audit trail.
#[derive(Debug)]
pub struct AuditRecord {
    /// Record id.
    pub id: String,
    /// Timestamp.
    pub occurred_at: String,
    /// Actor user id.
    pub actor_user_id: String,
    /// Operation.
    pub operation: String,
    /// Resource kind.
    pub resource_kind: String,
    /// Resource name.
    pub resource: String,
    /// Policy decision.
    pub decision: String,
    /// Result count.
    pub result_count: Option<i64>,
    /// Error code if failed.
    pub error_code: Option<String>,
    /// Extra metadata.
    pub metadata: StringMap<serde_json::Value>,
}

/// The decision taken when no policy engine is configured: allow, with no
/// reason and no redactions.
pub fn open_decision() -> (result: PolicyDecision)
    ensures
        result.allow,
        result.reason is None,
        result.row_filter is None,
        result.redactions@.len() == 0,
{
    PolicyDecision { allow: true, reason: None, row_filter: None, redactions: Vec::new() }
}

/// The policy decision for `request`: the engine's, or the open decision
/// when no engine is configured.
pub fn evaluate_policy_request(engine: Option<&dyn PolicyEngine>, request: &PolicyRequest) -> (result: Result<
    PolicyDecision,
    Error,
>)
    ensures
        engine is None ==> (result matches Ok(d) && d.allow && d.reason is None && d.row_filter is None
            && d.redactions@.len() == 0),
{
    match engine {
        Some(e) => e.evaluate(request),
        None => Ok(open_decision()),
    }
}

/// The reason a denial reports.
pub open spec fn denial_text(decision: PolicyDecision) -> Seq<char> {
    match decision.reason {
        Some(r) => r@,
        None => DEFAULT_DENIAL_REASON@,
    }
}

/// What a decision means for the request: an allowed one is handed back,
/// a denied one becomes a policy-denied error with its reason.
pub fn decision_outcome(decision: PolicyDecision) -> (result: Result<PolicyDecision, Error>)
    ensures
        decision.allow ==> result == Ok::<PolicyDecision, Error>(decision),
        !decision.allow ==> (result matches Err(e) && e@ == ErrorView::PolicyDenied(denial_text(decision))),
{
    if decision.allow {
        Ok(decision)
    } else {
        let message = match decision.reason {
            Some(r) => r,
            None => DEFAULT_DENIAL_REASON.to_owned(),
        };
        Err(Error::PolicyDenied { message })
    }
}

/// The audit record of `actor`'s `operation` on `resource`.
pub fn audit_record(
    id: String,
    occurred_at: String,
    actor: &Actor,
    operation: Operation,
    resource_kind: &str,
    resource: &ApiName,
    success: bool,
    result_count: i64,
) -> (result: AuditRecord)
    ensures
        result.id == id,
        result.occurred_at == occurred_at,
        result.actor_user_id@ == actor.user_id@,
        result.operation@ == operation_name(operation),
        result.resource_kind@ == resource_kind@,
        result.resource@ == resource@,
        result.decision@ == (if success { DECISION_ALLOW@ } else { DECISION_DENY@ }),
        result.result_count == Some(result_count),
        result.error_code is None,
        result.metadata.wf() && result.metadata.as_map().len() == 0,
{
    AuditRecord {
        id,
        occurred_at,
        actor_user_id: actor.user_id.clone(),
        operation: operation_text(operation).to_owned(),
        resource_kind: resource_kind.to_owned(),
        resource: resource.as_str().to_owned(),
        decision: if success {
            DECISION_ALLOW.to_owned()
        } else {
            DECISION_DENY.to_owned()
        },
        result_count: Some(result_count),
        error_code: None,
        metadata: StringMap::new(),
    }
}

/// The event announcing `actor`'s `operation` on `resource` in `workspace`.
pub fn operation_event(
    id: String,
    occurred_at: String,
    actor: &Actor,
    operation: Operation,
    workspace: &str,
    resource: &ApiName,
) -> (result: Event)
    ensures
        result.id == id,
        result.kind@ == operation_name(operation),
        result.workspace@ == workspace@,
        result.object_type matches Some(o) && o@ == resource@,
        result.actor_user_id@ == actor.user_id@,
        result.occurred_at == occurred_at,
        result.payload.wf() && result.payload.as_map().len() == 0,
        result.event_type is None,
        result.topic is None,
        result.correlation_id is None,
        result.causation_id is None,
{
    Event {
        id,
        kind: operation_text(operation).to_owned(),
        workspace: workspace.to_owned(),
        object_type: Some(resource.as_str().to_owned()),
        actor_user_id: actor.user_id.clone(),
        occurred_at,
        payload: StringMap::new(),
        event_type: None,
        topic: None,
        correlation_id: None,
        causation_id: None,
    }
}

/// The audit event and ontology event the runtime emits for `actor`'s
/// `operation` on `resource`.
pub fn emitted_events(
    actor: &Actor,
    operation: &str,
    resource_kind: &str,
    resource: &ApiName,
    success: bool,
    result_count: i64,
) -> (result: (AuditEvent, OntologyEvent))
    ensures
        result.0.actor_id@ == actor.user_id@,
        result.0.operation@ == operation@,
        result.0.resource_kind@ == resource_kind@,
        result.0.resource@ == resource@,
        result.0.success == success,
        result.0.result_count == result_count,
        result.1.kind@ == operation@,
        result.1.resource_kind@ == resource_kind@,
        result.1.resource@ == resource@,
        result.1.actor_id@ == actor.user_id@,
{
    let audit = AuditEvent {
        actor_id: actor.user_id.clone(),
        operation: operation.to_owned(),
        resource_kind: resource_kind.to_owned(),
        resource: resource.as_str().to_owned(),
        success,
        result_count,
    };
    let event = OntologyEvent {
        kind: operation.to_owned(),
        resource_kind: resource_kind.to_owned(),
        resource: resource.as_str().to_owned(),
        actor_id: actor.user_id.clone(),
    };
    (audit, event)
}

/// The datasource a link named `link_name` is traversed in: the one its
/// source declares, else `target_datasource`, that of its target object
/// type when that type is known.
pub fn traverse_datasource(
    link_name: &ApiName,
    link: &LinkType,
    target_datasource: Option<&ApiName>,
) -> (result: Result<ApiName, Error>)
    ensures
        match link.source {
            Some(src) if src.datasource is Some => result matches Ok(d) && d@ == src.datasource->0@,
            _ => match target_datasource {
                Some(t) => result matches Ok(d) && d@ == t@,
                None => result matches Err(e) && e@ == ErrorView::Validation(
                    "link '"@ + link_name@ + "' has no datasource"@,
                ),
            },
        },
{
    let declared = match &link.source {
        Some(src) => match &src.datasource {
            Some(d) => Some(d.duplicate()),
            None => None,
        },
        None => None,
    };
    match declared {
        Some(d) => Ok(d),
        None => match target_datasource {
            Some(t) => Ok(t.duplicate()),
            None => {
                let mut message = concat("link '", link_name.as_str());
                message.append("' has no datasource");
                Err(Error::Validation { message })
            },
        },
    }
}

} // verus!
