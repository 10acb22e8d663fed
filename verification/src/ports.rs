//! Ports the runtime is wired with, and their built-in implementations:
//! policy engines that allow or deny everything, an event bus that drops
//! events, an id generator, and counters.

use vstd::prelude::*;
use crate::ir::Operation;
use crate::primitives::{concat, ApiName, Error, ErrorView, StringMap};
use crate::search::Filter;

verus! {

/// Who performs an operation.
#[derive(Debug)]
pub struct Actor {
    /// User or service id.
    pub user_id: String,
    /// Assigned roles.
    pub roles: Vec<String>,
    /// Arbitrary claims.
    pub claims: StringMap<serde_json::Value>,
}

/// A request for a policy decision.
#[derive(Debug)]
pub struct PolicyRequest {
    /// Actor.
    pub actor: Actor,
    /// Operation.
    pub operation: Operation,
    /// Kind of resource.
    pub resource_kind: String,
    /// Resource name.
    pub resource: ApiName,
    /// Extra context.
    pub context: StringMap<serde_json::Value>,
}

/// A policy decision.
#[derive(Debug)]
pub struct PolicyDecision {
    /// Whether the operation is allowed.
    pub allow: bool,
    /// Denial reason or note.
    pub reason: Option<String>,
    /// Row-level filter that narrows what the actor may see.
    pub row_filter: Option<Filter>,
    /// Properties to redact.
    pub redactions: Vec<ApiName>,
}

/// Evaluates policy.
pub trait PolicyEngine {
    /// Decide on `request`.
    fn evaluate(&self, request: &PolicyRequest) -> Result<PolicyDecision, Error>;
}

/// Policy engine for trusted tests and local harnesses: allows everything.
pub struct AllowAllPolicy;

impl PolicyEngine for AllowAllPolicy {
    fn evaluate(&self, request: &PolicyRequest) -> (result: Result<PolicyDecision, Error>)
        ensures
            result matches Ok(d) && d.allow && d.reason is None && d.redactions@.len() == 0,
    {
        Ok(PolicyDecision { allow: true, reason: None, row_filter: None, redactions: Vec::new() })
    }
}

/// The `{:?}` name of an operation.
pub open spec fn operation_name(op: Operation) -> Seq<char> {
    match op {
        Operation::Search => "Search"@,
        Operation::Read => "Read"@,
        Operation::Mutate => "Mutate"@,
        Operation::Upload => "Upload"@,
        Operation::Create => "Create"@,
        Operation::Update => "Update"@,
        Operation::Delete => "Delete"@,
        Operation::Execute => "Execute"@,
        Operation::Aggregate => "Aggregate"@,
        Operation::Traverse => "Traverse"@,
    }
}

/// The name of an operation.
pub fn operation_text(op: Operation) -> (result: &'static str)
    ensures
        result@ == operation_name(op),
{
    match op {
        Operation::Search => "Search",
        Operation::Read => "Read",
        Operation::Mutate => "Mutate",
        Operation::Upload => "Upload",
        Operation::Create => "Create",
        Operation::Update => "Update",
        Operation::Delete => "Delete",
        Operation::Execute => "Execute",
        Operation::Aggregate => "Aggregate",
        Operation::Traverse => "Traverse",
    }
}

/// Reason given when no policy engine allowed a request.
pub open spec fn denial_reason(request: PolicyRequest) -> Seq<char> {
    "no policy engine allowed "@ + operation_name(request.operation) + " on "@ + request.resource@
}

/// Policy engine used when no platform policy is supplied: denies everything.
pub struct DenyAllPolicy;

impl PolicyEngine for DenyAllPolicy {
    fn evaluate(&self, request: &PolicyRequest) -> (result: Result<PolicyDecision, Error>)
        ensures
            result matches Ok(d) && !d.allow && d.redactions@.len() == 0 && (d.reason matches Some(r) && r@
                == denial_reason(*request)),
    {
        let mut reason = concat("no policy engine allowed ", operation_text(request.operation));
        reason.append(" on ");
        reason.append(request.resource.as_str());
        Ok(PolicyDecision { allow: false, reason: Some(reason), row_filter: None, redactions: Vec::new() })
    }
}

/// A runtime event.
#[derive(Debug)]
pub struct Event {
    /// Event id.
    pub id: String,
    /// Event kind.
    pub kind: String,
    /// Workspace name.
    pub workspace: String,
    /// Object type, if any.
    pub object_type: Option<String>,
    /// Actor user id.
    pub actor_user_id: String,
    /// Timestamp.
    pub occurred_at: String,
    /// Payload.
    pub payload: StringMap<serde_json::Value>,
    /// Logical event type, if known.
    pub event_type: Option<ApiName>,
    /// Topic chosen by the adapter.
    pub topic: Option<String>,
    /// Correlation id.
    pub correlation_id: Option<String>,
    /// Causation id.
    pub causation_id: Option<String>,
}

/// Publishes runtime events.
pub trait EventBus {
    /// Publish `event`.
    fn publish(&self, event: Event) -> Result<(), Error>;
}

/// Event bus that discards every event.
pub struct NoopEventBus;

impl EventBus for NoopEventBus {
    fn publish(&self, event: Event) -> (result: Result<(), Error>)
        ensures
            result is Ok,
    {
        Ok(())
    }
}

/// Generates identifiers.
pub trait IdGenerator {
    /// A new id beginning with `prefix`, or why none could be made.
    fn new_id(&self, prefix: &str) -> Result<String, Error>;
}

/// A lower-case hexadecimal digit.
pub open spec fn is_lower_hex(c: char) -> bool {
    ('0' <= c && c <= '9') || ('a' <= c && c <= 'f')
}

/// Hyphenated lower-case text of a version 4 UUID: 36 characters, hyphens
/// at positions 8, 13, 18 and 23, hexadecimal digits elsewhere, the
/// version digit 4 at position 14 and the variant digit 8, 9, a or b at 19.
pub open spec fn is_v4_uuid_text(s: Seq<char>) -> bool {
    &&& s.len() == 36
    &&& forall|i: int| 0 <= i < 36 ==> if i == 8 || i == 13 || i == 18 || i == 23 {
        #[trigger] s[i] == '-'
    } else {
        is_lower_hex(s[i])
    }
    &&& s[14] == '4'
    &&& (s[19] == '8' || s[19] == '9' || s[19] == 'a' || s[19] == 'b')
}

/// `getrandom::fill` on sixteen bytes: the bytes the system's random
/// source gives, or none when the source fails. Which bytes come is chance
/// and not stated.
#[verifier::external_body]
fn random_bytes() -> (result: Option<[u8; 16]>)
{
    let mut bytes = [0u8; 16];
    match getrandom::fill(&mut bytes) {
        Ok(()) => Some(bytes),
        Err(_) => None,
    }
}

/// Text of the version 4 UUID that `uuid` builds from sixteen random bytes.
pub uninterp spec fn uuid_v4_text(bytes: Seq<u8>) -> Seq<char>;

/// `uuid::Builder::from_random_bytes` rendered by `Display`. Claimed: the
/// result is the UUID built from `bytes`, named `uuid_v4_text`, and it is
/// the hyphenated lower-case text of a version 4 UUID (the builder sets the
/// version and variant bits; `Display` writes the hyphenated lower-case
/// form).
#[verifier::external_body]
fn v4_uuid_text(bytes: [u8; 16]) -> (result: String)
    ensures
        result@ == uuid_v4_text(bytes@),
        is_v4_uuid_text(result@),
{
    uuid::Builder::from_random_bytes(bytes).into_uuid().to_string()
}

/// The error when the system's random source fails.
pub open spec fn no_random_bytes() -> ErrorView {
    ErrorView::Internal("could not retrieve random bytes for uuid"@)
}

/// Text of a fresh random version 4 UUID; the error when the system's
/// random source fails.
pub(crate) fn random_uuid_text() -> (result: Result<String, Error>)
    ensures
        match result {
            Ok(t) => is_v4_uuid_text(t@),
            Err(e) => e@ == no_random_bytes(),
        },
{
    match random_bytes() {
        Some(bytes) => Ok(v4_uuid_text(bytes)),
        None => Err(Error::Internal { message: "could not retrieve random bytes for uuid".to_owned() }),
    }
}

/// Id generator using random UUIDs: `prefix`, an underscore, then the UUID.
pub struct DefaultIdGenerator;

impl IdGenerator for DefaultIdGenerator {
    fn new_id(&self, prefix: &str) -> (result: Result<String, Error>)
        ensures
            match result {
                Ok(id) => {
                    &&& id@.len() == prefix@.len() + 37
                    &&& id@.take(prefix@.len() + 1int) == prefix@ + "_"@
                    &&& is_v4_uuid_text(id@.skip(prefix@.len() + 1int))
                },
                Err(e) => e@ == no_random_bytes(),
            },
    {
        proof {
            reveal_strlit("_");
        }
        let uuid = match random_uuid_text() {
            Ok(u) => u,
            Err(e) => {
                return Err(e);
            },
        };
        let mut id = concat(prefix, "_");
        id.append(uuid.as_str());
        proof {
            assert(id@.take(prefix@.len() + 1int) =~= prefix@ + "_"@);
            assert(id@.skip(prefix@.len() + 1int) =~= uuid@);
        }
        Ok(id)
    }
}

/// Source of the current time.
pub trait Clock {
    /// Current UTC time, as RFC 3339 text, or why it cannot be read.
    fn now(&self) -> Result<String, Error>;
}

/// Whether `text` ends with the UTC offset `+00:00`.
pub open spec fn ends_with_utc_offset(text: Seq<char>) -> bool {
    text.len() >= 6 && text.subrange(text.len() - 6, text.len() as int) == "+00:00"@
}

/// A point in time of the system clock.
#[verifier::external_type_specification]
#[verifier::external_body]
pub struct ExSystemTime(std::time::SystemTime);

/// `std::time::SystemTime::now`: the system clock's current time, which
/// depends on when it is called; nothing is stated of it.
#[verifier::external_body]
fn system_time_now() -> (result: std::time::SystemTime)
{
    std::time::SystemTime::now()
}

/// `SystemTime::duration_since(UNIX_EPOCH)`, as whole seconds and the
/// nanoseconds beyond them: none when `time` is before 1970. Claimed, as
/// `Duration::subsec_nanos` documents: the nanoseconds are below one
/// billion.
#[verifier::external_body]
fn since_unix_epoch(time: &std::time::SystemTime) -> (result: Option<(u64, u32)>)
    ensures
        result matches Some((_, nanos)) ==> nanos < 1_000_000_000,
{
    match time.duration_since(std::time::UNIX_EPOCH) {
        Ok(d) => Some((d.as_secs(), d.subsec_nanos())),
        Err(_) => None,
    }
}

/// RFC 3339 text of the UTC time `secs` seconds and `nanos` nanoseconds
/// after 1970, when chrono can represent it.
pub uninterp spec fn utc_timestamp_text(secs: i64, nanos: u32) -> Option<Seq<char>>;

/// `chrono::DateTime::from_timestamp` rendered by `DateTime::to_rfc3339`:
/// none when the timestamp is out of chrono's range. Claimed: the result is
/// named `utc_timestamp_text`, and a text ends with the offset `+00:00`, as
/// chrono writes a zero offset in that form (no `Z`).
#[verifier::external_body]
fn rfc3339_of_timestamp(secs: i64, nanos: u32) -> (result: Option<String>)
    ensures
        match result {
            Some(t) => utc_timestamp_text(secs, nanos) == Some(t@) && ends_with_utc_offset(t@),
            None => utc_timestamp_text(secs, nanos) is None,
        },
{
    chrono::DateTime::from_timestamp(secs, nanos).map(|t| t.to_rfc3339())
}

/// The machine's clock.
pub struct SystemClock;

/// Why the clock could not be read.
pub open spec fn clock_unreadable(e: ErrorView) -> bool {
    e == ErrorView::Internal("system time before Unix epoch"@) || e == ErrorView::Internal(
        "system time out of range"@,
    )
}

impl Clock for SystemClock {
    /// The machine's current time in UTC, as RFC 3339 text ending with the
    /// offset `+00:00`; an internal error when the clock reads before 1970
    /// or beyond what chrono represents.
    fn now(&self) -> (result: Result<String, Error>)
        ensures
            match result {
                Ok(t) => ends_with_utc_offset(t@),
                Err(e) => clock_unreadable(e@),
            },
    {
        let time = system_time_now();
        match since_unix_epoch(&time) {
            None => Err(Error::Internal { message: "system time before Unix epoch".to_owned() }),
            Some((secs, nanos)) => {
                if secs > 9_223_372_036_854_775_807u64 {
                    return Err(Error::Internal { message: "system time out of range".to_owned() });
                }
                match rfc3339_of_timestamp(secs as i64, nanos) {
                    Some(text) => Ok(text),
                    None => Err(Error::Internal { message: "system time out of range".to_owned() }),
                }
            },
        }
    }
}

/// A counter that only goes up.
pub trait Counter {
    /// Increment the counter by `n`.
    fn inc(&self, n: u64);
}

} // verus!
