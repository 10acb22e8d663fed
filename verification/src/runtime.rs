//! Runtime vocabulary: expression languages, lineage and change kinds,
//! request metadata, capability and approval records, and request
//! defaults of the HTTP boundary.

use vstd::prelude::*;
use crate::primitives::{str_eq, StringMap};

verus! {

/// Language an expression is written in.
#[derive(Debug, Clone, Copy, PartialEq, Eq, Structural)]
pub enum ComputedLang {
    /// Common Expression Language.
    Cel,
    /// SQL expression (evaluated by the backend).
    Sql,
    /// Python (evaluated by an embedded interpreter).
    Python,
}

/// Language named by the text stored in a spec; unknown names mean CEL.
pub open spec fn lang_named(s: Seq<char>) -> ComputedLang {
    if s == "sql"@ {
        ComputedLang::Sql
    } else if s == "python"@ {
        ComputedLang::Python
    } else {
        ComputedLang::Cel
    }
}

impl ComputedLang {
    /// Parse from the string stored in the spec.
    pub fn from_spec_str(s: &str) -> (result: ComputedLang)
        ensures
            result == lang_named(s@),
    {
        if str_eq(s, "sql") {
            ComputedLang::Sql
        } else if str_eq(s, "python") {
            ComputedLang::Python
        } else {
            ComputedLang::Cel
        }
    }
}

/// Edge kind of a runtime lineage record.
#[derive(Debug, Clone, Copy, PartialEq, Eq, Structural)]
pub enum LineageKind {
    /// The source produced the target.
    Produces,
    /// The source consumed the target as input.
    Consumes,
    /// The target was derived from the source.
    DerivesFrom,
}

/// Operation carried by a change event.
#[derive(Debug, Clone, Copy, PartialEq, Eq, Structural)]
pub enum ChangeOp {
    /// A new record was inserted.
    Insert,
    /// An existing record was updated.
    Update,
    /// A record was deleted.
    Delete,
}

/// Interceptor operation kind.
#[derive(Debug, Clone, Copy, PartialEq, Eq, Structural)]
pub enum InterceptorOp {
    /// Before operation.
    Before,
    /// After operation.
    After,
}

/// Metadata extracted from an incoming request.
#[derive(Debug, Clone)]
pub struct RequestMeta {
    /// Authorization header (or other bearer).
    pub authorization: Option<String>,
    /// Request headers.
    pub headers: StringMap<String>,
    /// Client IP.
    pub remote_addr: Option<String>,
    /// Workspace / tenant override from the inbound boundary.
    pub workspace: Option<String>,
    /// Correlation ID for audit, events, and job linkage.
    pub correlation_id: Option<String>,
}

/// Backend capability advertisement.
#[derive(Debug, Clone, Copy, PartialEq, Eq, Structural)]
pub struct BackendCapabilities {
    /// Supports search.
    pub search: bool,
    /// Supports get by primary key.
    pub get: bool,
    /// Supports mutation.
    pub mutate: bool,
    /// Supports aggregation.
    pub aggregate: bool,
    /// Supports traversal.
    pub traverse: bool,
    /// Supports bulk load.
    pub bulk_load: bool,
    /// Supports rollback.
    pub rollback: bool,
    /// Supports explain.
    pub explain: bool,
}

/// Decision from an approval provider.
#[derive(Debug, Clone)]
pub struct ApprovalDecision {
    /// Approved or denied.
    pub approved: bool,
    /// Approver identity.
    pub approver: String,
    /// Optional reason.
    pub reason: Option<String>,
}

/// Signed upload URL response.
#[derive(Debug, Clone)]
pub struct SignedUpload {
    /// URL to upload to.
    pub url: String,
    /// Logical path/key in the object store.
    pub path: String,
    /// Expiration timestamp.
    pub expires_at: String,
    /// Headers the client must include.
    pub headers: StringMap<String>,
    /// Opaque upload session ID.
    pub upload_id: Option<String>,
}

/// A plan from the planner.
#[derive(Debug, Clone)]
pub struct Plan {
    /// Planned steps.
    pub steps: Vec<String>,
}

/// Number of neighbours a vector search returns when none is asked for.
pub fn default_top_k() -> (result: usize)
    ensures
        result == 10,
{
    10
}

/// HNSW `ef` parameter used when none is asked for.
pub fn default_ef() -> (result: usize)
    ensures
        result == 50,
{
    50
}

/// Upload format used when none is asked for.
pub fn default_upload_format() -> (result: String)
    ensures
        result@ == "csv"@,
{
    "csv".to_owned()
}

/// Lifetime of signed upload URLs, in seconds, when none is asked for.
pub fn default_upload_ttl_secs() -> (result: u64)
    ensures
        result == 900,
{
    900
}

} // verus!
