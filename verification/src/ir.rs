//! Ontology definitions produced by the builders: object properties,
//! links, actions, agents, datasources, roles and operational types.

use vstd::prelude::*;
use crate::primitives::{ApiName, StringMap};

verus! {

/// Data type of a property.
#[derive(Debug, Clone, Copy, PartialEq, Eq, Structural)]
pub enum DataType {
    /// Text.
    String,
    /// 32-bit integer.
    Integer,
    /// 64-bit integer.
    BigInt,
    /// Floating-point number.
    Float,
    /// Decimal number.
    Decimal,
    /// Boolean.
    Boolean,
    /// Point in time.
    Timestamp,
    /// Calendar date.
    Date,
    /// UUID.
    Uuid,
    /// Arbitrary JSON.
    Json,
}

/// Cardinality of a link between object types.
#[derive(Debug, Clone, Copy, PartialEq, Eq, Structural)]
pub enum LinkCardinality {
    /// One to one.
    OneToOne,
    /// One to many.
    OneToMany,
    /// Many to one.
    ManyToOne,
    /// Many to many.
    ManyToMany,
}

/// An operation subject to policy.
#[derive(Debug, Clone, Copy, PartialEq, Eq, Structural)]
pub enum Operation {
    /// Search records.
    Search,
    /// Read records.
    Read,
    /// Change records.
    Mutate,
    /// Upload files.
    Upload,
    /// Create records.
    Create,
    /// Update records.
    Update,
    /// Delete records.
    Delete,
    /// Execute actions or jobs.
    Execute,
    /// Aggregate records.
    Aggregate,
    /// Traverse links.
    Traverse,
}

/// Aggregate function of a measure.
#[derive(Debug, Clone, Copy, PartialEq, Eq, Structural)]
pub enum AggregateFunction {
    /// Count records.
    Count,
    /// Sum values.
    Sum,
    /// Average values.
    Avg,
    /// Minimum value.
    Min,
    /// Maximum value.
    Max,
}

/// A computed property expression.
#[derive(Debug, Clone)]
pub struct Computed {
    /// Expression language.
    pub language: String,
    /// Expression text.
    pub expression: String,
}

/// Reference to a quality rule applied to a property.
#[derive(Debug, Clone)]
pub struct QualityRuleRef {
    /// Rule API name.
    pub api_name: ApiName,
    /// Rule kind.
    pub kind: String,
    /// Rule arguments.
    pub args: Option<serde_json::Value>,
}

/// A property of an object type.
#[derive(Debug, Clone)]
pub struct Property {
    /// API name.
    pub api_name: ApiName,
    /// Display name.
    pub display: Option<String>,
    /// Description.
    pub description: Option<String>,
    /// Data type.
    pub data_type: DataType,
    /// Whether the property may be null (`Some(false)` when required).
    pub nullable: Option<bool>,
    /// Whether values are unique.
    pub unique: Option<bool>,
    /// Whether the property is indexed.
    pub indexed: Option<bool>,
    /// Default value.
    pub default: Option<serde_json::Value>,
    /// Computed expression.
    pub computed: Option<Computed>,
    /// Source column mapping.
    pub source_column: Option<String>,
    /// Allowed enum values.
    pub allowed_values: Option<Vec<serde_json::Value>>,
    /// Sort order hint.
    pub sort_order: Option<String>,
    /// Tags.
    pub tags: Vec<String>,
    /// Markings.
    pub markings: Vec<String>,
    /// Encrypted at rest.
    pub encrypted: Option<bool>,
    /// Quality rule references.
    pub quality: Vec<QualityRuleRef>,
    /// Metadata.
    pub metadata: Option<StringMap<serde_json::Value>>,
}

/// Handler that executes an action.
#[derive(Debug, Clone)]
pub struct ActionHandler {
    /// Handler kind.
    pub kind: String,
    /// Handler target.
    pub target: Option<String>,
    /// Handler configuration.
    pub config: Option<StringMap<serde_json::Value>>,
}

/// An action type.
#[derive(Debug, Clone)]
pub struct ActionType {
    /// API name.
    pub api_name: ApiName,
    /// Display name.
    pub display: Option<String>,
    /// Description.
    pub description: Option<String>,
    /// Subject object type.
    pub subject: Option<ApiName>,
    /// Handler.
    pub handler: ActionHandler,
    /// Input JSON schema.
    pub input_schema: Option<serde_json::Value>,
    /// Output JSON schema.
    pub output_schema: Option<serde_json::Value>,
    /// Execution mode.
    pub mode: Option<String>,
    /// Risk level.
    pub risk_level: Option<String>,
    /// Idempotency key template.
    pub idempotency_key: Option<String>,
    /// Deprecation timestamp.
    pub deprecated_at: Option<String>,
    /// Metadata.
    pub metadata: Option<StringMap<serde_json::Value>>,
}

/// A context source an agent may draw on.
#[derive(Debug, Clone)]
pub struct ContextSource {
    /// Source name.
    pub name: String,
    /// Source kind.
    pub kind: String,
    /// Referenced element.
    pub reference: Option<String>,
    /// Description.
    pub description: Option<String>,
    /// Maximum items drawn.
    pub max_items: Option<i32>,
    /// Metadata.
    pub metadata: Option<StringMap<serde_json::Value>>,
}

/// Agent memory configuration.
#[derive(Debug, Clone)]
pub struct AgentMemory {
    /// Whether memory is enabled.
    pub enabled: Option<bool>,
    /// Memory namespace.
    pub namespace: Option<String>,
    /// Memory scope.
    pub scope: Option<String>,
}

/// Agent execution limits.
#[derive(Debug, Clone, Copy, PartialEq, Eq)]
pub struct AgentLimits {
    /// Maximum tool calls per run.
    pub max_tool_calls: Option<i32>,
    /// Maximum tokens per run.
    pub max_tokens: Option<i32>,
    /// Timeout in seconds.
    pub timeout_seconds: Option<i32>,
    /// Token budget for the context window.
    pub token_budget: Option<u32>,
}

/// An agent definition.
#[derive(Debug, Clone)]
pub struct Agent {
    /// API name.
    pub api_name: ApiName,
    /// Display name.
    pub display: Option<String>,
    /// Description.
    pub description: Option<String>,
    /// Model identifier.
    pub model: Option<String>,
    /// Model provider.
    pub model_provider: Option<String>,
    /// System instructions.
    pub instructions: Option<String>,
    /// Allowed tools.
    pub allowed_tools: Vec<ApiName>,
    /// Custom tools.
    pub custom_tools: Vec<ApiName>,
    /// Context sources.
    pub context_sources: Vec<ContextSource>,
    /// Memory configuration.
    pub memory: Option<AgentMemory>,
    /// Execution limits.
    pub limits: Option<AgentLimits>,
    /// Whether runs require human approval.
    pub requires_approval: Option<bool>,
    /// Deprecation timestamp.
    pub deprecated_at: Option<String>,
    /// Metadata.
    pub metadata: Option<StringMap<serde_json::Value>>,
    /// Capability tags.
    pub capabilities: Vec<String>,
    /// Output JSON schema.
    pub output_schema: Option<serde_json::Value>,
    /// Output object type.
    pub output_object_type: Option<ApiName>,
}

/// A datasource definition.
#[derive(Debug, Clone)]
pub struct Datasource {
    /// API name.
    pub api_name: ApiName,
    /// Adapter type.
    pub adapter_type: String,
    /// Adapter configuration.
    pub config: Option<StringMap<serde_json::Value>>,
    /// Secret references.
    pub secrets: Option<StringMap<serde_json::Value>>,
}

/// Property join mapping of a link.
#[derive(Debug, Clone)]
pub struct LinkMapping {
    /// Property on the source side.
    pub from_property: ApiName,
    /// Property on the target side.
    pub to_property: ApiName,
}

/// Physical source of a link.
#[derive(Debug, Clone)]
pub struct LinkSource {
    /// Datasource holding the link.
    pub datasource: Option<ApiName>,
    /// Resource holding the link.
    pub resource: Option<String>,
}

/// Junction table of a many-to-many link.
#[derive(Debug, Clone)]
pub struct JunctionConfig {
    /// Datasource of the junction.
    pub datasource: ApiName,
    /// Junction resource.
    pub resource: String,
    /// Column referencing the source.
    pub from_column: String,
    /// Column referencing the target.
    pub to_column: String,
    /// Extra junction properties.
    pub properties: Vec<Property>,
}

/// A link type between object types.
#[derive(Debug, Clone)]
pub struct LinkType {
    /// API name.
    pub api_name: ApiName,
    /// Display name.
    pub display: Option<String>,
    /// Source object type.
    pub from: ApiName,
    /// Target object type.
    pub to: ApiName,
    /// Cardinality.
    pub cardinality: LinkCardinality,
    /// Physical source.
    pub source: Option<LinkSource>,
    /// Join mappings.
    pub mappings: Vec<LinkMapping>,
    /// Junction configuration.
    pub junction: Option<JunctionConfig>,
    /// Deprecation timestamp.
    pub deprecated_at: Option<String>,
    /// Metadata.
    pub metadata: Option<StringMap<serde_json::Value>>,
}

/// A role definition.
#[derive(Debug, Clone)]
pub struct Role {
    /// API name.
    pub api_name: ApiName,
    /// Display name.
    pub display: Option<String>,
    /// Description.
    pub description: Option<String>,
    /// Inherited roles.
    pub inherits: Vec<ApiName>,
}

/// An artifact type kept in an object store.
#[derive(Debug, Clone)]
pub struct ArtifactType {
    /// API name.
    pub api_name: ApiName,
    /// Display name.
    pub display: Option<String>,
    /// Description.
    pub description: Option<String>,
    /// Object store.
    pub store: ApiName,
    /// Path template.
    pub path_template: String,
    /// Media type.
    pub media_type: Option<String>,
    /// Metadata properties.
    pub metadata_schema: Vec<Property>,
    /// Lifecycle states.
    pub lifecycle: Vec<String>,
    /// Metadata.
    pub metadata: Option<StringMap<serde_json::Value>>,
}

/// A job type run by an executor.
#[derive(Debug, Clone)]
pub struct JobType {
    /// API name.
    pub api_name: ApiName,
    /// Display name.
    pub display: Option<String>,
    /// Description.
    pub description: Option<String>,
    /// Executor.
    pub executor: ApiName,
    /// Input JSON schema.
    pub input_schema: Option<serde_json::Value>,
    /// Output JSON schema.
    pub output_schema: Option<serde_json::Value>,
    /// Lifecycle states.
    pub states: Vec<String>,
    /// Idempotency key template.
    pub idempotency_key: Option<String>,
    /// Event published at start.
    pub start_event: Option<ApiName>,
    /// Event published with the result.
    pub result_event: Option<ApiName>,
    /// Metadata.
    pub metadata: Option<StringMap<serde_json::Value>>,
}

/// A logical event type published on a bus.
#[derive(Debug, Clone)]
pub struct EventType {
    /// API name.
    pub api_name: ApiName,
    /// Event bus.
    pub bus: ApiName,
    /// Topic.
    pub topic: String,
    /// Payload JSON schema.
    pub payload_schema: Option<serde_json::Value>,
    /// Correlation keys.
    pub correlation_keys: Vec<String>,
    /// Metadata.
    pub metadata: Option<StringMap<serde_json::Value>>,
}

/// A grant of constrained capabilities.
#[derive(Debug, Clone)]
pub struct CapabilityGrant {
    /// API name.
    pub api_name: ApiName,
    /// Resource kind.
    pub resource_kind: String,
    /// Resource name.
    pub resource: Option<ApiName>,
    /// Allowed operations.
    pub operations: Vec<Operation>,
    /// Time to live in seconds.
    pub ttl_seconds: Option<i64>,
    /// Constraints.
    pub constraints: Option<StringMap<serde_json::Value>>,
    /// Metadata.
    pub metadata: Option<StringMap<serde_json::Value>>,
}

/// One measure of an aggregate view.
#[derive(Debug, Clone)]
pub struct AggregateMeasure {
    /// Aggregate function.
    pub function: AggregateFunction,
    /// Property aggregated.
    pub property: Option<ApiName>,
    /// Output alias.
    pub alias: String,
    /// Aggregate distinct values only.
    pub distinct: bool,
}

/// A time bucket for temporal rollups.
#[derive(Debug, Clone)]
pub struct TimeBucket {
    /// Timestamp property.
    pub property: ApiName,
    /// Bucket interval.
    pub interval: String,
    /// Time zone.
    pub timezone: Option<String>,
}

/// A spatial extent descriptor.
#[derive(Debug, Clone)]
pub struct SpatialExtent {
    /// Geometry property.
    pub property: ApiName,
    /// Output name.
    pub output: String,
}

/// A named aggregate view over an object type.
#[derive(Debug, Clone)]
pub struct AggregateView {
    /// API name.
    pub api_name: ApiName,
    /// Object type aggregated.
    pub object_type: ApiName,
    /// Filter applied before aggregation.
    pub filter: Option<serde_json::Value>,
    /// Group-by properties.
    pub group_by: Vec<ApiName>,
    /// Measures.
    pub measures: Vec<AggregateMeasure>,
    /// Time bucket.
    pub time_bucket: Option<TimeBucket>,
    /// Spatial extent.
    pub spatial_extent: Option<SpatialExtent>,
    /// Require backend pushdown.
    pub require_pushdown: bool,
    /// Metadata.
    pub metadata: Option<StringMap<serde_json::Value>>,
}

} // verus!
