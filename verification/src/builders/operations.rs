//! Builders for operational definitions: artifact types, job types,
//! event types, capability grants and aggregate views.

use vstd::prelude::*;
use crate::ir::{
    AggregateFunction, AggregateMeasure, AggregateView, ArtifactType, CapabilityGrant, EventType, JobType,
    Operation, Property, SpatialExtent, TimeBucket,
};
use crate::primitives::{entries_of, insert_into, opt_wf, pushed, some_text, ApiName, StringMap};

verus! {

/// Builder for [`ArtifactType`].
pub struct ArtifactTypeBuilder {
    api_name: ApiName,
    display: Option<String>,
    description: Option<String>,
    store: ApiName,
    path_template: String,
    media_type: Option<String>,
    metadata_schema: Vec<Property>,
    lifecycle: Vec<String>,
    metadata: Option<StringMap<serde_json::Value>>,
}

impl ArtifactTypeBuilder {
    /// The artifact type this builder would build now.
    pub closed spec fn spec_build(&self) -> ArtifactType {
        ArtifactType {
            api_name: self.api_name,
            display: self.display,
            description: self.description,
            store: self.store,
            path_template: self.path_template,
            media_type: self.media_type,
            metadata_schema: self.metadata_schema,
            lifecycle: self.lifecycle,
            metadata: self.metadata,
        }
    }

    /// The builder's metadata holds each key once.
    pub open spec fn wf(&self) -> bool {
        opt_wf(self.spec_build().metadata)
    }

    /// Create a new artifact type builder with an empty path template.
    pub fn new(api_name: &str, store: &str) -> (result: ArtifactTypeBuilder)
        ensures
            result.wf(),
            result.spec_build().api_name@ == api_name@,
            result.spec_build().display is None,
            result.spec_build().description is None,
            result.spec_build().store@ == store@,
            result.spec_build().path_template@ == Seq::<char>::empty(),
            result.spec_build().media_type is None,
            result.spec_build().metadata_schema@.len() == 0,
            result.spec_build().lifecycle@.len() == 0,
            result.spec_build().metadata is None,
    {
        ArtifactTypeBuilder {
            api_name: ApiName::new_unchecked(api_name),
            display: None,
            description: None,
            store: ApiName::new_unchecked(store),
            path_template: String::new(),
            media_type: None,
            metadata_schema: Vec::new(),
            lifecycle: Vec::new(),
            metadata: None,
        }
    }

    /// Set display name.
    pub fn display(self, name: &str) -> (result: ArtifactTypeBuilder)
        requires
            self.wf(),
        ensures
            result.wf(),
            result.spec_build().display matches Some(d) && d@ == name@,
            result.spec_build() == (ArtifactType { display: result.spec_build().display, ..self.spec_build() }),
    {
        ArtifactTypeBuilder { display: some_text(name), ..self }
    }

    /// Set description.
    pub fn description(self, desc: &str) -> (result: ArtifactTypeBuilder)
        requires
            self.wf(),
        ensures
            result.wf(),
            result.spec_build().description matches Some(d) && d@ == desc@,
            result.spec_build() == (ArtifactType { description: result.spec_build().description, ..self.spec_build() }),
    {
        ArtifactTypeBuilder { description: some_text(desc), ..self }
    }

    /// Set path template.
    pub fn path_template(self, template: &str) -> (result: ArtifactTypeBuilder)
        requires
            self.wf(),
        ensures
            result.wf(),
            result.spec_build().path_template@ == template@,
            result.spec_build() == (ArtifactType { path_template: result.spec_build().path_template, ..self.spec_build() }),
    {
        ArtifactTypeBuilder { path_template: template.to_owned(), ..self }
    }

    /// Set media type.
    pub fn media_type(self, media_type: &str) -> (result: ArtifactTypeBuilder)
        requires
            self.wf(),
        ensures
            result.wf(),
            result.spec_build().media_type matches Some(m) && m@ == media_type@,
            result.spec_build() == (ArtifactType { media_type: result.spec_build().media_type, ..self.spec_build() }),
    {
        ArtifactTypeBuilder { media_type: some_text(media_type), ..self }
    }

    /// Add a metadata property.
    pub fn metadata_property(self, property: Property) -> (result: ArtifactTypeBuilder)
        requires
            self.wf(),
        ensures
            result.wf(),
            result.spec_build().metadata_schema@ == self.spec_build().metadata_schema@.push(property),
            result.spec_build() == (ArtifactType { metadata_schema: result.spec_build().metadata_schema, ..self.spec_build() }),
    {
        let mut metadata_schema = self.metadata_schema;
        metadata_schema.push(property);
        ArtifactTypeBuilder { metadata_schema, ..self }
    }

    /// Add a lifecycle state.
    pub fn state(self, state: &str) -> (result: ArtifactTypeBuilder)
        requires
            self.wf(),
        ensures
            result.wf(),
            pushed(result.spec_build().lifecycle@, self.spec_build().lifecycle@, state@),
            result.spec_build() == (ArtifactType { lifecycle: result.spec_build().lifecycle, ..self.spec_build() }),
    {
        let ghost before = self.lifecycle@;
        let mut lifecycle = self.lifecycle;
        lifecycle.push(state.to_owned());
        assert(lifecycle@.drop_last() =~= before);
        ArtifactTypeBuilder { lifecycle, ..self }
    }

    /// Add a metadata key/value.
    pub fn metadata(self, key: &str, value: serde_json::Value) -> (result: ArtifactTypeBuilder)
        requires
            self.wf(),
        ensures
            result.wf(),
            result.spec_build().metadata is Some,
            entries_of(result.spec_build().metadata) == entries_of(self.spec_build().metadata).insert(key@, value),
            result.spec_build() == (ArtifactType { metadata: result.spec_build().metadata, ..self.spec_build() }),
    {
        let metadata = insert_into(self.metadata, key, value);
        ArtifactTypeBuilder { metadata, ..self }
    }

    /// Build the [`ArtifactType`].
    pub fn build(self) -> (result: ArtifactType)
        ensures
            result == self.spec_build(),
    {
        ArtifactType {
            api_name: self.api_name,
            display: self.display,
            description: self.description,
            store: self.store,
            path_template: self.path_template,
            media_type: self.media_type,
            metadata_schema: self.metadata_schema,
            lifecycle: self.lifecycle,
            metadata: self.metadata,
        }
    }
}

/// Builder for [`JobType`].
pub struct JobTypeBuilder {
    api_name: ApiName,
    executor: ApiName,
    states: Vec<String>,
    idempotency_key: Option<String>,
    start_event: Option<ApiName>,
    result_event: Option<ApiName>,
    input_schema: Option<serde_json::Value>,
    output_schema: Option<serde_json::Value>,
}

impl JobTypeBuilder {
    /// The job type this builder would build now (no display name,
    /// description or metadata).
    pub closed spec fn spec_build(&self) -> JobType {
        JobType {
            api_name: self.api_name,
            display: None,
            description: None,
            executor: self.executor,
            input_schema: self.input_schema,
            output_schema: self.output_schema,
            states: self.states,
            idempotency_key: self.idempotency_key,
            start_event: self.start_event,
            result_event: self.result_event,
            metadata: None,
        }
    }

    /// Create a new job type builder.
    pub fn new(api_name: &str, executor: &str) -> (result: JobTypeBuilder)
        ensures
            result.spec_build().api_name@ == api_name@,
            result.spec_build().display is None,
            result.spec_build().description is None,
            result.spec_build().executor@ == executor@,
            result.spec_build().input_schema is None,
            result.spec_build().output_schema is None,
            result.spec_build().states@.len() == 0,
            result.spec_build().idempotency_key is None,
            result.spec_build().start_event is None,
            result.spec_build().result_event is None,
            result.spec_build().metadata is None,
    {
        JobTypeBuilder {
            api_name: ApiName::new_unchecked(api_name),
            executor: ApiName::new_unchecked(executor),
            states: Vec::new(),
            idempotency_key: None,
            start_event: None,
            result_event: None,
            input_schema: None,
            output_schema: None,
        }
    }

    /// Set the lifecycle states.
    pub fn states(self, states: Vec<String>) -> (result: JobTypeBuilder)
        ensures
            result.spec_build() == (JobType { states, ..self.spec_build() }),
    {
        JobTypeBuilder { states, ..self }
    }

    /// Set idempotency key template.
    pub fn idempotency_key(self, key: &str) -> (result: JobTypeBuilder)
        ensures
            result.spec_build().idempotency_key matches Some(k) && k@ == key@,
            result.spec_build() == (JobType { idempotency_key: result.spec_build().idempotency_key, ..self.spec_build() }),
    {
        JobTypeBuilder { idempotency_key: some_text(key), ..self }
    }

    /// Set start event.
    pub fn start_event(self, event: &str) -> (result: JobTypeBuilder)
        ensures
            result.spec_build().start_event matches Some(e) && e@ == event@,
            result.spec_build() == (JobType { start_event: result.spec_build().start_event, ..self.spec_build() }),
    {
        JobTypeBuilder { start_event: Some(ApiName::new_unchecked(event)), ..self }
    }

    /// Set result event.
    pub fn result_event(self, event: &str) -> (result: JobTypeBuilder)
        ensures
            result.spec_build().result_event matches Some(e) && e@ == event@,
            result.spec_build() == (JobType { result_event: result.spec_build().result_event, ..self.spec_build() }),
    {
        JobTypeBuilder { result_event: Some(ApiName::new_unchecked(event)), ..self }
    }

    /// Set input schema.
    pub fn input_schema(self, schema: serde_json::Value) -> (result: JobTypeBuilder)
        ensures
            result.spec_build() == (JobType { input_schema: Some(schema), ..self.spec_build() }),
    {
        JobTypeBuilder { input_schema: Some(schema), ..self }
    }

    /// Set output schema.
    pub fn output_schema(self, schema: serde_json::Value) -> (result: JobTypeBuilder)
        ensures
            result.spec_build() == (JobType { output_schema: Some(schema), ..self.spec_build() }),
    {
        JobTypeBuilder { output_schema: Some(schema), ..self }
    }

    /// Build the [`JobType`].
    pub fn build(self) -> (result: JobType)
        ensures
            result == self.spec_build(),
    {
        JobType {
            api_name: self.api_name,
            display: None,
            description: None,
            executor: self.executor,
            input_schema: self.input_schema,
            output_schema: self.output_schema,
            states: self.states,
            idempotency_key: self.idempotency_key,
            start_event: self.start_event,
            result_event: self.result_event,
            metadata: None,
        }
    }
}

/// Build a logical [`EventType`] published on `bus` under `topic`.
pub fn event_type(api_name: &str, bus: &str, topic: &str) -> (result: EventType)
    ensures
        result.api_name@ == api_name@,
        result.bus@ == bus@,
        result.topic@ == topic@,
        result.payload_schema is None,
        result.correlation_keys@.len() == 0,
        result.metadata is None,
{
    EventType {
        api_name: ApiName::new_unchecked(api_name),
        bus: ApiName::new_unchecked(bus),
        topic: topic.to_owned(),
        payload_schema: None,
        correlation_keys: Vec::new(),
        metadata: None,
    }
}

/// Build a [`CapabilityGrant`] for `operations` on a kind of resource.
pub fn capability_grant(api_name: &str, resource_kind: &str, operations: Vec<Operation>) -> (result: CapabilityGrant)
    ensures
        result.api_name@ == api_name@,
        result.resource_kind@ == resource_kind@,
        result.resource is None,
        result.operations == operations,
        result.ttl_seconds is None,
        result.constraints is None,
        result.metadata is None,
{
    CapabilityGrant {
        api_name: ApiName::new_unchecked(api_name),
        resource_kind: resource_kind.to_owned(),
        resource: None,
        operations,
        ttl_seconds: None,
        constraints: None,
        metadata: None,
    }
}

/// Build a simple [`AggregateView`] that requires pushdown.
pub fn aggregate_view(api_name: &str, object_type: &str, measures: Vec<AggregateMeasure>) -> (result: AggregateView)
    ensures
        result.api_name@ == api_name@,
        result.object_type@ == object_type@,
        result.filter is None,
        result.group_by@.len() == 0,
        result.measures == measures,
        result.time_bucket is None,
        result.spatial_extent is None,
        result.require_pushdown,
        result.metadata is None,
{
    AggregateView {
        api_name: ApiName::new_unchecked(api_name),
        object_type: ApiName::new_unchecked(object_type),
        filter: None,
        group_by: Vec::new(),
        measures,
        time_bucket: None,
        spatial_extent: None,
        require_pushdown: true,
        metadata: None,
    }
}

/// Construct a typed aggregate measure over all values.
pub fn measure(function: AggregateFunction, alias: &str, property: Option<&str>) -> (result: AggregateMeasure)
    ensures
        result.function == function,
        result.alias@ == alias@,
        match property {
            Some(p) => result.property matches Some(q) && q@ == p@,
            None => result.property is None,
        },
        !result.distinct,
{
    let property = match property {
        Some(p) => Some(ApiName::new_unchecked(p)),
        None => None,
    };
    AggregateMeasure { function, property, alias: alias.to_owned(), distinct: false }
}

/// Construct a time bucket without a time zone.
pub fn time_bucket(property: &str, interval: &str) -> (result: TimeBucket)
    ensures
        result.property@ == property@,
        result.interval@ == interval@,
        result.timezone is None,
{
    TimeBucket { property: ApiName::new_unchecked(property), interval: interval.to_owned(), timezone: None }
}

/// Construct a spatial extent descriptor.
pub fn spatial_extent(property: &str, output: &str) -> (result: SpatialExtent)
    ensures
        result.property@ == property@,
        result.output@ == output@,
{
    SpatialExtent { property: ApiName::new_unchecked(property), output: output.to_owned() }
}

} // verus!
