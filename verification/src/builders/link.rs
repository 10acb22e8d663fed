//! Builder for link types.

use vstd::prelude::*;
use crate::ir::{JunctionConfig, LinkCardinality, LinkMapping, LinkSource, LinkType};
use crate::primitives::{entries_of, insert_into, opt_wf, some_text, ApiName, StringMap};

verus! {

/// Builder for [`LinkType`].
pub struct LinkBuilder {
    api_name: ApiName,
    display: Option<String>,
    from: ApiName,
    to: ApiName,
    cardinality: LinkCardinality,
    source: Option<LinkSource>,
    mappings: Vec<LinkMapping>,
    junction: Option<JunctionConfig>,
    deprecated_at: Option<String>,
    metadata: Option<StringMap<serde_json::Value>>,
}

impl LinkBuilder {
    /// The link this builder would build now.
    pub closed spec fn spec_build(&self) -> LinkType {
        LinkType {
            api_name: self.api_name,
            display: self.display,
            from: self.from,
            to: self.to,
            cardinality: self.cardinality,
            source: self.source,
            mappings: self.mappings,
            junction: self.junction,
            deprecated_at: self.deprecated_at,
            metadata: self.metadata,
        }
    }

    /// The builder's metadata holds each key once.
    pub open spec fn wf(&self) -> bool {
        opt_wf(self.spec_build().metadata)
    }

    /// Create a new many-to-many link builder from `from` to `to`.
    pub fn new(api_name: &str, from: &str, to: &str) -> (result: LinkBuilder)
        ensures
            result.wf(),
            result.spec_build().api_name@ == api_name@,
            result.spec_build().display is None,
            result.spec_build().from@ == from@,
            result.spec_build().to@ == to@,
            result.spec_build().cardinality == LinkCardinality::ManyToMany,
            result.spec_build().source is None,
            result.spec_build().mappings@.len() == 0,
            result.spec_build().junction is None,
            result.spec_build().deprecated_at is None,
            result.spec_build().metadata is None,
    {
        LinkBuilder {
            api_name: ApiName::new_unchecked(api_name),
            display: None,
            from: ApiName::new_unchecked(from),
            to: ApiName::new_unchecked(to),
            cardinality: LinkCardinality::ManyToMany,
            source: None,
            mappings: Vec::new(),
            junction: None,
            deprecated_at: None,
            metadata: None,
        }
    }

    /// Set display name.
    pub fn display(self, name: &str) -> (result: LinkBuilder)
        requires
            self.wf(),
        ensures
            result.wf(),
            result.spec_build().display matches Some(d) && d@ == name@,
            result.spec_build() == (LinkType { display: result.spec_build().display, ..self.spec_build() }),
    {
        LinkBuilder { display: some_text(name), ..self }
    }

    /// Set cardinality.
    pub fn cardinality(self, cardinality: LinkCardinality) -> (result: LinkBuilder)
        requires
            self.wf(),
        ensures
            result.wf(),
            result.spec_build() == (LinkType { cardinality, ..self.spec_build() }),
    {
        LinkBuilder { cardinality, ..self }
    }

    /// Add a property join mapping.
    pub fn mapping(self, from_property: &str, to_property: &str) -> (result: LinkBuilder)
        requires
            self.wf(),
        ensures
            result.wf(),
            result.spec_build().mappings@.len() == self.spec_build().mappings@.len() + 1,
            result.spec_build().mappings@.drop_last() == self.spec_build().mappings@,
            result.spec_build().mappings@.last().from_property@ == from_property@,
            result.spec_build().mappings@.last().to_property@ == to_property@,
            result.spec_build() == (LinkType { mappings: result.spec_build().mappings, ..self.spec_build() }),
    {
        let ghost before = self.mappings@;
        let mut mappings = self.mappings;
        mappings.push(LinkMapping {
            from_property: ApiName::new_unchecked(from_property),
            to_property: ApiName::new_unchecked(to_property),
        });
        assert(mappings@.drop_last() =~= before);
        LinkBuilder { mappings, ..self }
    }

    /// Set physical source mapping.
    pub fn source(self, datasource: &str, resource: &str) -> (result: LinkBuilder)
        requires
            self.wf(),
        ensures
            result.wf(),
            result.spec_build().source matches Some(s) && (s.datasource matches Some(d) && d@ == datasource@)
                && (s.resource matches Some(r) && r@ == resource@),
            result.spec_build() == (LinkType { source: result.spec_build().source, ..self.spec_build() }),
    {
        LinkBuilder {
            source: Some(LinkSource { datasource: Some(ApiName::new_unchecked(datasource)), resource: some_text(resource) }),
            ..self
        }
    }

    /// Set junction table configuration.
    pub fn junction(self, datasource: &str, resource: &str, from_column: &str, to_column: &str) -> (result: LinkBuilder)
        requires
            self.wf(),
        ensures
            result.wf(),
            result.spec_build().junction matches Some(j) && j.datasource@ == datasource@ && j.resource@
                == resource@ && j.from_column@ == from_column@ && j.to_column@ == to_column@
                && j.properties@.len() == 0,
            result.spec_build() == (LinkType { junction: result.spec_build().junction, ..self.spec_build() }),
    {
        LinkBuilder {
            junction: Some(JunctionConfig {
                datasource: ApiName::new_unchecked(datasource),
                resource: resource.to_owned(),
                from_column: from_column.to_owned(),
                to_column: to_column.to_owned(),
                properties: Vec::new(),
            }),
            ..self
        }
    }

    /// Set deprecation timestamp.
    pub fn deprecated_at(self, at: &str) -> (result: LinkBuilder)
        requires
            self.wf(),
        ensures
            result.wf(),
            result.spec_build().deprecated_at matches Some(d) && d@ == at@,
            result.spec_build() == (LinkType { deprecated_at: result.spec_build().deprecated_at, ..self.spec_build() }),
    {
        LinkBuilder { deprecated_at: some_text(at), ..self }
    }

    /// Set a metadata key/value.
    pub fn metadata(self, key: &str, value: serde_json::Value) -> (result: LinkBuilder)
        requires
            self.wf(),
        ensures
            result.wf(),
            result.spec_build().metadata is Some,
            entries_of(result.spec_build().metadata) == entries_of(self.spec_build().metadata).insert(key@, value),
            result.spec_build() == (LinkType { metadata: result.spec_build().metadata, ..self.spec_build() }),
    {
        let metadata = insert_into(self.metadata, key, value);
        LinkBuilder { metadata, ..self }
    }

    /// Build the [`LinkType`].
    pub fn build(self) -> (result: LinkType)
        ensures
            result == self.spec_build(),
    {
        LinkType {
            api_name: self.api_name,
            display: self.display,
            from: self.from,
            to: self.to,
            cardinality: self.cardinality,
            source: self.source,
            mappings: self.mappings,
            junction: self.junction,
            deprecated_at: self.deprecated_at,
            metadata: self.metadata,
        }
    }
}

} // verus!
