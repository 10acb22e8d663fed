//! Builder for object properties.

use vstd::prelude::*;
use crate::ir::{Computed, DataType, Property, QualityRuleRef};
use crate::primitives::{entries_of, insert_into, opt_wf, pushed, some_text, ApiName, StringMap};

verus! {

/// Builder for [`Property`].
pub struct PropertyBuilder {
    api_name: ApiName,
    data_type: DataType,
    display: Option<String>,
    description: Option<String>,
    required: bool,
    unique: bool,
    indexed: bool,
    default: Option<serde_json::Value>,
    computed: Option<Computed>,
    source_column: Option<String>,
    allowed_values: Option<Vec<serde_json::Value>>,
    sort_order: Option<String>,
    tags: Vec<String>,
    markings: Vec<String>,
    encrypted: Option<bool>,
    quality: Vec<QualityRuleRef>,
    metadata: Option<StringMap<serde_json::Value>>,
}

impl PropertyBuilder {
    /// The property this builder would build now: a required property is
    /// not nullable, unset uniqueness and indexing are left unspecified.
    pub closed spec fn spec_build(&self) -> Property {
        Property {
            api_name: self.api_name,
            display: self.display,
            description: self.description,
            data_type: self.data_type,
            nullable: if self.required { Some(false) } else { None },
            unique: if self.unique { Some(true) } else { None },
            indexed: if self.indexed { Some(true) } else { None },
            default: self.default,
            computed: self.computed,
            source_column: self.source_column,
            allowed_values: self.allowed_values,
            sort_order: self.sort_order,
            tags: self.tags,
            markings: self.markings,
            encrypted: self.encrypted,
            quality: self.quality,
            metadata: self.metadata,
        }
    }

    /// The builder's metadata holds each key once.
    pub open spec fn wf(&self) -> bool {
        opt_wf(self.spec_build().metadata)
    }

    /// Create a new property builder: optional, not unique, not indexed.
    pub fn new(api_name: &str, data_type: DataType) -> (result: PropertyBuilder)
        ensures
            result.wf(),
            result.spec_build().api_name@ == api_name@,
            result.spec_build().data_type == data_type,
            result.spec_build().display is None,
            result.spec_build().description is None,
            result.spec_build().nullable is None,
            result.spec_build().unique is None,
            result.spec_build().indexed is None,
            result.spec_build().default is None,
            result.spec_build().computed is None,
            result.spec_build().source_column is None,
            result.spec_build().allowed_values is None,
            result.spec_build().sort_order is None,
            result.spec_build().tags@.len() == 0,
            result.spec_build().markings@.len() == 0,
            result.spec_build().encrypted is None,
            result.spec_build().quality@.len() == 0,
            result.spec_build().metadata is None,
    {
        PropertyBuilder {
            api_name: ApiName::new_unchecked(api_name),
            data_type,
            display: None,
            description: None,
            required: false,
            unique: false,
            indexed: false,
            default: None,
            computed: None,
            source_column: None,
            allowed_values: None,
            sort_order: None,
            tags: Vec::new(),
            markings: Vec::new(),
            encrypted: None,
            quality: Vec::new(),
            metadata: None,
        }
    }

    /// Set display name.
    pub fn display(self, name: &str) -> (result: PropertyBuilder)
        requires
            self.wf(),
        ensures
            result.wf(),
            result.spec_build().display matches Some(d) && d@ == name@,
            result.spec_build() == (Property { display: result.spec_build().display, ..self.spec_build() }),
    {
        PropertyBuilder { display: some_text(name), ..self }
    }

    /// Set description.
    pub fn description(self, desc: &str) -> (result: PropertyBuilder)
        requires
            self.wf(),
        ensures
            result.wf(),
            result.spec_build().description matches Some(d) && d@ == desc@,
            result.spec_build() == (Property { description: result.spec_build().description, ..self.spec_build() }),
    {
        PropertyBuilder { description: some_text(desc), ..self }
    }

    /// Mark as required (not nullable) or optional.
    pub fn required(self, required: bool) -> (result: PropertyBuilder)
        requires
            self.wf(),
        ensures
            result.wf(),
            result.spec_build() == (Property {
                nullable: if required { Some(false) } else { None },
                ..self.spec_build()
            }),
    {
        PropertyBuilder { required, ..self }
    }

    /// Mark as unique or not.
    pub fn unique(self, unique: bool) -> (result: PropertyBuilder)
        requires
            self.wf(),
        ensures
            result.wf(),
            result.spec_build() == (Property { unique: if unique { Some(true) } else { None }, ..self.spec_build() }),
    {
        PropertyBuilder { unique, ..self }
    }

    /// Mark as indexed or not.
    pub fn indexed(self, indexed: bool) -> (result: PropertyBuilder)
        requires
            self.wf(),
        ensures
            result.wf(),
            result.spec_build() == (Property { indexed: if indexed { Some(true) } else { None }, ..self.spec_build() }),
    {
        PropertyBuilder { indexed, ..self }
    }

    /// Set default value.
    pub fn default(self, value: serde_json::Value) -> (result: PropertyBuilder)
        requires
            self.wf(),
        ensures
            result.wf(),
            result.spec_build() == (Property { default: Some(value), ..self.spec_build() }),
    {
        PropertyBuilder { default: Some(value), ..self }
    }

    /// Set computed expression.
    pub fn computed(self, language: &str, expression: &str) -> (result: PropertyBuilder)
        requires
            self.wf(),
        ensures
            result.wf(),
            result.spec_build().computed matches Some(c) && c.language@ == language@ && c.expression@
                == expression@,
            result.spec_build() == (Property { computed: result.spec_build().computed, ..self.spec_build() }),
    {
        PropertyBuilder {
            computed: Some(Computed { language: language.to_owned(), expression: expression.to_owned() }),
            ..self
        }
    }

    /// Set source column mapping.
    pub fn source_column(self, column: &str) -> (result: PropertyBuilder)
        requires
            self.wf(),
        ensures
            result.wf(),
            result.spec_build().source_column matches Some(c) && c@ == column@,
            result.spec_build() == (Property { source_column: result.spec_build().source_column, ..self.spec_build() }),
    {
        PropertyBuilder { source_column: some_text(column), ..self }
    }

    /// Set allowed enum values.
    pub fn allowed_values(self, values: Vec<serde_json::Value>) -> (result: PropertyBuilder)
        requires
            self.wf(),
        ensures
            result.wf(),
            result.spec_build() == (Property { allowed_values: Some(values), ..self.spec_build() }),
    {
        PropertyBuilder { allowed_values: Some(values), ..self }
    }

    /// Set sort order hint.
    pub fn sort_order(self, order: &str) -> (result: PropertyBuilder)
        requires
            self.wf(),
        ensures
            result.wf(),
            result.spec_build().sort_order matches Some(o) && o@ == order@,
            result.spec_build() == (Property { sort_order: result.spec_build().sort_order, ..self.spec_build() }),
    {
        PropertyBuilder { sort_order: some_text(order), ..self }
    }

    /// Add a tag.
    pub fn tag(self, tag: &str) -> (result: PropertyBuilder)
        requires
            self.wf(),
        ensures
            result.wf(),
            pushed(result.spec_build().tags@, self.spec_build().tags@, tag@),
            result.spec_build() == (Property { tags: result.spec_build().tags, ..self.spec_build() }),
    {
        let ghost before = self.tags@;
        let mut tags = self.tags;
        tags.push(tag.to_owned());
        assert(tags@.drop_last() =~= before);
        PropertyBuilder { tags, ..self }
    }

    /// Add a marking.
    pub fn marking(self, marking: &str) -> (result: PropertyBuilder)
        requires
            self.wf(),
        ensures
            result.wf(),
            pushed(result.spec_build().markings@, self.spec_build().markings@, marking@),
            result.spec_build() == (Property { markings: result.spec_build().markings, ..self.spec_build() }),
    {
        let ghost before = self.markings@;
        let mut markings = self.markings;
        markings.push(marking.to_owned());
        assert(markings@.drop_last() =~= before);
        PropertyBuilder { markings, ..self }
    }

    /// Mark as encrypted at rest or not.
    pub fn encrypted(self, encrypted: bool) -> (result: PropertyBuilder)
        requires
            self.wf(),
        ensures
            result.wf(),
            result.spec_build() == (Property { encrypted: Some(encrypted), ..self.spec_build() }),
    {
        PropertyBuilder { encrypted: Some(encrypted), ..self }
    }

    /// Add a quality rule reference.
    pub fn quality(self, api_name: &str, kind: &str) -> (result: PropertyBuilder)
        requires
            self.wf(),
        ensures
            result.wf(),
            result.spec_build().quality@.len() == self.spec_build().quality@.len() + 1,
            result.spec_build().quality@.drop_last() == self.spec_build().quality@,
            result.spec_build().quality@.last().api_name@ == api_name@,
            result.spec_build().quality@.last().kind@ == kind@,
            result.spec_build().quality@.last().args is None,
            result.spec_build() == (Property { quality: result.spec_build().quality, ..self.spec_build() }),
    {
        let ghost before = self.quality@;
        let mut quality = self.quality;
        quality.push(QualityRuleRef { api_name: ApiName::new_unchecked(api_name), kind: kind.to_owned(), args: None });
        assert(quality@.drop_last() =~= before);
        PropertyBuilder { quality, ..self }
    }

    /// Set a metadata key/value.
    pub fn metadata(self, key: &str, value: serde_json::Value) -> (result: PropertyBuilder)
        requires
            self.wf(),
        ensures
            result.wf(),
            result.spec_build().metadata is Some,
            entries_of(result.spec_build().metadata) == entries_of(self.spec_build().metadata).insert(key@, value),
            result.spec_build() == (Property { metadata: result.spec_build().metadata, ..self.spec_build() }),
    {
        let metadata = insert_into(self.metadata, key, value);
        PropertyBuilder { metadata, ..self }
    }

    /// Build the [`Property`].
    pub fn build(self) -> (result: Property)
        ensures
            result == self.spec_build(),
    {
        Property {
            api_name: self.api_name,
            display: self.display,
            description: self.description,
            data_type: self.data_type,
            nullable: if self.required { Some(false) } else { None },
            unique: if self.unique { Some(true) } else { None },
            indexed: if self.indexed { Some(true) } else { None },
            default: self.default,
            computed: self.computed,
            source_column: self.source_column,
            allowed_values: self.allowed_values,
            sort_order: self.sort_order,
            tags: self.tags,
            markings: self.markings,
            encrypted: self.encrypted,
            quality: self.quality,
            metadata: self.metadata,
        }
    }
}

} // verus!
