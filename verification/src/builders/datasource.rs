//! Builder for datasource definitions.

use vstd::prelude::*;
use crate::ir::Datasource;
use crate::primitives::{entries_of, insert_into, opt_wf, ApiName, StringMap};

verus! {

/// Builder for [`Datasource`].
pub struct DatasourceBuilder {
    api_name: ApiName,
    adapter_type: String,
    config: Option<StringMap<serde_json::Value>>,
    secrets: Option<StringMap<serde_json::Value>>,
}

impl DatasourceBuilder {
    /// The datasource this builder would build now.
    pub closed spec fn spec_build(&self) -> Datasource {
        Datasource {
            api_name: self.api_name,
            adapter_type: self.adapter_type,
            config: self.config,
            secrets: self.secrets,
        }
    }

    /// The builder's maps hold each key once.
    pub open spec fn wf(&self) -> bool {
        &&& opt_wf(self.spec_build().config)
        &&& opt_wf(self.spec_build().secrets)
    }

    /// Create a new datasource builder.
    pub fn new(api_name: &str, adapter_type: &str) -> (result: DatasourceBuilder)
        ensures
            result.wf(),
            result.spec_build().api_name@ == api_name@,
            result.spec_build().adapter_type@ == adapter_type@,
            result.spec_build().config is None,
            result.spec_build().secrets is None,
    {
        DatasourceBuilder {
            api_name: ApiName::new_unchecked(api_name),
            adapter_type: adapter_type.to_owned(),
            config: None,
            secrets: None,
        }
    }

    /// Add a config key/value.
    pub fn config(self, key: &str, value: serde_json::Value) -> (result: DatasourceBuilder)
        requires
            self.wf(),
        ensures
            result.wf(),
            result.spec_build().config is Some,
            entries_of(result.spec_build().config) == entries_of(self.spec_build().config).insert(key@, value),
            result.spec_build() == (Datasource { config: result.spec_build().config, ..self.spec_build() }),
    {
        let config = insert_into(self.config, key, value);
        DatasourceBuilder { config, ..self }
    }

    /// Add a secret.
    pub fn secret(self, key: &str, value: serde_json::Value) -> (result: DatasourceBuilder)
        requires
            self.wf(),
        ensures
            result.wf(),
            result.spec_build().secrets is Some,
            entries_of(result.spec_build().secrets) == entries_of(self.spec_build().secrets).insert(key@, value),
            result.spec_build() == (Datasource { secrets: result.spec_build().secrets, ..self.spec_build() }),
    {
        let secrets = insert_into(self.secrets, key, value);
        DatasourceBuilder { secrets, ..self }
    }

    /// Build the [`Datasource`].
    pub fn build(self) -> (result: Datasource)
        ensures
            result == self.spec_build(),
    {
        Datasource {
            api_name: self.api_name,
            adapter_type: self.adapter_type,
            config: self.config,
            secrets: self.secrets,
        }
    }
}

} // verus!
