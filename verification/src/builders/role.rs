//! Builder for role definitions.

use vstd::prelude::*;
use crate::ir::Role;
use crate::primitives::{pushed, some_text, ApiName};

verus! {

/// Builder for [`Role`].
pub struct RoleBuilder {
    api_name: ApiName,
    display: Option<String>,
    description: Option<String>,
    inherits: Vec<ApiName>,
}

impl RoleBuilder {
    /// The role this builder would build now.
    pub closed spec fn spec_build(&self) -> Role {
        Role {
            api_name: self.api_name,
            display: self.display,
            description: self.description,
            inherits: self.inherits,
        }
    }

    /// Create a new role builder.
    pub fn new(api_name: &str) -> (result: RoleBuilder)
        ensures
            result.spec_build().api_name@ == api_name@,
            result.spec_build().display is None,
            result.spec_build().description is None,
            result.spec_build().inherits@.len() == 0,
    {
        RoleBuilder { api_name: ApiName::new_unchecked(api_name), display: None, description: None, inherits: Vec::new() }
    }

    /// Set display name.
    pub fn display(self, name: &str) -> (result: RoleBuilder)
        ensures
            result.spec_build().display matches Some(d) && d@ == name@,
            result.spec_build() == (Role { display: result.spec_build().display, ..self.spec_build() }),
    {
        RoleBuilder { display: some_text(name), ..self }
    }

    /// Set description.
    pub fn description(self, desc: &str) -> (result: RoleBuilder)
        ensures
            result.spec_build().description matches Some(d) && d@ == desc@,
            result.spec_build() == (Role { description: result.spec_build().description, ..self.spec_build() }),
    {
        RoleBuilder { description: some_text(desc), ..self }
    }

    /// Add an inherited role.
    pub fn inherits(self, role: &str) -> (result: RoleBuilder)
        ensures
            pushed(result.spec_build().inherits@, self.spec_build().inherits@, role@),
            result.spec_build() == (Role { inherits: result.spec_build().inherits, ..self.spec_build() }),
    {
        let ghost before = self.inherits@;
        let mut inherits = self.inherits;
        inherits.push(ApiName::new_unchecked(role));
        assert(inherits@.drop_last() =~= before);
        RoleBuilder { inherits, ..self }
    }

    /// Build the [`Role`].
    pub fn build(self) -> (result: Role)
        ensures
            result == self.spec_build(),
    {
        Role {
            api_name: self.api_name,
            display: self.display,
            description: self.description,
            inherits: self.inherits,
        }
    }
}

} // verus!
