//! Secret resolution: static maps, prefix-stripping environment lookups and
//! chains that try several resolvers in order.

use vstd::prelude::*;
use crate::primitives::{Error, StringMap};
use crate::text::{chars_of, string_of};

verus! {

/// Resolves a secret reference to its value.
pub trait SecretResolver {
    /// Resolve `secret_ref`.
    fn resolve(&self, secret_ref: &str) -> Result<String, Error>;
}

/// The error for a secret reference that nothing resolves.
pub open spec fn is_secret_not_found(e: Error, secret_ref: Seq<char>) -> bool {
    e matches Error::NotFound { kind, key } && kind@ == "secret"@ && key@ == secret_ref
}

/// Resolves secrets from a pre-populated in-memory map.
pub struct StaticSecretResolver {
    secrets: StringMap<String>,
}

impl StaticSecretResolver {
    /// The secrets held.
    pub closed spec fn spec_secrets(&self) -> Map<Seq<char>, String> {
        self.secrets.as_map()
    }

    #[verifier::type_invariant]
    closed spec fn inv(&self) -> bool {
        self.secrets.wf()
    }

    /// Create a resolver from a map of reference to value.
    pub fn new(secrets: StringMap<String>) -> (result: StaticSecretResolver)
        requires
            secrets.wf(),
        ensures
            result.spec_secrets() == secrets.as_map(),
    {
        StaticSecretResolver { secrets }
    }

    /// The value held for `secret_ref`, or a not-found error.
    pub fn lookup(&self, secret_ref: &str) -> (result: Result<String, Error>)
        ensures
            match result {
                Ok(v) => self.spec_secrets().contains_key(secret_ref@) && v@ == self.spec_secrets()[secret_ref@]@,
                Err(e) => !self.spec_secrets().contains_key(secret_ref@) && is_secret_not_found(e, secret_ref@),
            },
    {
        proof {
            use_type_invariant(self);
        }
        match self.secrets.get(secret_ref) {
            Some(v) => Ok(v.clone()),
            None => Err(Error::NotFound { kind: "secret".to_owned(), key: secret_ref.to_owned() }),
        }
    }
}

impl SecretResolver for StaticSecretResolver {
    fn resolve(&self, secret_ref: &str) -> (result: Result<String, Error>)
        ensures
            match result {
                Ok(v) => self.spec_secrets().contains_key(secret_ref@) && v@ == self.spec_secrets()[secret_ref@]@,
                Err(e) => !self.spec_secrets().contains_key(secret_ref@) && is_secret_not_found(e, secret_ref@),
            },
    {
        self.lookup(secret_ref)
    }
}

/// What a chain of resolvers does after one answer.
pub enum ChainStep {
    /// Stop with this result.
    Done(Result<String, Error>),
    /// Try the next resolver, remembering this error as the last one.
    Continue(Error),
}

/// The chain's reaction to one resolver's `outcome`: a value ends the
/// chain, a not-found error moves on to the next resolver, any other error
/// ends the chain.
pub open spec fn chain_reaction(outcome: Result<String, Error>) -> ChainStep {
    match outcome {
        Ok(v) => ChainStep::Done(Ok(v)),
        Err(e) => if e is NotFound {
            ChainStep::Continue(e)
        } else {
            ChainStep::Done(Err(e))
        },
    }
}

/// The chain's reaction to one resolver's answer.
pub fn chain_step(outcome: Result<String, Error>) -> (result: ChainStep)
    ensures
        result == chain_reaction(outcome),
{
    match outcome {
        Ok(v) => ChainStep::Done(Ok(v)),
        Err(e) => match e {
            Error::NotFound { .. } => ChainStep::Continue(e),
            _ => ChainStep::Done(Err(e)),
        },
    }
}

/// Tries resolvers in order and returns the first value; not-found errors
/// move on, other errors stop the chain; when all fail with not-found the
/// last error is returned.
pub struct ChainSecretResolver<R> {
    resolvers: Vec<R>,
}

impl<R: SecretResolver> ChainSecretResolver<R> {
    /// The resolvers, in order.
    pub closed spec fn spec_resolvers(&self) -> Seq<R> {
        self.resolvers@
    }

    /// Create a chain from an ordered list of delegates.
    pub fn new(resolvers: Vec<R>) -> (result: ChainSecretResolver<R>)
        ensures
            result.spec_resolvers() == resolvers@,
    {
        ChainSecretResolver { resolvers }
    }

    /// Resolve `secret_ref` through the chain. With no resolvers the result
    /// is the not-found error for `secret_ref`.
    pub fn resolve_chain(&self, secret_ref: &str) -> (result: Result<String, Error>)
        ensures
            self.spec_resolvers().len() == 0 ==> (result matches Err(e) && is_secret_not_found(e, secret_ref@)),
            result matches Err(e) ==> (e is NotFound || self.spec_resolvers().len() > 0),
    {
        let mut last = Error::NotFound { kind: "secret".to_owned(), key: secret_ref.to_owned() };
        let mut i: usize = 0;
        while i < self.resolvers.len()
            invariant
                i <= self.resolvers@.len(),
                last is NotFound,
                i == 0 ==> is_secret_not_found(last, secret_ref@),
            decreases self.resolvers@.len() - i,
        {
            match chain_step(self.resolvers[i].resolve(secret_ref)) {
                ChainStep::Done(result) => {
                    return result;
                },
                ChainStep::Continue(e) => {
                    last = e;
                },
            }
            i = i + 1;
        }
        Err(last)
    }
}

impl<R: SecretResolver> SecretResolver for ChainSecretResolver<R> {
    fn resolve(&self, secret_ref: &str) -> (result: Result<String, Error>)
        ensures
            self.spec_resolvers().len() == 0 ==> (result matches Err(e) && is_secret_not_found(e, secret_ref@)),
            result matches Err(e) ==> (e is NotFound || self.spec_resolvers().len() > 0),
    {
        self.resolve_chain(secret_ref)
    }
}

/// The environment variable looked up for `secret_ref`: the reference with
/// `prefix` stripped when it starts with it.
pub open spec fn env_key(prefix: Option<Seq<char>>, secret_ref: Seq<char>) -> Seq<char> {
    match prefix {
        Some(p) => if p.is_prefix_of(secret_ref) {
            secret_ref.skip(p.len() as int)
        } else {
            secret_ref
        },
        None => secret_ref,
    }
}

/// Resolves secrets from environment variables, optionally stripping a
/// prefix from the reference first. The lookup itself is done by the
/// caller, which owns the process environment.
pub struct EnvSecretResolver {
    prefix: Option<String>,
}

impl EnvSecretResolver {
    /// The prefix stripped from references.
    pub closed spec fn spec_prefix(&self) -> Option<Seq<char>> {
        match self.prefix {
            Some(p) => Some(p@),
            None => None,
        }
    }

    /// Create a resolver with no prefix stripping.
    pub fn new() -> (result: EnvSecretResolver)
        ensures
            result.spec_prefix() is None,
    {
        EnvSecretResolver { prefix: None }
    }

    /// Create a resolver that strips `prefix` before the lookup.
    pub fn with_prefix(prefix: &str) -> (result: EnvSecretResolver)
        ensures
            result.spec_prefix() == Some(prefix@),
    {
        EnvSecretResolver { prefix: Some(prefix.to_owned()) }
    }

    /// The environment variable to read for `secret_ref`.
    pub fn key_for(&self, secret_ref: &str) -> (result: String)
        ensures
            result@ == env_key(self.spec_prefix(), secret_ref@),
    {
        match &self.prefix {
            None => secret_ref.to_owned(),
            Some(p) => {
                let r = chars_of(secret_ref);
                let q = chars_of(p.as_str());
                if q.len() > r.len() {
                    return secret_ref.to_owned();
                }
                let mut i: usize = 0;
                while i < q.len()
                    invariant
                        r@ == secret_ref@,
                        q@ == p@,
                        self.spec_prefix() == Some(p@),
                        q@.len() <= r@.len(),
                        i <= q@.len(),
                        forall|j: int| 0 <= j < i ==> q@[j] == r@[j],
                    decreases q@.len() - i,
                {
                    if q[i] != r[i] {
                        assert(r@.subrange(0, q@.len() as int)[i as int] != q@[i as int]);
                        return secret_ref.to_owned();
                    }
                    i = i + 1;
                }
                assert(q@.is_prefix_of(r@));
                let rest = string_of(vstd::slice::slice_subrange(r.as_slice(), q.len(), r.len()));
                assert(rest@ =~= r@.skip(q@.len() as int));
                rest
            },
        }
    }
}

/// The error for an environment variable that is not set.
pub fn env_not_found(key: &str) -> (result: Error)
    ensures
        result matches Error::NotFound { kind, key: k } && kind@ == "environment variable"@ && k@ == key@,
{
    Error::NotFound { kind: "environment variable".to_owned(), key: key.to_owned() }
}

} // verus!
