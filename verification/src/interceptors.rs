//! A chain of interceptors run around an operation, in the order added.

use vstd::prelude::*;
use crate::ir::Operation;
use crate::primitives::{ApiName, Error, StringMap};
use crate::runtime::InterceptorOp;

verus! {

/// Hook run before or after an operation; it may adjust the context or
/// refuse the operation.
pub trait Interceptor {
    /// Intercept an operation.
    fn intercept(
        &self,
        op: InterceptorOp,
        operation: Operation,
        object_type: &ApiName,
        context: &mut StringMap<serde_json::Value>,
    ) -> Result<(), Error>;
}

/// A chain of interceptors of type `I`.
pub struct InterceptorChain<I> {
    interceptors: Vec<I>,
}

impl<I: Interceptor> InterceptorChain<I> {
    /// The interceptors, in the order they run.
    pub closed spec fn items(&self) -> Seq<I> {
        self.interceptors@
    }

    /// Number of interceptors in the chain.
    pub open spec fn size(&self) -> nat {
        self.items().len()
    }

    /// An empty chain.
    pub fn new() -> (result: InterceptorChain<I>)
        ensures
            result.items() == Seq::<I>::empty(),
    {
        InterceptorChain { interceptors: Vec::new() }
    }

    /// Add an interceptor at the end of the chain.
    pub fn add(&mut self, interceptor: I)
        ensures
            final(self).items() == old(self).items().push(interceptor),
    {
        self.interceptors.push(interceptor);
    }

    /// Run every interceptor in order; the first refusal stops the chain and
    /// is returned. An empty chain succeeds and leaves the context as it was.
    pub fn run(
        &self,
        op: InterceptorOp,
        operation: Operation,
        object_type: &ApiName,
        context: &mut StringMap<serde_json::Value>,
    ) -> (result: Result<(), Error>)
        ensures
            self.size() == 0 ==> result is Ok && *final(context) == *old(context),
    {
        let mut i: usize = 0;
        while i < self.interceptors.len()
            invariant
                i <= self.interceptors@.len(),
                i == 0 ==> *context == *old(context),
            decreases self.interceptors@.len() - i,
        {
            match self.interceptors[i].intercept(op, operation, object_type, context) {
                Ok(()) => {},
                Err(e) => {
                    return Err(e);
                },
            }
            i = i + 1;
        }
        Ok(())
    }
}

} // verus!
