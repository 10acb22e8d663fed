use tesela::interceptors::{Interceptor, InterceptorChain};
use tesela::ir::Operation;
use tesela::primitives::{ApiName, Error, StringMap};
use tesela::runtime::InterceptorOp;

enum Step {
    Tag(&'static str),
    Refuse,
}

impl Interceptor for Step {
    fn intercept(
        &self,
        _op: InterceptorOp,
        _operation: Operation,
        _object_type: &ApiName,
        context: &mut StringMap<serde_json::Value>,
    ) -> Result<(), Error> {
        match self {
            Step::Tag(name) => {
                let seen = context.len();
                context.insert(name.to_string(), serde_json::Value::from(seen as i64));
                Ok(())
            }
            Step::Refuse => Err(Error::PolicyDenied { message: "refused".to_string() }),
        }
    }
}

#[test]
fn empty_chain_leaves_context_alone() {
    let chain: InterceptorChain<Step> = InterceptorChain::new();
    let mut ctx = StringMap::new();
    chain.run(InterceptorOp::Before, Operation::Read, &ApiName::new_unchecked("users"), &mut ctx).unwrap();
    assert_eq!(ctx.len(), 0);
}

#[test]
fn interceptors_run_in_order() {
    let mut chain = InterceptorChain::new();
    chain.add(Step::Tag("first"));
    chain.add(Step::Tag("second"));
    let mut ctx = StringMap::new();
    chain.run(InterceptorOp::After, Operation::Read, &ApiName::new_unchecked("users"), &mut ctx).unwrap();
    assert_eq!(ctx.get("first"), Some(&serde_json::Value::from(0)));
    assert_eq!(ctx.get("second"), Some(&serde_json::Value::from(1)));
}

#[test]
fn first_refusal_stops_the_chain() {
    let mut chain = InterceptorChain::new();
    chain.add(Step::Tag("first"));
    chain.add(Step::Refuse);
    chain.add(Step::Tag("never"));
    let mut ctx = StringMap::new();
    let err = chain.run(InterceptorOp::Before, Operation::Read, &ApiName::new_unchecked("users"), &mut ctx).unwrap_err();
    assert!(matches!(err, Error::PolicyDenied { .. }));
    assert!(ctx.get("first").is_some());
    assert!(ctx.get("never").is_none());
}
