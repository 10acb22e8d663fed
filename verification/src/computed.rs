//! Computed properties: each property that carries an expression gets its
//! value from an evaluator, written back into the record.

use vstd::prelude::*;
use crate::ir::Property;
use crate::primitives::{concat, ApiName, Error, ErrorView};
use crate::runtime::ComputedLang;
use crate::versioning::Record;

verus! {

/// What an evaluator sees of the record being computed.
pub struct RecordContext<'a> {
    /// The record so far.
    pub record: &'a Record,
    /// Its object type.
    pub object_type: &'a ApiName,
}

/// Evaluates the expressions of computed properties.
pub trait ComputedEvaluator {
    /// Evaluate one expression and return the computed value.
    fn evaluate(&self, lang: ComputedLang, expr: &str, ctx: &RecordContext) -> Result<serde_json::Value, Error>;
}

/// Names of the computed properties among `props`.
pub open spec fn computed_names(props: Seq<Property>) -> Set<Seq<char>> {
    Set::new(|n: Seq<char>| exists|i: int| 0 <= i < props.len() && #[trigger] props[i].api_name@ == n && props[i].computed is Some)
}

/// Whether some property of `props` is computed.
pub open spec fn has_computed(props: Seq<Property>) -> bool {
    exists|i: int| 0 <= i < props.len() && #[trigger] props[i].computed is Some
}

/// Index of the first computed property of `props`.
pub open spec fn first_computed(props: Seq<Property>) -> int
    decreases props.len(),
{
    if props.len() == 0 {
        0
    } else if props[0].computed is Some {
        0
    } else {
        1 + first_computed(props.drop_first())
    }
}

/// The error for a computed property met without an evaluator.
pub open spec fn missing_evaluator(name: Seq<char>) -> ErrorView {
    ErrorView::Unsupported("computed property '"@ + name + "' requires a computed evaluator"@)
}

/// The first computed property of `props` is at `first_computed(props)`.
pub proof fn lemma_first_computed(props: Seq<Property>)
    requires
        has_computed(props),
    ensures
        0 <= first_computed(props) < props.len(),
        props[first_computed(props)].computed is Some,
        forall|j: int| 0 <= j < first_computed(props) ==> #[trigger] props[j].computed is None,
    decreases props.len(),
{
    if props[0].computed is None {
        let i = choose|i: int| 0 <= i < props.len() && #[trigger] props[i].computed is Some;
        assert(props.drop_first()[i - 1].computed is Some);
        lemma_first_computed(props.drop_first());
        assert forall|j: int| 0 <= j < first_computed(props) implies #[trigger] props[j].computed is None by {
            if j > 0 {
                assert(props[j] == props.drop_first()[j - 1]);
            }
        }
    }
}

/// Write the evaluator's `outcome` for the property `name`: its value on
/// success, the record untouched and the error handed back on failure.
pub fn store_computed(record: &mut Record, name: &ApiName, outcome: Result<serde_json::Value, Error>) -> (result: Result<(), Error>)
    requires
        old(record).values.wf(),
    ensures
        final(record).values.wf(),
        final(record).primary_key == old(record).primary_key,
        match outcome {
            Ok(v) => result is Ok && final(record).values.as_map() == old(record).values.as_map().insert(name@, v),
            Err(e) => result == Err::<(), Error>(e) && final(record).values.as_map() == old(record).values.as_map(),
        },
{
    match outcome {
        Ok(v) => {
            record.values.insert(name.as_str().to_owned(), v);
            Ok(())
        },
        Err(e) => Err(e),
    }
}

/// Materialise the computed properties of `record`, an instance of
/// `object_type` with `properties`, in place.
///
/// Without computed properties nothing changes and nothing fails. With
/// them, an evaluator is required: without one the first computed property
/// is reported as unsupported. With one, each computed property in turn gets
/// the value the evaluator returns for its expression, and the first error
/// of the evaluator stops the walk. Other values are never touched.
#[verifier::spinoff_prover]
pub fn materialize_computed(
    record: &mut Record,
    object_type: &ApiName,
    properties: &Vec<Property>,
    evaluator: Option<&dyn ComputedEvaluator>,
) -> (result: Result<(), Error>)
    requires
        old(record).values.wf(),
    ensures
        final(record).values.wf(),
        final(record).primary_key == old(record).primary_key,
        forall|k: Seq<char>| !computed_names(properties@).contains(k) ==> (#[trigger] final(record).values.as_map().contains_key(k)
            == old(record).values.as_map().contains_key(k) && final(record).values.as_map()[k] == old(record).values.as_map()[k]),
        !has_computed(properties@) ==> result is Ok && final(record).values.as_map() == old(record).values.as_map(),
        has_computed(properties@) && evaluator is None ==> {
            &&& result matches Err(e) && e@ == missing_evaluator(properties@[first_computed(properties@)].api_name@)
            &&& final(record).values.as_map() == old(record).values.as_map()
        },
        result is Ok ==> forall|k: Seq<char>| computed_names(properties@).contains(k) ==> #[trigger] final(record).values.as_map().contains_key(k),
{
    let ghost props = properties@;
    let ghost before = record.values.as_map();
    let mut i: usize = 0;
    while i < properties.len()
        invariant
            i <= props.len(),
            props == properties@,
            record.values.wf(),
            record.primary_key == old(record).primary_key,
            before == old(record).values.as_map(),
            forall|k: Seq<char>| !computed_names(props).contains(k) ==> (#[trigger] record.values.as_map().contains_key(k)
                == before.contains_key(k) && record.values.as_map()[k] == before[k]),
            evaluator is None ==> record.values.as_map() == before,
            evaluator is None ==> forall|j: int| 0 <= j < i ==> #[trigger] props[j].computed is None,
            forall|k: Seq<char>| computed_names(props.take(i as int)).contains(k) ==> #[trigger] record.values.as_map().contains_key(k),
            !has_computed(props.take(i as int)) ==> record.values.as_map() == before,
        decreases props.len() - i,
    {
        let prop = &properties[i];
        let ghost taken = props.take(i as int);
        let ghost next = props.take(i + 1);
        proof {
            assert(next.drop_last() =~= taken);
            assert(next.last() == props[i as int]);
        }
        match &prop.computed {
            None => {
                proof {
                    assert forall|k: Seq<char>| computed_names(next).contains(k) implies computed_names(taken).contains(k) by {
                        let j = choose|j: int| 0 <= j < next.len() && #[trigger] next[j].api_name@ == k && next[j].computed is Some;
                        assert(j < i);
                        assert(taken[j] == next[j]);
                    }
                    if has_computed(next) {
                        let j = choose|j: int| 0 <= j < next.len() && #[trigger] next[j].computed is Some;
                        assert(taken[j] == next[j]);
                    }
                }
            },
            Some(computed) => {
                let eval = match evaluator {
                    Some(e) => e,
                    None => {
                        let mut message = concat("computed property '", prop.api_name.as_str());
                        message.append("' requires a computed evaluator");
                        proof {
                            assert(has_computed(props));
                            lemma_first_computed(props);
                            let f = first_computed(props);
                            if f < i {
                                assert(props[f].computed is None);
                            }
                            if f > i {
                                assert(props[i as int].computed is None);
                            }
                        }
                        return Err(Error::Unsupported { message });
                    },
                };
                let lang = ComputedLang::from_spec_str(computed.language.as_str());
                let outcome = {
                    let ctx = RecordContext { record: &*record, object_type };
                    eval.evaluate(lang, computed.expression.as_str(), &ctx)
                };
                let ghost mid = record.values.as_map();
                let stored = store_computed(record, &prop.api_name, outcome);
                match stored {
                    Ok(()) => {},
                    Err(e) => {
                        proof {
                            assert(props[i as int].computed is Some);
                            assert(record.values.as_map() == mid);
                            assert forall|k: Seq<char>| !computed_names(props).contains(k) implies (#[trigger] record.values.as_map().contains_key(k)
                                == before.contains_key(k) && record.values.as_map()[k] == before[k]) by {
                                assert(mid.contains_key(k) == before.contains_key(k));
                            }
                        }
                        return Err(e);
                    },
                }
                proof {
                    assert(computed_names(props).contains(prop.api_name@)) by {
                        assert(props[i as int].api_name@ == prop.api_name@);
                    }
                    assert forall|k: Seq<char>| computed_names(next).contains(k) implies #[trigger] record.values.as_map().contains_key(k) by {
                        if k != prop.api_name@ {
                            let j = choose|j: int| 0 <= j < next.len() && #[trigger] next[j].api_name@ == k && next[j].computed is Some;
                            assert(j < i);
                            assert(taken[j] == next[j]);
                            assert(computed_names(taken).contains(k));
                        }
                    }
                    assert(has_computed(next)) by {
                        assert(next[i as int].computed is Some);
                    }
                }
            },
        }
        i = i + 1;
    }
    proof {
        assert(props.take(props.len() as int) =~= props);
        assert forall|k: Seq<char>| !computed_names(properties@).contains(k) implies (#[trigger] record.values.as_map().contains_key(k)
            == old(record).values.as_map().contains_key(k) && record.values.as_map()[k] == old(record).values.as_map()[k]) by {
            assert(!computed_names(props).contains(k));
            assert(record.values.as_map().contains_key(k) == before.contains_key(k));
            assert(before == old(record).values.as_map());
        }
    }
    Ok(())
}

} // verus!
