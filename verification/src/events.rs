//! Fan-out of events to subscriptions: which subscriptions an event
//! reaches, and how subscriptions found dead during a publish are pruned.

use vstd::prelude::*;
use crate::primitives::{str_eq, ApiName};

verus! {

broadcast use {vstd::seq_lib::group_to_multiset_ensures, vstd::multiset::group_multiset_axioms};

/// Whether an event about `object_type` reaches a subscription filtered by
/// `filter`: an unfiltered subscription gets every event, a filtered one
/// only events about that object type.
pub open spec fn reaches(filter: Option<Seq<char>>, object_type: Option<Seq<char>>) -> bool {
    match filter {
        None => true,
        Some(f) => object_type == Some(f),
    }
}

/// Whether an event about `object_type` reaches a subscription filtered by
/// `filter`.
pub fn subscription_matches(filter: Option<&ApiName>, object_type: Option<&str>) -> (result: bool)
    ensures
        result == reaches(
            match filter {
                Some(f) => Some(f@),
                None => None,
            },
            match object_type {
                Some(o) => Some(o@),
                None => None,
            },
        ),
{
    match filter {
        None => true,
        Some(f) => match object_type {
            Some(o) => str_eq(o, f.as_str()),
            None => false,
        },
    }
}

/// Whether `dead` lists positions in increasing order.
pub open spec fn strictly_increasing(dead: Seq<usize>) -> bool {
    forall|a: int, b: int| 0 <= a < b < dead.len() ==> dead[a] < dead[b]
}

/// The elements of `items` at the positions `dead[from..]`.
pub open spec fn at_positions<T>(items: Seq<T>, dead: Seq<usize>, from: int) -> Seq<T> {
    dead.subrange(from, dead.len() as int).map_values(|d: usize| items[d as int])
}

/// Remove the elements at the positions `dead`, listed in increasing
/// order, by swapping each with the last element from the highest position
/// down. What is removed is exactly the elements at those positions; the
/// others stay, in some order.
pub fn prune_dead<T>(items: &mut Vec<T>, dead: Vec<usize>)
    requires
        strictly_increasing(dead@),
        forall|j: int| 0 <= j < dead@.len() ==> #[trigger] dead@[j] < old(items)@.len(),
    ensures
        final(items)@.len() == old(items)@.len() - dead@.len(),
        final(items)@.to_multiset().add(at_positions(old(items)@, dead@, 0).to_multiset()) == old(items)@.to_multiset(),
{
    let ghost orig = items@;
    let ghost all = dead@;
    proof {
        if all.len() > 0 {
            assert(all.len() <= orig.len()) by {
                lemma_increasing_bound(all, orig.len() as int);
            }
        }
        assert(at_positions(orig, all, all.len() as int) =~= Seq::<T>::empty());
        assert(items@.to_multiset().add(Seq::<T>::empty().to_multiset()) =~= orig.to_multiset());
    }
    let mut k: usize = dead.len();
    while k > 0
        invariant
            k <= all.len(),
            all == dead@,
            strictly_increasing(all),
            items@.len() + (all.len() - k) == orig.len(),
            forall|j: int| 0 <= j < k ==> #[trigger] all[j] < items@.len() && items@[all[j] as int] == orig[all[j] as int],
            items@.to_multiset().add(at_positions(orig, all, k as int).to_multiset()) == orig.to_multiset(),
        decreases k,
    {
        let i = dead[k - 1];
        let ghost before = items@;
        let ghost e = before[i as int];
        items.swap_remove(i);
        proof {
            let u = before.update(i as int, before.last());
            assert(items@ == u.drop_last());
            assert(u.drop_last() =~= u.remove(u.len() - 1));
            assert(u[u.len() - 1] == before.last());
            assert(items@.to_multiset() =~= before.to_multiset().insert(before.last()).remove(e).remove(before.last()));
            assert(before.to_multiset().count(e) > 0) by {
                assert(before.contains(e)) by {
                    assert(before[i as int] == e);
                }
            }
            assert(at_positions(orig, all, k - 1) =~= seq![orig[i as int]] + at_positions(orig, all, k as int));
            assert(e == orig[i as int]);
            assert((seq![e] + at_positions(orig, all, k as int)).to_multiset() =~= at_positions(orig, all, k as int).to_multiset().insert(e)) by {
                let rest = at_positions(orig, all, k as int);
                assert(seq![e] + rest =~= rest.insert(0, e));
            }
            assert(items@.to_multiset().add(at_positions(orig, all, k - 1).to_multiset()) =~= orig.to_multiset());
            assert forall|j: int| 0 <= j < k - 1 implies #[trigger] all[j] < items@.len() && items@[all[j] as int]
                == orig[all[j] as int] by {
                assert(all[j] < all[k - 1]);
                assert(items@[all[j] as int] == before[all[j] as int]);
            }
        }
        k = k - 1;
    }
}

/// Strictly increasing positions below `bound` number at most `bound`.
proof fn lemma_increasing_bound(dead: Seq<usize>, bound: int)
    requires
        0 <= bound,
        strictly_increasing(dead),
        forall|j: int| 0 <= j < dead.len() ==> #[trigger] dead[j] < bound,
    ensures
        dead.len() <= bound,
    decreases dead.len(),
{
    if dead.len() > 0 {
        let last = dead.last();
        let rest = dead.drop_last();
        assert forall|j: int| 0 <= j < rest.len() implies #[trigger] rest[j] < last by {
            assert(dead[j] < dead[dead.len() - 1]);
        }
        lemma_increasing_bound(rest, last as int);
    }
}

} // verus!
