use tesela::events::{prune_dead, subscription_matches};
use tesela::primitives::ApiName;

#[test]
fn unfiltered_subscriptions_get_everything() {
    assert!(subscription_matches(None, None));
    assert!(subscription_matches(None, Some("orders")));
}

#[test]
fn filtered_subscriptions_get_their_object_type_only() {
    let orders = ApiName::new_unchecked("orders");
    assert!(subscription_matches(Some(&orders), Some("orders")));
    assert!(!subscription_matches(Some(&orders), Some("users")));
    assert!(!subscription_matches(Some(&orders), None));
}

#[test]
fn pruning_removes_exactly_the_dead() {
    let mut subs = vec!["a", "b", "c", "d", "e"];
    prune_dead(&mut subs, vec![1, 3]);
    let mut left = subs.clone();
    left.sort();
    assert_eq!(left, vec!["a", "c", "e"]);
    // swap_remove from the highest position down: d is replaced by e, then b by the new last
    assert_eq!(subs, vec!["a", "e", "c"]);
}

#[test]
fn pruning_nothing_changes_nothing() {
    let mut subs = vec![1, 2, 3];
    prune_dead(&mut subs, Vec::new());
    assert_eq!(subs, vec![1, 2, 3]);
    let mut all = vec![1, 2];
    prune_dead(&mut all, vec![0, 1]);
    assert!(all.is_empty());
}
