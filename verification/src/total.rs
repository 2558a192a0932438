//! Sums over finite sets and maps.

use vstd::prelude::*;
use vstd::set::{fold::is_fun_commutative, fold::lemma_fold_empty, fold::lemma_fold_insert};

verus! {

/// The sum of `weight` over the members of a finite set.
pub open spec fn sum_over<K>(keys: Set<K>, weight: spec_fn(K) -> nat) -> nat {
    keys.fold(0nat, |sum: nat, key: K| sum + weight(key))
}

/// The sum of `weight` over the entries of a finite map.
pub open spec fn total<K, V>(m: Map<K, V>, weight: spec_fn(K, V) -> nat) -> nat {
    sum_over(m.dom(), |key: K| weight(key, m[key]))
}

/// The sum over no members is zero.
pub proof fn lemma_sum_empty<K>(weight: spec_fn(K) -> nat)
    ensures
        sum_over(Set::<K>::empty(), weight) == 0,
{
    lemma_fold_empty(0nat, |sum: nat, key: K| sum + weight(key));
}

/// A new member adds its weight to the sum.
pub proof fn lemma_sum_insert<K>(keys: Set<K>, weight: spec_fn(K) -> nat, key: K)
    requires
        keys.finite(),
        !keys.contains(key),
    ensures
        sum_over(keys.insert(key), weight) == sum_over(keys, weight) + weight(key),
{
    let f = |sum: nat, key: K| sum + weight(key);
    assert(is_fun_commutative(f));
    lemma_fold_insert(keys, 0nat, f, key);
}

/// A member's weight is part of the sum.
pub proof fn lemma_sum_remove<K>(keys: Set<K>, weight: spec_fn(K) -> nat, key: K)
    requires
        keys.finite(),
        keys.contains(key),
    ensures
        sum_over(keys, weight) == sum_over(keys.remove(key), weight) + weight(key),
{
    lemma_sum_insert(keys.remove(key), weight, key);
    assert(keys.remove(key).insert(key) =~= keys);
}

/// Weights that agree on every member give the same sum.
pub proof fn lemma_sum_agree<K>(keys: Set<K>, w1: spec_fn(K) -> nat, w2: spec_fn(K) -> nat)
    requires
        keys.finite(),
        forall|key: K| keys.contains(key) ==> #[trigger] w1(key) == w2(key),
    ensures
        sum_over(keys, w1) == sum_over(keys, w2),
    decreases keys.len(),
{
    if keys.len() == 0 {
        assert(keys =~= Set::<K>::empty());
        lemma_sum_empty(w1);
        lemma_sum_empty(w2);
    } else {
        let key = keys.choose();
        lemma_sum_agree(keys.remove(key), w1, w2);
        lemma_sum_remove(keys, w1, key);
        lemma_sum_remove(keys, w2, key);
    }
}

/// Where every member weighs nothing, so does the set.
pub proof fn lemma_sum_zero<K>(keys: Set<K>, weight: spec_fn(K) -> nat)
    requires
        keys.finite(),
        forall|key: K| keys.contains(key) ==> #[trigger] weight(key) == 0,
    ensures
        sum_over(keys, weight) == 0,
    decreases keys.len(),
{
    if keys.len() == 0 {
        assert(keys =~= Set::<K>::empty());
        lemma_sum_empty(weight);
    } else {
        let key = keys.choose();
        lemma_sum_zero(keys.remove(key), weight);
        lemma_sum_remove(keys, weight, key);
    }
}

/// The total of the empty map is zero.
pub proof fn lemma_total_empty<K, V>(weight: spec_fn(K, V) -> nat)
    ensures
        total(Map::<K, V>::empty(), weight) == 0,
{
    let m = Map::<K, V>::empty();
    assert(m.dom() =~= Set::<K>::empty());
    lemma_sum_empty(|key: K| weight(key, m[key]));
}

/// An entry's weight is part of the total.
pub proof fn lemma_total_remove<K, V>(m: Map<K, V>, weight: spec_fn(K, V) -> nat, key: K)
    requires
        m.dom().finite(),
        m.contains_key(key),
    ensures
        total(m, weight) == total(m.remove(key), weight) + weight(key, m[key]),
{
    let rest = m.remove(key);
    let w = |k: K| weight(k, m[k]);
    let w_rest = |k: K| weight(k, rest[k]);
    lemma_sum_remove(m.dom(), w, key);
    assert(rest.dom() =~= m.dom().remove(key));
    assert forall|k: K| rest.dom().contains(k) implies #[trigger] w(k) == w_rest(k) by {}
    lemma_sum_agree(rest.dom(), w, w_rest);
}

/// Writing an entry replaces the weight that its key had, if any, by the
/// weight of the new value.
pub proof fn lemma_total_insert<K, V>(m: Map<K, V>, weight: spec_fn(K, V) -> nat, key: K, value: V)
    requires
        m.dom().finite(),
    ensures
        total(m.insert(key, value), weight) + (if m.contains_key(key) {
            weight(key, m[key])
        } else {
            0
        }) == total(m, weight) + weight(key, value),
{
    let after = m.insert(key, value);
    lemma_total_remove(after, weight, key);
    if m.contains_key(key) {
        lemma_total_remove(m, weight, key);
        assert(after.remove(key) =~= m.remove(key));
    } else {
        assert(after.remove(key) =~= m);
    }
}

/// Where every entry weighs nothing, so does the map.
pub proof fn lemma_total_zero<K, V>(m: Map<K, V>, weight: spec_fn(K, V) -> nat)
    requires
        m.dom().finite(),
        forall|key: K| m.contains_key(key) ==> #[trigger] weight(key, m[key]) == 0,
    ensures
        total(m, weight) == 0,
{
    let w = |k: K| weight(k, m[k]);
    assert forall|k: K| m.dom().contains(k) implies #[trigger] w(k) == 0 by {
        assert(weight(k, m[k]) == 0);
    }
    lemma_sum_zero(m.dom(), w);
}

} // verus!
