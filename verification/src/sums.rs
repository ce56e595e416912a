//! Sums over the values of a finite map.

use vstd::prelude::*;

verus! {

/// The sum of `weight` over the values of a finite map.
pub open spec fn total<K, V>(m: Map<K, V>, weight: spec_fn(V) -> nat) -> nat
    decreases m.dom().len(),
    when m.dom().finite()
{
    if m.dom().len() == 0 {
        0
    } else {
        let k = m.dom().choose();
        weight(m[k]) + total(m.remove(k), weight)
    }
}

/// The sum over the empty map is zero.
pub proof fn lemma_total_empty<K, V>(weight: spec_fn(V) -> nat)
    ensures
        total(Map::<K, V>::empty(), weight) == 0,
{
}

/// Any key can be taken out of the sum first: the sum is the weight of its
/// value plus the sum over the rest.
pub proof fn lemma_total_remove<K, V>(m: Map<K, V>, weight: spec_fn(V) -> nat, k: K)
    requires
        m.dom().finite(),
        m.contains_key(k),
    ensures
        total(m, weight) == weight(m[k]) + total(m.remove(k), weight),
    decreases m.dom().len(),
{
    let c = m.dom().choose();
    if c != k {
        lemma_total_remove(m.remove(c), weight, k);
        lemma_total_remove(m.remove(k), weight, c);
        assert(m.remove(c).remove(k) =~= m.remove(k).remove(c));
    }
}

/// Writing `v` under `k` changes the sum by the weight of `v`, less the weight
/// of the value that `k` had before, if it had one.
pub proof fn lemma_total_insert<K, V>(m: Map<K, V>, weight: spec_fn(V) -> nat, k: K, v: V)
    requires
        m.dom().finite(),
    ensures
        total(m.insert(k, v), weight) + (if m.contains_key(k) {
            weight(m[k])
        } else {
            0
        }) == total(m, weight) + weight(v),
{
    lemma_total_remove(m.insert(k, v), weight, k);
    assert(m.insert(k, v).remove(k) =~= m.remove(k));
    if m.contains_key(k) {
        lemma_total_remove(m, weight, k);
    } else {
        assert(m.remove(k) =~= m);
    }
}

/// Taking `k` out lowers the sum by the weight of the value that `k` had, if
/// it had one.
pub proof fn lemma_total_without<K, V>(m: Map<K, V>, weight: spec_fn(V) -> nat, k: K)
    requires
        m.dom().finite(),
    ensures
        total(m.remove(k), weight) + (if m.contains_key(k) {
            weight(m[k])
        } else {
            0
        }) == total(m, weight),
{
    if m.contains_key(k) {
        lemma_total_remove(m, weight, k);
    } else {
        assert(m.remove(k) =~= m);
    }
}

/// Where every value weighs nothing, so does the map.
pub proof fn lemma_total_of_weightless<K, V>(m: Map<K, V>, weight: spec_fn(V) -> nat)
    requires
        m.dom().finite(),
        forall|k: K| m.contains_key(k) ==> weight(#[trigger] m[k]) == 0,
    ensures
        total(m, weight) == 0,
    decreases m.dom().len(),
{
    if m.dom().len() != 0 {
        let c = m.dom().choose();
        assert(m.contains_key(c));
        lemma_total_of_weightless(m.remove(c), weight);
    }
}

} // verus!
