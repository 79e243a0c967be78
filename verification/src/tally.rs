//! The sum of the amounts that a finite map holds, and how it changes when one
//! entry changes.

use vstd::prelude::*;

verus! {

/// The amount that `m` holds for `k`: zero where `k` has no entry.
pub open spec fn amount_at<K>(m: Map<K, nat>, k: K) -> nat {
    if m.contains_key(k) {
        m[k]
    } else {
        0
    }
}

/// The sum of all amounts in `m`. It is defined for maps with a finite domain.
pub open spec fn total<K>(m: Map<K, nat>) -> nat
    decreases m.dom().len(),
    when m.dom().finite()
{
    if m.dom().len() == 0 {
        0
    } else {
        let k = m.dom().choose();
        m[k] + total(m.remove(k))
    }
}

/// The empty map sums to zero.
pub proof fn lemma_total_empty<K>()
    ensures
        total(Map::<K, nat>::empty()) == 0,
{
}

/// Any one entry can be split off the sum, not only the one that the
/// definition happens to choose.
pub proof fn lemma_total_remove<K>(m: Map<K, nat>, k: K)
    requires
        m.dom().finite(),
        m.contains_key(k),
    ensures
        total(m) == m[k] + total(m.remove(k)),
    decreases m.dom().len(),
{
    let c = m.dom().choose();
    if c != k {
        lemma_total_remove(m.remove(c), k);
        lemma_total_remove(m.remove(k), c);
        assert(m.remove(c).remove(k) =~= m.remove(k).remove(c));
    }
}

/// Writing `v` at `k` changes the sum by the difference between `v` and what
/// `k` held before.
pub proof fn lemma_total_insert<K>(m: Map<K, nat>, k: K, v: nat)
    requires
        m.dom().finite(),
    ensures
        total(m.insert(k, v)) + amount_at(m, k) == total(m) + v,
{
    lemma_total_remove(m.insert(k, v), k);
    assert(m.insert(k, v).remove(k) =~= m.remove(k));
    if m.contains_key(k) {
        lemma_total_remove(m, k);
    } else {
        assert(m.remove(k) =~= m);
    }
}

/// No single entry exceeds the sum.
pub proof fn lemma_amount_le_total<K>(m: Map<K, nat>, k: K)
    requires
        m.dom().finite(),
    ensures
        amount_at(m, k) <= total(m),
{
    if m.contains_key(k) {
        lemma_total_remove(m, k);
    }
}

} // verus!
