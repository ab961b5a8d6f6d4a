//! Sums over maps.

use vstd::prelude::*;

verus! {

/// The sum of `f` over the entries of a finite map.
pub open spec fn total<K, V>(m: Map<K, V>, f: spec_fn(K, V) -> int) -> int
    decreases m.dom().len(),
    when m.dom().finite()
{
    if m.dom().len() == 0 {
        0
    } else {
        let k = m.dom().choose();
        f(k, m[k]) + total(m.remove(k), f)
    }
}

/// The sum of a sequence of numbers.
pub open spec fn sum(numbers: Seq<int>) -> int
    decreases numbers.len(),
{
    if numbers.len() == 0 {
        0
    } else {
        sum(numbers.drop_last()) + numbers.last()
    }
}

/// A sum is the part of one entry and the sum over the others.
pub proof fn lemma_total_remove<K, V>(m: Map<K, V>, f: spec_fn(K, V) -> int, k: K)
    requires
        m.dom().finite(),
        m.contains_key(k),
    ensures
        total(m, f) == f(k, m[k]) + total(m.remove(k), f),
    decreases m.dom().len(),
{
    let c = m.dom().choose();
    if m.dom().len() == 0 {
        assert(m.dom() =~= Set::empty());
    } else if c != k {
        assert(m.remove(c).dom() =~= m.dom().remove(c));
        assert(m.remove(k).dom() =~= m.dom().remove(k));
        lemma_total_remove(m.remove(c), f, k);
        lemma_total_remove(m.remove(k), f, c);
        assert(m.remove(c).remove(k) =~= m.remove(k).remove(c));
    }
}

/// A sum after one entry was set.
pub proof fn lemma_total_insert<K, V>(m: Map<K, V>, f: spec_fn(K, V) -> int, k: K, v: V)
    requires
        m.dom().finite(),
    ensures
        m.insert(k, v).dom().finite(),
        total(m.insert(k, v), f) == total(m, f) + f(k, v) - (if m.contains_key(k) {
            f(k, m[k])
        } else {
            0
        }),
{
    let n = m.insert(k, v);
    assert(n.dom() =~= m.dom().insert(k));
    lemma_total_remove(n, f, k);
    if m.contains_key(k) {
        lemma_total_remove(m, f, k);
        assert(n.remove(k) =~= m.remove(k));
    } else {
        assert(n.remove(k) =~= m);
    }
}

/// The sum over no entries.
pub proof fn lemma_total_empty<K, V>(f: spec_fn(K, V) -> int)
    ensures
        total(Map::<K, V>::empty(), f) == 0,
{
    assert(Map::<K, V>::empty().dom() =~= Set::<K>::empty());
}

/// A sum in which each part grows by `d` times its weight grows by `d` times the weights.
pub proof fn lemma_total_shift<K, V>(
    m: Map<K, V>,
    f: spec_fn(K, V) -> int,
    g: spec_fn(K, V) -> int,
    weight: spec_fn(K, V) -> int,
    d: int,
)
    requires
        m.dom().finite(),
        forall|k: K| #[trigger] m.contains_key(k) ==> g(k, m[k]) == f(k, m[k]) + d * weight(k, m[k]),
    ensures
        total(m, g) == total(m, f) + d * total(m, weight),
    decreases m.dom().len(),
{
    if m.dom().len() > 0 {
        let c = m.dom().choose();
        assert(m.contains_key(c));
        assert(m.remove(c).dom() =~= m.dom().remove(c));
        assert forall|k: K| #[trigger] m.remove(c).contains_key(k) implies g(k, m.remove(c)[k]) == f(
            k,
            m.remove(c)[k],
        ) + d * weight(k, m.remove(c)[k]) by {
            assert(m.contains_key(k));
        }
        lemma_total_shift(m.remove(c), f, g, weight, d);
        assert(d * (weight(c, m[c]) + total(m.remove(c), weight)) == d * weight(c, m[c]) + d * total(
            m.remove(c),
            weight,
        )) by (nonlinear_arith);
    } else {
        assert(d * 0 == 0) by (nonlinear_arith);
    }
}

/// A sum of parts that are not negative is at least each of them.
pub proof fn lemma_total_bounds<K, V>(m: Map<K, V>, f: spec_fn(K, V) -> int, k: K)
    requires
        m.dom().finite(),
        forall|j: K| #[trigger] m.contains_key(j) ==> f(j, m[j]) >= 0,
    ensures
        total(m, f) >= 0,
        m.contains_key(k) ==> total(m, f) >= f(k, m[k]),
    decreases m.dom().len(),
{
    if m.dom().len() > 0 {
        let c = m.dom().choose();
        assert(m.contains_key(c));
        assert(m.remove(c).dom() =~= m.dom().remove(c));
        assert forall|j: K| #[trigger] m.remove(c).contains_key(j) implies f(j, m.remove(c)[j])
            >= 0 by {
            assert(m.contains_key(j));
        }
        lemma_total_bounds(m.remove(c), f, k);
        if m.contains_key(k) && k != c {
            assert(m.remove(c).contains_key(k));
        }
    } else {
        assert(m.dom() =~= Set::empty());
    }
}

} // verus!
