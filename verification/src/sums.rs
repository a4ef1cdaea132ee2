//! Summation of an integer-valued function over a finite set, with the
//! algebraic facts the ledger's held-balance invariant rests on.

use vstd::prelude::*;
use vstd::set::fold::lemma_fold_empty;
use vstd::set::fold::lemma_fold_insert;

verus! {

/// The sum of `g` over all elements of the finite set `s`.
pub open spec fn sum_over<A>(s: Set<A>, g: spec_fn(A) -> int) -> int {
    s.fold(0, |acc: int, a: A| acc + g(a))
}

/// Folding with `|acc, a| acc + g(a)` is insensitive to element order.
proof fn lemma_sum_fun_commutative<A>(g: spec_fn(A) -> int)
    ensures
        vstd::set::fold::is_fun_commutative(|acc: int, a: A| acc + g(a)),
{
}

/// Summing over the empty set gives zero.
pub proof fn lemma_sum_over_empty<A>(g: spec_fn(A) -> int)
    ensures
        sum_over(Set::<A>::empty(), g) == 0,
{
    lemma_fold_empty(0, |acc: int, a: A| acc + g(a));
}

/// Inserting a fresh element adds its contribution to the sum.
pub proof fn lemma_sum_over_insert<A>(s: Set<A>, g: spec_fn(A) -> int, a: A)
    requires
        s.finite(),
        !s.contains(a),
    ensures
        sum_over(s.insert(a), g) == sum_over(s, g) + g(a),
{
    lemma_sum_fun_commutative(g);
    lemma_fold_insert(s, 0, |acc: int, x: A| acc + g(x), a);
}

/// Removing a present element takes exactly its contribution away.
pub proof fn lemma_sum_over_remove<A>(s: Set<A>, g: spec_fn(A) -> int, a: A)
    requires
        s.finite(),
        s.contains(a),
    ensures
        sum_over(s, g) == sum_over(s.remove(a), g) + g(a),
{
    let sr = s.remove(a);
    assert(sr.insert(a) =~= s);
    lemma_sum_over_insert(sr, g, a);
}

/// Two functions that agree on every element of the set have the same sum.
pub proof fn lemma_sum_over_congruence<A>(s: Set<A>, g1: spec_fn(A) -> int, g2: spec_fn(A) -> int)
    requires
        s.finite(),
        forall|a: A| s.contains(a) ==> g1(a) == g2(a),
    ensures
        sum_over(s, g1) == sum_over(s, g2),
    decreases s.len(),
{
    if s.len() == 0 {
        assert(s =~= Set::<A>::empty());
        lemma_sum_over_empty(g1);
        lemma_sum_over_empty(g2);
    } else {
        let a = s.choose();
        assert(s.contains(a));
        lemma_sum_over_remove(s, g1, a);
        lemma_sum_over_remove(s, g2, a);
        lemma_sum_over_congruence(s.remove(a), g1, g2);
    }
}

/// A sum of non-negative contributions is non-negative.
pub proof fn lemma_sum_over_nonneg<A>(s: Set<A>, g: spec_fn(A) -> int)
    requires
        s.finite(),
        forall|a: A| s.contains(a) ==> g(a) >= 0,
    ensures
        sum_over(s, g) >= 0,
    decreases s.len(),
{
    if s.len() == 0 {
        assert(s =~= Set::<A>::empty());
        lemma_sum_over_empty(g);
    } else {
        let a = s.choose();
        assert(s.contains(a));
        lemma_sum_over_remove(s, g, a);
        lemma_sum_over_nonneg(s.remove(a), g);
    }
}

/// With non-negative contributions, each element's contribution is
/// bounded by the whole sum.
pub proof fn lemma_sum_over_element_bound<A>(s: Set<A>, g: spec_fn(A) -> int, a: A)
    requires
        s.finite(),
        s.contains(a),
        forall|x: A| s.contains(x) ==> g(x) >= 0,
    ensures
        g(a) <= sum_over(s, g),
{
    lemma_sum_over_remove(s, g, a);
    lemma_sum_over_nonneg(s.remove(a), g);
}

} // verus!
