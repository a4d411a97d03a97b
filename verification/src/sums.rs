//! Sums over sequences.
use vstd::prelude::*;

verus! {

/// The sum of `f` over `s`.
pub open spec fn sum<A>(s: Seq<A>, f: spec_fn(A) -> int) -> int
    decreases s.len(),
{
    if s.len() == 0 {
        0
    } else {
        sum(s.drop_last(), f) + f(s.last())
    }
}

/// One more item adds its value.
pub proof fn lemma_sum_push<A>(s: Seq<A>, x: A, f: spec_fn(A) -> int)
    ensures
        sum(s.push(x), f) == sum(s, f) + f(x),
{
    assert(s.push(x).drop_last() =~= s);
}

/// Changing one item changes the sum by as much as its value.
pub proof fn lemma_sum_update<A>(s: Seq<A>, i: int, x: A, f: spec_fn(A) -> int)
    requires
        0 <= i < s.len(),
    ensures
        sum(s.update(i, x), f) == sum(s, f) - f(s[i]) + f(x),
    decreases s.len(),
{
    let t = s.update(i, x);
    if i == s.len() - 1 {
        assert(t.drop_last() =~= s.drop_last());
    } else {
        assert(t.drop_last() =~= s.drop_last().update(i, x));
        lemma_sum_update(s.drop_last(), i, x, f);
    }
}

/// A sum of values that do not exceed others does not exceed their sum.
pub proof fn lemma_sum_ordered<A, B>(
    s: Seq<A>,
    t: Seq<B>,
    f: spec_fn(A) -> int,
    g: spec_fn(B) -> int,
)
    requires
        s.len() == t.len(),
        forall|i: int| 0 <= i < s.len() ==> f(#[trigger] s[i]) <= g(t[i]),
    ensures
        sum(s, f) <= sum(t, g),
    decreases s.len(),
{
    if s.len() > 0 {
        assert forall|i: int| 0 <= i < s.drop_last().len() implies f(#[trigger] s.drop_last()[i])
            <= g(t.drop_last()[i]) by {
            assert(s.drop_last()[i] == s[i]);
        }
        lemma_sum_ordered(s.drop_last(), t.drop_last(), f, g);
        assert(f(s[s.len() - 1]) <= g(t[s.len() - 1]));
    }
}

/// Sums of equal values are equal.
pub proof fn lemma_sum_same<A, B>(
    s: Seq<A>,
    t: Seq<B>,
    f: spec_fn(A) -> int,
    g: spec_fn(B) -> int,
)
    requires
        s.len() == t.len(),
        forall|i: int| 0 <= i < s.len() ==> f(#[trigger] s[i]) == g(t[i]),
    ensures
        sum(s, f) == sum(t, g),
{
    lemma_sum_ordered(s, t, f, g);
    assert forall|i: int| 0 <= i < t.len() implies g(#[trigger] t[i]) <= f(s[i]) by {
        assert(f(s[i]) == g(t[i]));
    }
    lemma_sum_ordered(t, s, g, f);
}

/// None of some values that are not negative exceeds their sum, and the sum is
/// not negative.
pub proof fn lemma_sum_covers<A>(s: Seq<A>, f: spec_fn(A) -> int)
    requires
        forall|i: int| 0 <= i < s.len() ==> f(#[trigger] s[i]) >= 0,
    ensures
        sum(s, f) >= 0,
        forall|i: int| 0 <= i < s.len() ==> f(#[trigger] s[i]) <= sum(s, f),
    decreases s.len(),
{
    if s.len() > 0 {
        let d = s.drop_last();
        assert forall|i: int| 0 <= i < d.len() implies f(#[trigger] d[i]) >= 0 by {
            assert(d[i] == s[i]);
        }
        lemma_sum_covers(d, f);
        assert(f(s[s.len() - 1]) >= 0);
        assert forall|i: int| 0 <= i < s.len() implies f(#[trigger] s[i]) <= sum(s, f) by {
            if i < d.len() {
                assert(d[i] == s[i]);
                assert(f(d[i]) <= sum(d, f));
            }
        }
    }
}

/// A sum of equal values is a product.
pub proof fn lemma_sum_constant<A>(s: Seq<A>, f: spec_fn(A) -> int, c: int)
    requires
        forall|i: int| 0 <= i < s.len() ==> f(#[trigger] s[i]) == c,
    ensures
        sum(s, f) == s.len() * c,
    decreases s.len(),
{
    if s.len() > 0 {
        let d = s.drop_last();
        assert forall|i: int| 0 <= i < d.len() implies f(#[trigger] d[i]) == c by {
            assert(d[i] == s[i]);
        }
        lemma_sum_constant(d, f, c);
        assert(f(s[s.len() - 1]) == c);
        assert((d.len() + 1) * c == d.len() * c + c) by (nonlinear_arith);
    } else {
        assert(0 * c == 0);
    }
}

/// The sum of nothing is nothing, and one more item adds its value. This fixes
/// every sum.
pub proof fn law_sum_adds_item_by_item<A>(s: Seq<A>, x: A, f: spec_fn(A) -> int)
    ensures
        sum(Seq::<A>::empty(), f) == 0,
        sum(s.push(x), f) == sum(s, f) + f(x),
{
    lemma_sum_push(s, x, f);
}

} // verus!
