//! Aggregation as a left fold of a partial addition, and why the order of the
//! operands does not matter once the addition is commutative and associative.

use vstd::prelude::*;

verus! {

/// Adds `x` to a running total that may already have failed.
pub open spec fn step<T>(plus: spec_fn(T, T) -> Option<T>, acc: Option<T>, x: T) -> Option<T> {
    match acc {
        Some(a) => plus(a, x),
        None => None,
    }
}

/// The left fold of `s` under `plus`, seeded with the first element: `None` for
/// an empty sequence or where some addition fails.
pub open spec fn fold_sum<T>(plus: spec_fn(T, T) -> Option<T>, s: Seq<T>) -> Option<T>
    decreases s.len(),
{
    if s.len() == 0 {
        None
    } else if s.len() == 1 {
        Some(s[0])
    } else {
        step(plus, fold_sum(plus, s.drop_last()), s.last())
    }
}

/// `plus` gives the same outcome for both orders of its operands.
pub open spec fn is_commutative<T>(plus: spec_fn(T, T) -> Option<T>) -> bool {
    forall|a: T, b: T| #[trigger] plus(a, b) == plus(b, a)
}

/// `(a + b) + c` and `a + (b + c)` agree, failure included.
pub open spec fn is_associative<T>(plus: spec_fn(T, T) -> Option<T>) -> bool {
    forall|a: T, b: T, c: T|
        #[trigger] step(plus, plus(a, b), c) == match plus(b, c) {
            Some(bc) => plus(a, bc),
            None => None,
        }
}

/// Two further operands may be added to a running total in either order.
pub proof fn lemma_step_swap<T>(plus: spec_fn(T, T) -> Option<T>, acc: Option<T>, a: T, b: T)
    requires
        is_commutative(plus),
        is_associative(plus),
    ensures
        step(plus, step(plus, acc, a), b) == step(plus, step(plus, acc, b), a),
{
    if let Some(x) = acc {
        assert(plus(a, b) == plus(b, a));
        assert(step(plus, plus(x, a), b) == step(plus, plus(x, b), a));
    }
}

/// Any element of a sequence of two or more may be taken out and added last.
pub proof fn lemma_fold_remove<T>(plus: spec_fn(T, T) -> Option<T>, s: Seq<T>, i: int)
    requires
        is_commutative(plus),
        is_associative(plus),
        s.len() >= 2,
        0 <= i < s.len(),
    ensures
        fold_sum(plus, s) == step(plus, fold_sum(plus, s.remove(i)), s[i]),
    decreases s.len(),
{
    if i == s.len() - 1 {
        assert(s.remove(i) =~= s.drop_last());
    } else if s.len() == 2 {
        assert(s.remove(0) =~= seq![s[1]]);
        assert(s.drop_last() =~= seq![s[0]]);
        assert(plus(s[0], s[1]) == plus(s[1], s[0]));
    } else {
        let d = s.drop_last();
        lemma_fold_remove(plus, d, i);
        let r = s.remove(i);
        assert(r.drop_last() =~= d.remove(i));
        assert(r.last() == s.last());
        lemma_step_swap(plus, fold_sum(plus, d.remove(i)), s[i], s.last());
    }
}

/// Folding two sequences that hold the same elements, each as often, gives
/// the same outcome when `plus` is commutative and associative.
pub proof fn lemma_fold_permutation<T>(plus: spec_fn(T, T) -> Option<T>, s1: Seq<T>, s2: Seq<T>)
    requires
        is_commutative(plus),
        is_associative(plus),
        s1.to_multiset() == s2.to_multiset(),
    ensures
        fold_sum(plus, s1) == fold_sum(plus, s2),
    decreases s2.len(),
{
    s1.to_multiset_ensures();
    s2.to_multiset_ensures();
    assert(s1.len() == s2.len());
    if s2.len() == 0 {
    } else if s2.len() == 1 {
        assert(s2.to_multiset().count(s2[0]) > 0);
        assert(s1.contains(s2[0]));
    } else {
        let n = s2.len() - 1;
        let x = s2[n];
        assert(s2.to_multiset().count(x) > 0);
        assert(s1.contains(x));
        let i = choose|i: int| 0 <= i < s1.len() && s1[i] == x;
        assert(s2.remove(n) =~= s2.drop_last());
        assert(s1.remove(i).to_multiset() == s2.drop_last().to_multiset());
        lemma_fold_permutation(plus, s1.remove(i), s2.drop_last());
        lemma_fold_remove(plus, s1, i);
    }
}

/// Once the fold of a non-empty prefix has failed, the fold of the whole fails.
pub proof fn lemma_fold_failure_persists<T>(plus: spec_fn(T, T) -> Option<T>, s: Seq<T>, k: int)
    requires
        1 <= k <= s.len(),
        fold_sum(plus, s.take(k)) is None,
    ensures
        fold_sum(plus, s) is None,
    decreases s.len(),
{
    if k == s.len() {
        assert(s.take(k) =~= s);
    } else {
        assert(s.drop_last().take(k) =~= s.take(k));
        lemma_fold_failure_persists(plus, s.drop_last(), k);
    }
}

/// Extending a prefix by one element adds that element to the fold.
pub proof fn lemma_fold_prefix_step<T>(plus: spec_fn(T, T) -> Option<T>, s: Seq<T>, k: int)
    requires
        1 <= k < s.len(),
    ensures
        fold_sum(plus, s.take(k + 1)) == step(plus, fold_sum(plus, s.take(k)), s[k]),
{
    assert(s.take(k + 1).drop_last() =~= s.take(k));
}

} // verus!
