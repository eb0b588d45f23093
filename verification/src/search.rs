//! Finding elements of a sequence, and adding up over one.

use vstd::prelude::*;

verus! {

/// The position of the first element that satisfies `p`.
pub open spec fn first_where<A>(s: Seq<A>, p: spec_fn(A) -> bool) -> Option<int>
    decreases s.len(),
{
    if s.len() == 0 {
        None
    } else {
        match first_where(s.drop_last(), p) {
            Some(i) => Some(i),
            None => if p(s.last()) {
                Some(s.len() - 1)
            } else {
                None
            },
        }
    }
}

/// `first_where` finds an element that satisfies `p`, none before it does, and it fails only where
/// no element does.
pub broadcast proof fn lemma_first_where<A>(s: Seq<A>, p: spec_fn(A) -> bool)
    ensures
        match #[trigger] first_where(s, p) {
            Some(i) => 0 <= i < s.len() && p(s[i]) && forall|j: int|
                0 <= j < i ==> !p(#[trigger] s[j]),
            None => forall|j: int| 0 <= j < s.len() ==> !p(#[trigger] s[j]),
        },
    decreases s.len(),
{
    if s.len() > 0 {
        lemma_first_where(s.drop_last(), p);
        assert(forall|j: int| 0 <= j < s.len() - 1 ==> s.drop_last()[j] == #[trigger] s[j]);
    }
}

/// An element that satisfies `p`, with none before it, is the first.
pub proof fn lemma_is_first<A>(s: Seq<A>, p: spec_fn(A) -> bool, i: int)
    requires
        0 <= i < s.len(),
        p(s[i]),
        forall|j: int| 0 <= j < i ==> !p(#[trigger] s[j]),
    ensures
        first_where(s, p) == Some(i),
{
    lemma_first_where(s, p);
    let found = first_where(s, p)->Some_0;
    if found < i {
        assert(!p(s[found]));
    }
    if i < found {
        assert(!p(s[i]));
    }
}

/// Going through one more element of a filtered sequence.
pub proof fn lemma_filter_step<A>(s: Seq<A>, p: spec_fn(A) -> bool, n: int)
    requires
        0 <= n < s.len(),
    ensures
        s.take(n + 1).filter(p) == if p(s[n]) {
            s.take(n).filter(p).push(s[n])
        } else {
            s.take(n).filter(p)
        },
{
    reveal(Seq::filter);
    assert(s.take(n + 1).drop_last() =~= s.take(n));
    assert(s.take(n + 1).last() == s[n]);
}

pub proof fn lemma_filter_none<A>(p: spec_fn(A) -> bool)
    ensures
        Seq::<A>::empty().filter(p) == Seq::<A>::empty(),
{
    reveal(Seq::filter);
}

/// Keep the elements that are marked: those that `p` holds of.
pub(crate) fn retain_marked<A>(items: &mut Vec<A>, keep: &Vec<bool>, Ghost(p): Ghost<spec_fn(A) -> bool>)
    requires
        keep@.len() == old(items)@.len(),
        forall|i: int| 0 <= i < keep@.len() ==> #[trigger] keep@[i] == p(old(items)@[i]),
    ensures
        final(items)@ == old(items)@.filter(p),
{
    let ghost all = items@;
    let total: usize = keep.len();
    let mut seen: usize = 0;
    let mut at: usize = 0;
    proof {
        assert(all.take(0) =~= Seq::<A>::empty());
        lemma_filter_none(p);
        assert(items@ =~= all.take(0).filter(p) + all.skip(0));
    }
    while seen < total
        invariant
            total == all.len(),
            keep@.len() == total,
            forall|i: int| 0 <= i < keep@.len() ==> #[trigger] keep@[i] == p(all[i]),
            seen <= total,
            at == all.take(seen as int).filter(p).len(),
            items@ == all.take(seen as int).filter(p) + all.skip(seen as int),
        decreases total - seen,
    {
        let ghost head = all.take(seen as int).filter(p);
        proof {
            lemma_filter_step(all, p, seen as int);
            assert(items@[at as int] == all.skip(seen as int)[0]);
        }
        if keep[seen] {
            at = at + 1;
            proof {
                assert(head.push(all[seen as int]) + all.skip(seen + 1) =~= head + all.skip(
                    seen as int,
                ));
            }
        } else {
            items.remove(at);
            proof {
                assert(items@ =~= head + all.skip(seen + 1));
            }
        }
        seen = seen + 1;
    }
    proof {
        assert(all.take(total as int) =~= all);
        assert(items@ =~= all.filter(p));
    }
}

/// The sum of `f` over the elements.
pub open spec fn sum_of<A>(s: Seq<A>, f: spec_fn(A) -> nat) -> nat
    decreases s.len(),
{
    if s.len() == 0 {
        0
    } else {
        sum_of(s.drop_last(), f) + f(s.last())
    }
}

pub proof fn lemma_sum_push<A>(s: Seq<A>, f: spec_fn(A) -> nat, x: A)
    ensures
        sum_of(s.push(x), f) == sum_of(s, f) + f(x),
{
    assert(s.push(x).drop_last() =~= s);
}

pub proof fn lemma_sum_remove<A>(s: Seq<A>, f: spec_fn(A) -> nat, i: int)
    requires
        0 <= i < s.len(),
    ensures
        sum_of(s, f) == sum_of(s.remove(i), f) + f(s[i]),
    decreases s.len(),
{
    if i == s.len() - 1 {
        assert(s.remove(i) =~= s.drop_last());
    } else {
        lemma_sum_remove(s.drop_last(), f, i);
        assert(s.remove(i).drop_last() =~= s.drop_last().remove(i));
        assert(s.remove(i).last() == s.last());
    }
}

pub proof fn lemma_sum_update<A>(s: Seq<A>, f: spec_fn(A) -> nat, i: int, x: A)
    requires
        0 <= i < s.len(),
    ensures
        sum_of(s.update(i, x), f) + f(s[i]) == sum_of(s, f) + f(x),
    decreases s.len(),
{
    if i == s.len() - 1 {
        assert(s.update(i, x).drop_last() =~= s.drop_last());
    } else {
        lemma_sum_update(s.drop_last(), f, i, x);
        assert(s.update(i, x).drop_last() =~= s.drop_last().update(i, x));
    }
}

/// Where one measure never exceeds another, neither does its sum.
pub proof fn lemma_sum_le<A>(s: Seq<A>, f: spec_fn(A) -> nat, g: spec_fn(A) -> nat)
    requires
        forall|x: A| #[trigger] f(x) <= g(x),
    ensures
        sum_of(s, f) <= sum_of(s, g),
    decreases s.len(),
{
    if s.len() > 0 {
        lemma_sum_le(s.drop_last(), f, g);
        assert(f(s.last()) <= g(s.last()));
    }
}

/// The sum over a beginning of the sequence is no more than the whole sum.
pub proof fn lemma_sum_take<A>(s: Seq<A>, f: spec_fn(A) -> nat, n: int)
    requires
        0 <= n <= s.len(),
    ensures
        sum_of(s.take(n), f) <= sum_of(s, f),
    decreases s.len(),
{
    if n == s.len() {
        assert(s.take(n) =~= s);
    } else {
        lemma_sum_take(s.drop_last(), f, n);
        assert(s.drop_last().take(n) =~= s.take(n));
    }
}

} // verus!
