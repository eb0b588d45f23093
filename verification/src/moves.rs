//! Moving elements within a list.

use vstd::prelude::*;

verus! {

/// Where an element lands that is inserted at `insert` after being taken out at `from`.
pub open spec fn landing(from: int, insert: int) -> int {
    if insert > from {
        insert - 1
    } else {
        insert
    }
}

/// The list with the element at `from` moved before the element at `insert`.
pub open spec fn moved<A>(s: Seq<A>, from: int, insert: int) -> Seq<A> {
    s.remove(from).insert(landing(from, insert), s[from])
}

/// Where the element at `i` is after a move from `from` to `to`.
pub open spec fn followed(i: int, from: int, to: int) -> int {
    if i == from {
        to
    } else if from < i <= to {
        i - 1
    } else if to <= i < from {
        i + 1
    } else {
        i
    }
}

/// A move keeps every element; each is found where `followed` says.
pub proof fn law_moves_keep_every_element<A>(s: Seq<A>, from: int, insert: int, i: int)
    requires
        0 <= from < s.len(),
        0 <= insert <= s.len(),
        0 <= i < s.len(),
    ensures
        moved(s, from, insert).len() == s.len(),
        0 <= followed(i, from, landing(from, insert)) < s.len(),
        moved(s, from, insert)[followed(i, from, landing(from, insert))] == s[i],
{
}

/// No two elements end up in one place.
pub proof fn law_moves_keep_elements_apart(from: int, to: int, i: int, j: int)
    requires
        i != j,
    ensures
        followed(i, from, to) != followed(j, from, to),
{
}

/// A move to where the element already is changes nothing.
pub proof fn law_a_move_in_place_changes_nothing<A>(s: Seq<A>, from: int, insert: int)
    requires
        0 <= from < s.len(),
        landing(from, insert) == from,
    ensures
        moved(s, from, insert) == s,
{
    assert(moved(s, from, insert) =~= s);
}

/// Move an element: whether that made a difference.
pub fn move_item<A>(items: &mut Vec<A>, from: usize, insert: usize) -> (r: bool)
    requires
        from < old(items)@.len(),
        insert <= old(items)@.len(),
    ensures
        r == (landing(from as int, insert as int) != from),
        final(items)@ == moved(old(items)@, from as int, insert as int),
        !r ==> *final(items) == *old(items),
{
    let to: usize = if insert > from {
        insert - 1
    } else {
        insert
    };
    if to == from {
        proof {
            law_a_move_in_place_changes_nothing(items@, from as int, insert as int);
        }
        return false;
    }
    let item = items.remove(from);
    items.insert(to, item);
    true
}

pub fn follow(i: usize, from: usize, to: usize) -> (r: usize)
    ensures
        r == followed(i as int, from as int, to as int),
{
    if i == from {
        to
    } else if from < i && i <= to {
        i - 1
    } else if to <= i && i < from {
        i + 1
    } else {
        i
    }
}

// ---------------------------------------------------------------------------------------------
// Blocks
// ---------------------------------------------------------------------------------------------

/// The positions from `lo` up to `hi` that are not in the block.
pub open spec fn outside(block: Seq<int>, lo: int, hi: int) -> Seq<int>
    decreases hi - lo,
{
    if hi <= lo {
        Seq::empty()
    } else if block.contains(hi - 1) {
        outside(block, lo, hi - 1)
    } else {
        outside(block, lo, hi - 1).push(hi - 1)
    }
}

/// The positions of a list of `n` in the order they have after the block is moved before `before`,
/// or to the end.
pub open spec fn block_order(n: int, block: Seq<int>, before: int) -> Seq<int> {
    outside(block, 0, before) + block + outside(block, before, n)
}

pub open spec fn is_block(block: Seq<int>, n: int) -> bool {
    &&& forall|i: int| 0 <= i < block.len() ==> 0 <= #[trigger] block[i] < n
    &&& forall|i: int, j: int| 0 <= i < j < block.len() ==> block[i] != block[j]
}

pub proof fn lemma_outside(block: Seq<int>, lo: int, hi: int)
    ensures
        forall|i: int|
            0 <= i < outside(block, lo, hi).len() ==> lo <= #[trigger] outside(block, lo, hi)[i] < hi
                && !block.contains(outside(block, lo, hi)[i]),
        forall|i: int, j: int|
            0 <= i < j < outside(block, lo, hi).len() ==> outside(block, lo, hi)[i] < outside(
                block,
                lo,
                hi,
            )[j],
        forall|k: int|
            lo <= k < hi && !block.contains(k) ==> #[trigger] outside(block, lo, hi).contains(k),
    decreases hi - lo,
{
    if lo < hi {
        lemma_outside(block, lo, hi - 1);
        let before = outside(block, lo, hi - 1);
        let all = outside(block, lo, hi);
        assert forall|k: int| lo <= k < hi && !block.contains(k) implies #[trigger] all.contains(
            k,
        ) by {
            if k == hi - 1 {
                assert(all[all.len() - 1] == k);
            } else {
                assert(before.contains(k));
                let i = choose|i: int| 0 <= i < before.len() && before[i] == k;
                assert(all[i] == k);
            }
        }
    }
}

/// Moving a block keeps every element, and none twice: the order names each position once.
pub proof fn law_block_moves_keep_every_element(n: int, block: Seq<int>, before: int)
    requires
        is_block(block, n),
        0 <= before <= n,
    ensures
        forall|i: int|
            0 <= i < block_order(n, block, before).len() ==> 0 <= #[trigger] block_order(
                n,
                block,
                before,
            )[i] < n,
        forall|i: int, j: int|
            0 <= i < j < block_order(n, block, before).len() ==> block_order(n, block, before)[i]
                != block_order(n, block, before)[j],
        forall|k: int| 0 <= k < n ==> #[trigger] block_order(n, block, before).contains(k),
{
    let head = outside(block, 0, before);
    let tail = outside(block, before, n);
    let order = block_order(n, block, before);
    lemma_outside(block, 0, before);
    lemma_outside(block, before, n);
    let h = head.len() as int;
    let b = block.len() as int;
    assert forall|i: int| 0 <= i < order.len() implies 0 <= #[trigger] order[i] < n by {
        if i < h {
            assert(order[i] == head[i]);
        } else if i < h + b {
            assert(order[i] == block[i - h]);
        } else {
            assert(order[i] == tail[i - h - b]);
        }
    }
    assert forall|i: int, j: int| 0 <= i < j < order.len() implies order[i] != order[j] by {
        if j < h {
            assert(order[i] == head[i] && order[j] == head[j]);
        } else if j < h + b {
            assert(order[j] == block[j - h]);
            assert(block.contains(order[j]));
            if i < h {
                assert(order[i] == head[i]);
            } else {
                assert(order[i] == block[i - h]);
            }
        } else {
            assert(order[j] == tail[j - h - b]);
            if i < h {
                assert(order[i] == head[i]);
            } else if i < h + b {
                assert(order[i] == block[i - h]);
                assert(block.contains(order[i]));
            } else {
                assert(order[i] == tail[i - h - b]);
            }
        }
    }
    assert forall|k: int| 0 <= k < n implies #[trigger] order.contains(k) by {
        if block.contains(k) {
            let i = choose|i: int| 0 <= i < block.len() && block[i] == k;
            assert(order[h + i] == k);
        } else if k < before {
            assert(head.contains(k));
            let i = choose|i: int| 0 <= i < head.len() && head[i] == k;
            assert(order[i] == k);
        } else {
            assert(tail.contains(k));
            let i = choose|i: int| 0 <= i < tail.len() && tail[i] == k;
            assert(order[h + b + i] == k);
        }
    }
}

/// What is not in the block keeps its order, and so does the block, which ends up in one piece.
pub proof fn law_block_moves_keep_the_order_of_the_rest(n: int, block: Seq<int>, before: int)
    requires
        is_block(block, n),
        0 <= before <= n,
    ensures
        ({
            let at = outside(block, 0, before).len() as int;
            let order = block_order(n, block, before);
            &&& order.subrange(at, at + block.len()) == block
            &&& forall|i: int, j: int|
                0 <= i < j < order.len() && !(at <= i < at + block.len()) && !(at <= j < at
                    + block.len()) ==> order[i] < order[j]
        }),
{
    let head = outside(block, 0, before);
    let tail = outside(block, before, n);
    let order = block_order(n, block, before);
    lemma_outside(block, 0, before);
    lemma_outside(block, before, n);
    let at = head.len() as int;
    let b = block.len() as int;
    assert(order.subrange(at, at + b) =~= block);
    assert forall|i: int, j: int|
        0 <= i < j < order.len() && !(at <= i < at + b) && !(at <= j < at
            + b) implies order[i] < order[j] by {
        if i < at {
            assert(order[i] == head[i]);
        } else {
            assert(order[i] == tail[i - at - b]);
        }
        if j < at {
            assert(order[j] == head[j]);
        } else {
            assert(order[j] == tail[j - at - b]);
        }
    }
}

pub open spec fn ints(v: Seq<usize>) -> Seq<int> {
    v.map_values(|i: usize| i as int)
}

fn push_outside(order: &mut Vec<usize>, block: &Vec<usize>, lo: usize, hi: usize)
    requires
        lo <= hi,
    ensures
        ints(final(order)@) == ints(old(order)@) + outside(ints(block@), lo as int, hi as int),
{
    let ghost start = order@;
    let mut k: usize = lo;
    proof {
        assert(ints(order@) =~= ints(start) + outside(ints(block@), lo as int, k as int));
    }
    while k < hi
        invariant
            lo <= k <= hi,
            ints(order@) == ints(start) + outside(ints(block@), lo as int, k as int),
        decreases hi - k,
    {
        let mut found = false;
        let mut i: usize = 0;
        while i < block.len()
            invariant
                i <= block@.len(),
                found <==> exists|j: int| 0 <= j < i && block@[j] == k,
            decreases block@.len() - i,
        {
            if block[i] == k {
                found = true;
            }
            i = i + 1;
        }
        proof {
            if found {
                let j = choose|j: int| 0 <= j < block@.len() && block@[j] == k;
                assert(ints(block@)[j] == k as int);
            } else if ints(block@).contains(k as int) {
                let j = choose|j: int| 0 <= j < ints(block@).len() && ints(block@)[j] == k as int;
                assert(block@[j] == k);
            }
        }
        if !found {
            let ghost before = order@;
            order.push(k);
            proof {
                assert(ints(order@) =~= ints(before).push(k as int));
                assert(ints(order@) =~= ints(start) + outside(
                    ints(block@),
                    lo as int,
                    k as int,
                ).push(k as int));
            }
        }
        k = k + 1;
    }
}

/// The order after a block is moved.
pub fn order_after_block_move(n: usize, block: &Vec<usize>, before: usize) -> (r: Vec<usize>)
    requires
        before <= n,
    ensures
        ints(r@) == block_order(n as int, ints(block@), before as int),
{
    let mut order: Vec<usize> = Vec::new();
    proof {
        assert(ints(order@) =~= Seq::<int>::empty());
    }
    push_outside(&mut order, block, 0, before);
    let ghost head = order@;
    let mut i: usize = 0;
    proof {
        assert(ints(order@) =~= outside(ints(block@), 0, before as int));
        assert(ints(order@) =~= ints(head) + ints(block@).take(0));
    }
    while i < block.len()
        invariant
            i <= block@.len(),
            ints(order@) == ints(head) + ints(block@).take(i as int),
        decreases block@.len() - i,
    {
        let ghost was = order@;
        order.push(block[i]);
        i = i + 1;
        proof {
            assert(ints(order@) =~= ints(was).push(block@[i - 1] as int));
            assert(ints(order@) =~= ints(head) + ints(block@).take(i as int));
        }
    }
    proof {
        assert(ints(block@).take(i as int) =~= ints(block@));
    }
    push_outside(&mut order, block, before, n);
    order
}

/// The elements in another order.
pub open spec fn reordered<A>(s: Seq<A>, order: Seq<int>) -> Seq<A> {
    order.map_values(|i: int| s[i])
}

/// Put a list in another order, which names each of its positions at most once.
pub fn reorder<A>(items: Vec<A>, order: &Vec<usize>) -> (r: Vec<A>)
    requires
        forall|i: int| 0 <= i < order@.len() ==> #[trigger] order@[i] < items@.len(),
        forall|i: int, j: int| 0 <= i < j < order@.len() ==> order@[i] != order@[j],
    ensures
        r@ == reordered(items@, ints(order@)),
{
    let ghost source = items@;
    let mut left: Vec<Option<A>> = Vec::new();
    let mut rest = items;
    proof {
        assert(rest@ =~= source.take(rest@.len() as int));
    }
    while rest.len() > 0
        invariant
            rest@.len() + left@.len() == source.len(),
            rest@ == source.take(rest@.len() as int),
            forall|i: int|
                0 <= i < left@.len() ==> #[trigger] left@[i] == Some(
                    source[source.len() - 1 - i],
                ),
        decreases rest@.len(),
    {
        let ghost n = rest@.len() as int;
        match rest.pop() {
            Some(item) => {
                left.push(Some(item));
                proof {
                    assert(item == source[n - 1]);
                    assert(rest@ =~= source.take(n - 1));
                }
            },
            None => {},
        }
    }
    let n: usize = left.len();
    let mut out: Vec<A> = Vec::new();
    let mut k: usize = 0;
    proof {
        assert(out@ =~= reordered(source, ints(order@.take(0))));
    }
    while k < order.len()
        invariant
            k <= order@.len(),
            n == source.len(),
            left@.len() == n,
            forall|i: int| 0 <= i < order@.len() ==> #[trigger] order@[i] < n,
            forall|i: int, j: int| 0 <= i < j < order@.len() ==> order@[i] != order@[j],
            forall|i: int|
                0 <= i < n && (forall|j: int| 0 <= j < k ==> order@[j] != i) ==> left@[n - 1 - i]
                    == Some(#[trigger] source[i]),
            out@ == reordered(source, ints(order@.take(k as int))),
        decreases order@.len() - k,
    {
        let at: usize = order[k];
        let slot: usize = n - 1 - at;
        proof {
            assert(left@[n - 1 - at] == Some(source[at as int]));
        }
        let ghost before = left@;
        left.push(None);
        let taken = left.swap_remove(slot);
        proof {
            assert(taken == Some(source[at as int]));
            assert forall|i: int|
                0 <= i < n && (forall|j: int|
                    0 <= j < k + 1 ==> order@[j] != i) implies left@[n - 1 - i] == Some(
                #[trigger] source[i],
            ) by {
                assert(order@[k as int] != i);
                assert(left@[n - 1 - i] == before[n - 1 - i]);
            }
        }
        match taken {
            Some(item) => {
                let ghost was = out@;
                out.push(item);
                proof {
                    assert(ints(order@.take(k + 1)) =~= ints(order@.take(k as int)).push(
                        at as int,
                    ));
                    assert(reordered(source, ints(order@.take(k + 1))) =~= was.push(
                        source[at as int],
                    ));
                }
            },
            None => {},
        }
        k = k + 1;
    }
    proof {
        assert(order@.take(k as int) =~= order@);
    }
    out
}

} // verus!
