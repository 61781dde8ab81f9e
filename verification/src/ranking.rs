//! Ranking of rows by a metric, greatest first.
//!
//! Rows are ranked by position: the ranking of a list of metrics is the list
//! of their positions, ordered by metric from the greatest down, rows of equal
//! metric in the order in which they stand.

use vstd::prelude::*;

verus! {

/// The first place in `order` whose metric is less than `r`, or the length of
/// `order` where there is none.
pub open spec fn slot(ranks: Seq<i128>, order: Seq<usize>, r: i128) -> nat
    decreases order.len(),
{
    if order.len() == 0 {
        0
    } else if ranks[order[0] as int] < r {
        0
    } else {
        1 + slot(ranks, order.skip(1), r)
    }
}

/// The positions of `ranks`, by metric from the greatest down; positions of
/// equal metric ascend.
pub open spec fn descending_order(ranks: Seq<i128>) -> Seq<usize>
    decreases ranks.len(),
{
    if ranks.len() == 0 {
        Seq::empty()
    } else {
        let init = descending_order(ranks.drop_last());
        init.insert(slot(ranks, init, ranks.last()) as int, (ranks.len() - 1) as usize)
    }
}

/// The first `limit` positions of the ranking, or all of them where there
/// are fewer.
pub open spec fn top(ranks: Seq<i128>, limit: nat) -> Seq<usize> {
    if limit < ranks.len() {
        descending_order(ranks).take(limit as int)
    } else {
        descending_order(ranks)
    }
}

/// Whether `order` lists positions of `ranks` by metric from the greatest
/// down, positions of equal metric ascending.
pub open spec fn is_descending(ranks: Seq<i128>, order: Seq<usize>) -> bool {
    &&& forall|a: int| 0 <= a < order.len() ==> (#[trigger] order[a]) < ranks.len()
    &&& forall|a: int, b: int|
        0 <= a < b < order.len() ==> {
            ||| ranks[#[trigger] order[a] as int] > ranks[#[trigger] order[b] as int]
            ||| (ranks[order[a] as int] == ranks[order[b] as int] && order[a] < order[b])
        }
}

/// Everything before the slot has a metric of at least `r`; what stands at
/// the slot has less.
pub proof fn slot_splits(ranks: Seq<i128>, order: Seq<usize>, r: i128)
    ensures
        slot(ranks, order, r) <= order.len(),
        forall|h: int| 0 <= h < slot(ranks, order, r) ==> ranks[#[trigger] order[h] as int] >= r,
        slot(ranks, order, r) < order.len() ==> ranks[order[slot(ranks, order, r) as int] as int]
            < r,
    decreases order.len(),
{
    if order.len() > 0 && !(ranks[order[0] as int] < r) {
        let rest = order.skip(1);
        slot_splits(ranks, rest, r);
        assert forall|h: int| 0 <= h < slot(ranks, order, r) implies ranks[#[trigger] order[h] as int]
            >= r by {
            if h > 0 {
                assert(order[h] == rest[h - 1]);
            }
        }
        if slot(ranks, order, r) < order.len() {
            assert(order[slot(ranks, order, r) as int] == rest[slot(ranks, rest, r) as int]);
        }
    }
}

/// The slot depends on the metrics of the listed positions only.
pub proof fn slot_of_prefix(ranks: Seq<i128>, n: int, order: Seq<usize>, r: i128)
    requires
        0 <= n <= ranks.len(),
        forall|h: int| 0 <= h < order.len() ==> (#[trigger] order[h]) < n,
    ensures
        slot(ranks.take(n), order, r) == slot(ranks, order, r),
    decreases order.len(),
{
    if order.len() > 0 {
        assert(order[0] < n);
        let rest = order.skip(1);
        assert forall|h: int| 0 <= h < rest.len() implies (#[trigger] rest[h]) < n by {
            assert(rest[h] == order[h + 1]);
        }
        slot_of_prefix(ranks, n, rest, r);
    }
}

/// The ranking lists every position exactly once, by metric from the
/// greatest down, positions of equal metric ascending.
pub proof fn descending_order_sorts(ranks: Seq<i128>)
    requires
        ranks.len() <= usize::MAX,
    ensures
        descending_order(ranks).len() == ranks.len(),
        descending_order(ranks).no_duplicates(),
        is_descending(ranks, descending_order(ranks)),
    decreases ranks.len(),
{
    if ranks.len() > 0 {
        let front = ranks.drop_last();
        let init = descending_order(front);
        let last = (ranks.len() - 1) as usize;
        let r = ranks.last();
        descending_order_sorts(front);
        assert forall|h: int| 0 <= h < init.len() implies (#[trigger] init[h]) < front.len() by {}
        assert(front =~= ranks.take(front.len() as int));
        let p = slot(ranks, init, r) as int;
        slot_splits(ranks, init, r);
        let order = descending_order(ranks);
        assert(order == init.insert(p, last));
        assert forall|h: int| p <= h < init.len() implies ranks[#[trigger] init[h] as int] < r by {
            if h > p {
                assert(ranks[init[p] as int] == front[init[p] as int]);
                assert(ranks[init[h] as int] == front[init[h] as int]);
            }
        }
        assert forall|a: int, b: int| 0 <= a < b < order.len() implies {
            ||| ranks[#[trigger] order[a] as int] > ranks[#[trigger] order[b] as int]
            ||| (ranks[order[a] as int] == ranks[order[b] as int] && order[a] < order[b])
        } by {
            let ia = if a < p { a } else { a - 1 };
            let ib = if b < p { b } else { b - 1 };
            if a != p && b != p {
                assert(order[a] == init[ia] && order[b] == init[ib]);
                assert(ranks[init[ia] as int] == front[init[ia] as int]);
                assert(ranks[init[ib] as int] == front[init[ib] as int]);
            } else if a == p {
                assert(order[b] == init[ib]);
            } else {
                assert(order[a] == init[ia]);
            }
        }
        assert forall|a: int, b: int|
            0 <= a < order.len() && 0 <= b < order.len() && a != b implies order[a] != order[b] by {
            let ia = if a < p { a } else { a - 1 };
            let ib = if b < p { b } else { b - 1 };
            if a != p && b != p {
                assert(order[a] == init[ia] && order[b] == init[ib]);
            } else if a == p {
                assert(order[b] == init[ib]);
            } else {
                assert(order[a] == init[ia]);
            }
        }
    }
}

/// Ranks the positions of `ranks` by metric, greatest first.
pub fn rank_descending(ranks: &Vec<i128>) -> (order: Vec<usize>)
    ensures
        order@ == descending_order(ranks@),
{
    let mut order: Vec<usize> = Vec::new();
    let mut i: usize = 0;
    proof {
        assert(ranks@.take(0) =~= Seq::<i128>::empty());
    }
    while i < ranks.len()
        invariant
            0 <= i <= ranks@.len(),
            order@ == descending_order(ranks@.take(i as int)),
            order@.len() == i,
            forall|h: int| 0 <= h < order@.len() ==> (#[trigger] order@[h]) < i,
        decreases ranks@.len() - i,
    {
        let r = ranks[i];
        let ghost prefix = ranks@.take(i + 1);
        let ghost init = order@;
        let mut p: usize = 0;
        proof {
            assert(init.skip(0) =~= init);
        }
        while p < order.len() && ranks[order[p]] >= r
            invariant
                0 <= p <= order@.len(),
                order@ == init,
                i < ranks@.len(),
                forall|h: int| 0 <= h < init.len() ==> (#[trigger] init[h]) < i,
                slot(ranks@, init, r) == p + slot(ranks@, init.skip(p as int), r),
            decreases order@.len() - p,
        {
            proof {
                assert(init.skip(p as int)[0] == init[p as int]);
                assert(init.skip(p as int).skip(1) =~= init.skip(p + 1));
            }
            p += 1;
        }
        proof {
            if p < order@.len() {
                assert(init.skip(p as int)[0] == init[p as int]);
            }
            assert(slot(ranks@, init, r) == p);
            slot_of_prefix(ranks@, i + 1, init, r);
            assert(prefix.drop_last() =~= ranks@.take(i as int));
            assert(prefix.last() == r);
        }
        order.insert(p, i);
        i += 1;
    }
    proof {
        assert(ranks@.take(ranks@.len() as int) =~= ranks@);
    }
    order
}

/// The first `limit` positions of the ranking of `ranks`.
pub fn rank_top(ranks: &Vec<i128>, limit: usize) -> (order: Vec<usize>)
    ensures
        order@ == top(ranks@, limit as nat),
{
    let mut order = rank_descending(ranks);
    let n = ranks.len();
    proof {
        descending_order_sorts(ranks@);
    }
    if limit < n {
        order.truncate(limit);
    }
    order
}

} // verus!
