//! Stable ordering of items by a timestamp, as `sort_by_key` and `sort_by`
//! with a reversed comparison leave them.

use vstd::prelude::*;

verus! {

/// Item `a` comes before item `b`: its key is greater (newest first) or
/// smaller (oldest first), and ties keep the original order.
pub open spec fn comes_before(keys: Seq<u128>, a: int, b: int, newest_first: bool) -> bool {
    if newest_first {
        keys[a] > keys[b] || (keys[a] == keys[b] && a < b)
    } else {
        keys[a] < keys[b] || (keys[a] == keys[b] && a < b)
    }
}

/// `order` lists the indices `0..keys.len()` sorted stably by key.
pub open spec fn is_stable_order(keys: Seq<u128>, order: Seq<usize>, newest_first: bool) -> bool {
    &&& order.len() == keys.len()
    &&& forall|k: int| 0 <= k < order.len() ==> #[trigger] order[k] < keys.len()
    &&& forall|p: int, q: int|
        0 <= p < q < order.len() ==> comes_before(keys, #[trigger] order[p] as int, #[trigger] order[q] as int, newest_first)
}

/// A new item with key `k` goes before an earlier item with key `other`.
fn goes_before(k: u128, other: u128, newest_first: bool) -> (r: bool)
    ensures
        r == (if newest_first { k > other } else { k < other }),
{
    if newest_first { k > other } else { k < other }
}

/// The indices of `keys` in stable sorted order: newest (greatest key)
/// first, or oldest first; equal keys keep their order.
pub fn stable_order(keys: &Vec<u128>, newest_first: bool) -> (order: Vec<usize>)
    ensures
        is_stable_order(keys@, order@, newest_first),
{
    let mut order: Vec<usize> = Vec::new();
    let mut i: usize = 0;
    while i < keys.len()
        invariant
            i <= keys@.len(),
            order@.len() == i,
            forall|k: int| 0 <= k < order@.len() ==> #[trigger] order@[k] < i,
            forall|p: int, q: int|
                0 <= p < q < order@.len() ==> comes_before(keys@, #[trigger] order@[p] as int, #[trigger] order@[q] as int, newest_first),
        decreases keys.len() - i,
    {
        let ki = keys[i];
        let mut pos: usize = 0;
        while pos < order.len() && !goes_before(ki, keys[order[pos]], newest_first)
            invariant
                pos <= order@.len(),
                i < keys@.len(),
                ki == keys@[i as int],
                forall|k: int| 0 <= k < order@.len() ==> #[trigger] order@[k] < i,
                forall|p: int| 0 <= p < pos ==> comes_before(keys@, #[trigger] order@[p] as int, i as int, newest_first),
            decreases order.len() - pos,
        {
            pos = pos + 1;
        }
        let ghost old_order = order@;
        proof {
            if pos < old_order.len() {
                assert(!comes_before(keys@, old_order[pos as int] as int, i as int, newest_first)
                    || comes_before(keys@, i as int, old_order[pos as int] as int, newest_first));
                assert forall|q: int| pos <= q < old_order.len() implies comes_before(
                    keys@,
                    i as int,
                    #[trigger] old_order[q] as int,
                    newest_first,
                ) by {
                    if q > pos {
                        assert(comes_before(keys@, old_order[pos as int] as int, old_order[q] as int, newest_first));
                    }
                }
            }
        }
        order.insert(pos, i);
        proof {
            assert forall|k: int| 0 <= k < order@.len() implies #[trigger] order@[k] < i + 1 by {
                if k < pos {
                    assert(order@[k] == old_order[k]);
                } else if k > pos {
                    assert(order@[k] == old_order[k - 1]);
                }
            }
            assert forall|p: int, q: int| 0 <= p < q < order@.len() implies comes_before(
                keys@,
                #[trigger] order@[p] as int,
                #[trigger] order@[q] as int,
                newest_first,
            ) by {
                if p < pos && q < pos {
                    assert(order@[p] == old_order[p] && order@[q] == old_order[q]);
                } else if p < pos && q == pos {
                    assert(order@[p] == old_order[p]);
                } else if p < pos && q > pos {
                    assert(order@[p] == old_order[p] && order@[q] == old_order[q - 1]);
                } else if p == pos {
                    assert(order@[q] == old_order[q - 1]);
                } else {
                    assert(order@[p] == old_order[p - 1] && order@[q] == old_order[q - 1]);
                }
            }
        }
        i = i + 1;
    }
    order
}


/// A stable order lists each item once: no index appears twice.
pub proof fn law_stable_order_lists_each_once(keys: Seq<u128>, order: Seq<usize>, newest_first: bool)
    requires
        is_stable_order(keys, order, newest_first),
    ensures
        forall|p: int, q: int| 0 <= p < q < order.len() ==> order[p] != order[q],
{
    assert forall|p: int, q: int| 0 <= p < q < order.len() implies order[p] != order[q] by {
        assert(comes_before(keys, order[p] as int, order[q] as int, newest_first));
    }
}


/// The first `n` items of a newest-first order are the `n` newest: every
/// item after them is no newer than any of them, and none is listed twice.
/// (So a selection that keeps the first `max` of the order keeps the `max`
/// newest.)
pub proof fn law_newest_first_prefix_is_newest(keys: Seq<u128>, order: Seq<usize>, n: int)
    requires
        is_stable_order(keys, order, true),
        0 <= n <= order.len(),
    ensures
        forall|k: int, j: int|
            0 <= k < n <= j < order.len() ==> keys[#[trigger] order[j] as int] <= keys[#[trigger] order[k] as int],
        forall|p: int, q: int| 0 <= p < q < order.len() ==> order[p] != order[q],
{
    assert forall|k: int, j: int| 0 <= k < n <= j < order.len() implies keys[#[trigger] order[j] as int]
        <= keys[#[trigger] order[k] as int] by {
        assert(comes_before(keys, order[k] as int, order[j] as int, true));
    }
    law_stable_order_lists_each_once(keys, order, true);
}

} // verus!
