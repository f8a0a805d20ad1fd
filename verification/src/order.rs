//! Sorting that keeps equal items in the order in which they came.

use vstd::prelude::*;

verus! {

/// The places of items in the order of their keys. Of two items with one key
/// the earlier one comes first.
pub open spec fn is_order(keys: Seq<i64>, order: Seq<usize>) -> bool {
    &&& order.len() == keys.len()
    &&& forall|i: int| 0 <= i < order.len() ==> #[trigger] order[i] < keys.len()
    &&& forall|i: int, j: int|
        0 <= i < j < order.len() ==> goes_before(keys, #[trigger] order[i], #[trigger] order[j])
}

/// The item at one place goes before the item at another.
pub open spec fn goes_before(keys: Seq<i64>, a: usize, b: usize) -> bool {
    keys[a as int] < keys[b as int] || (keys[a as int] == keys[b as int] && a < b)
}

pub fn stable_order(keys: &Vec<i64>) -> (order: Vec<usize>)
    ensures
        is_order(keys@, order@),
{
    let mut order: Vec<usize> = Vec::new();
    let mut k: usize = 0;
    while k < keys.len()
        invariant
            k <= keys.len(),
            order.len() == k,
            forall|i: int| 0 <= i < k ==> #[trigger] order@[i] < k,
            forall|i: int, j: int|
                0 <= i < j < k ==> goes_before(keys@, #[trigger] order@[i], #[trigger] order@[j]),
        decreases keys.len() - k,
    {
        let mut p: usize = 0;
        while p < k && keys[order[p]] <= keys[k]
            invariant
                p <= k < keys.len(),
                order.len() == k,
                forall|i: int| 0 <= i < k ==> #[trigger] order@[i] < k,
                forall|i: int| 0 <= i < p ==> keys@[#[trigger] order@[i] as int] <= keys@[k as int],
            decreases k - p,
        {
            p += 1;
        }
        let ghost before = order@;
        order.insert(p, k);
        proof {
            assert(order@ == before.insert(p as int, k));
            assert forall|i: int, j: int| 0 <= i < j < k + 1 implies goes_before(
                keys@,
                #[trigger] order@[i],
                #[trigger] order@[j],
            ) by {
                let a = if i < p { i } else { i - 1 };
                let b = if j < p { j } else { j - 1 };
                if i != p && j != p {
                    assert(order@[i] == before[a]);
                    assert(order@[j] == before[b]);
                } else if i == p {
                    assert(order@[j] == before[j - 1]);
                    assert(p < k);
                    if j - 1 > p {
                        assert(goes_before(keys@, before[p as int], before[j - 1]));
                    }
                } else {
                    assert(order@[i] == before[i]);
                }
            }
        }
        k += 1;
    }
    order
}

/// There is only one such order.
pub proof fn order_is_unique(keys: Seq<i64>, a: Seq<usize>, b: Seq<usize>)
    requires
        is_order(keys, a),
        is_order(keys, b),
    ensures
        a == b,
{
    every_place_occurs(keys, a);
    every_place_occurs(keys, b);
    if a != b {
        assert(a.len() == b.len());
        let d = first_difference(a, b, 0);
        first_difference_is_first(a, b, 0);
        assert(d < a.len()) by {
            if d == a.len() {
                assert(a =~= b);
            }
        }
        let i = choose|i: int| 0 <= i < b.len() && b[i] == a[d];
        assert(occurs(b, a[d] as int));
        let j = choose|j: int| 0 <= j < a.len() && a[j] == b[d];
        assert(occurs(a, b[d] as int));
        if i < d {
            assert(a[i] == b[i]);
            assert(goes_before(keys, a[i], a[d]));
        }
        if j < d {
            assert(a[j] == b[j]);
            assert(goes_before(keys, b[j], b[d]));
        }
        assert(i > d && j > d);
        assert(goes_before(keys, b[d], b[i]));
        assert(goes_before(keys, a[d], a[j]));
    }
}

spec fn occurs(s: Seq<usize>, v: int) -> bool {
    exists|i: int| 0 <= i < s.len() && s[i] == v
}

spec fn first_difference(a: Seq<usize>, b: Seq<usize>, from: int) -> int
    decreases a.len() - from,
{
    if from >= a.len() || a[from] != b[from] {
        from
    } else {
        first_difference(a, b, from + 1)
    }
}

proof fn first_difference_is_first(a: Seq<usize>, b: Seq<usize>, from: int)
    requires
        a.len() == b.len(),
        0 <= from <= a.len(),
        forall|i: int| 0 <= i < from ==> a[i] == b[i],
    ensures
        ({
            let d = first_difference(a, b, from);
            &&& from <= d <= a.len()
            &&& forall|i: int| 0 <= i < d ==> a[i] == b[i]
            &&& d < a.len() ==> a[d] != b[d]
        }),
    decreases a.len() - from,
{
    if from < a.len() && a[from] == b[from] {
        first_difference_is_first(a, b, from + 1);
    }
}

/// No item is left out.
pub proof fn every_place_has_its_turn(keys: Seq<i64>, order: Seq<usize>, i: int)
    requires
        is_order(keys, order),
        0 <= i < keys.len(),
    ensures
        exists|k: int| 0 <= k < order.len() && order[k] == i,
{
    every_place_occurs(keys, order);
    assert(occurs(order, i));
}

/// As many different places as there are leave none out.
proof fn every_place_occurs(keys: Seq<i64>, order: Seq<usize>)
    requires
        is_order(keys, order),
    ensures
        forall|v: int| 0 <= v < keys.len() ==> #[trigger] occurs(order, v),
{
    assert(order.no_duplicates()) by {
        assert forall|i: int, j: int|
            0 <= i < order.len() && 0 <= j < order.len() && i != j implies order[i]
            != order[j] by {
            if i < j {
                assert(goes_before(keys, order[i], order[j]));
            } else {
                assert(goes_before(keys, order[j], order[i]));
            }
        }
    }
    let ints = order.map_values(|v: usize| v as int);
    assert(ints.no_duplicates());
    ints.unique_seq_to_set();
    let all = vstd::set_lib::set_int_range(0, keys.len() as int);
    vstd::set_lib::lemma_int_range(0, keys.len() as int);
    assert(ints.to_set().subset_of(all));
    vstd::set_lib::lemma_subset_equality(ints.to_set(), all);
    assert forall|v: int| 0 <= v < keys.len() implies #[trigger] occurs(order, v) by {
        assert(all.contains(v));
        assert(ints.to_set().contains(v));
        let i = choose|i: int| 0 <= i < ints.len() && ints[i] == v;
        assert(order[i] == v);
    }
}

/// An order goes up by the keys, keeps items with one key as they came, and
/// names no item twice.
pub proof fn orders_go_up(keys: Seq<i64>, order: Seq<usize>, i: int, j: int)
    requires
        is_order(keys, order),
        0 <= i < j < keys.len(),
    ensures
        order.len() == keys.len(),
        keys[order[i] as int] <= keys[order[j] as int],
        keys[order[i] as int] == keys[order[j] as int] ==> order[i] < order[j],
        order[i] != order[j],
{
    assert(goes_before(keys, order[i], order[j]));
}

} // verus!
