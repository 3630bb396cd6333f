//! The order in which ways are drawn: by z-index, ties by position.

use vstd::prelude::*;

verus! {

/// Whether the way at position `a` is drawn before the way at position `b`: its
/// z-index is smaller, or the z-indices are equal and `a` comes first.
pub open spec fn drawn_before(z_indices: Seq<i32>, a: usize, b: usize) -> bool {
    z_indices[a as int] < z_indices[b as int] || (z_indices[a as int] == z_indices[b as int] && a
        < b)
}

/// Whether `order` lists the positions of `z_indices` in drawing order: each
/// position once, ascending by z-index, and where z-indices are equal in the
/// order of the positions themselves.
pub open spec fn is_draw_order(order: Seq<usize>, z_indices: Seq<i32>) -> bool {
    &&& order.len() == z_indices.len()
    &&& forall|i: int| 0 <= i < order.len() ==> (#[trigger] order[i]) < z_indices.len()
    &&& order.no_duplicates()
    &&& forall|i: int, j: int|
        0 <= i < j < order.len() ==> drawn_before(z_indices, #[trigger] order[i], #[trigger] order[j])
}

/// Whether `order` lists the positions from `from` up to `to` in drawing order.
pub open spec fn is_draw_order_of_range(
    order: Seq<usize>,
    z_indices: Seq<i32>,
    from: int,
    to: int,
) -> bool {
    &&& order.len() == to - from
    &&& forall|i: int| 0 <= i < order.len() ==> from <= (#[trigger] order[i]) < to
    &&& forall|i: int, j: int|
        0 <= i < j < order.len() ==> drawn_before(z_indices, #[trigger] order[i], #[trigger] order[j])
}

/// Merges the drawing orders of two ranges of positions that follow one
/// another into the drawing order of both.
fn merge_orders(
    z_indices: &Vec<i32>,
    left: &Vec<usize>,
    right: &Vec<usize>,
    Ghost(from): Ghost<int>,
    Ghost(middle): Ghost<int>,
    Ghost(to): Ghost<int>,
) -> (merged: Vec<usize>)
    requires
        0 <= from <= middle <= to <= z_indices.len(),
        is_draw_order_of_range(left@, z_indices@, from, middle),
        is_draw_order_of_range(right@, z_indices@, middle, to),
    ensures
        is_draw_order_of_range(merged@, z_indices@, from, to),
{
    let mut merged: Vec<usize> = Vec::new();
    let mut i: usize = 0;
    let mut j: usize = 0;
    while i < left.len() || j < right.len()
        invariant
            0 <= from <= middle <= to <= z_indices.len(),
            is_draw_order_of_range(left@, z_indices@, from, middle),
            is_draw_order_of_range(right@, z_indices@, middle, to),
            i <= left.len(),
            j <= right.len(),
            merged.len() == i + j,
            forall|k: int| 0 <= k < merged.len() ==> from <= (#[trigger] merged@[k]) < to,
            forall|a: int, b: int|
                0 <= a < b < merged.len() ==> drawn_before(
                    z_indices@,
                    #[trigger] merged@[a],
                    #[trigger] merged@[b],
                ),
            forall|k: int|
                0 <= k < merged.len() && i < left.len() ==> drawn_before(
                    z_indices@,
                    #[trigger] merged@[k],
                    left@[i as int],
                ),
            forall|k: int|
                0 <= k < merged.len() && j < right.len() ==> drawn_before(
                    z_indices@,
                    #[trigger] merged@[k],
                    right@[j as int],
                ),
        decreases left.len() - i + right.len() - j,
    {
        // among equal z-indices the left one comes first: it has the smaller position
        let take_left = if i < left.len() && j < right.len() {
            assert(left@[i as int] < middle <= right@[j as int]);
            z_indices[left[i]] <= z_indices[right[j]]
        } else {
            i < left.len()
        };
        let ghost before = merged@;
        if take_left {
            let next = left[i];
            merged.push(next);
            proof {
                if i + 1 < left.len() {
                    assert(drawn_before(z_indices@, left@[i as int], left@[i + 1]));
                }
                assert forall|k: int|
                    0 <= k < merged.len() && i + 1 < left.len() implies drawn_before(
                    z_indices@,
                    #[trigger] merged@[k],
                    left@[i + 1],
                ) by {
                    if k < before.len() {
                        assert(drawn_before(z_indices@, before[k], left@[i as int]));
                    }
                }
            }
            i = i + 1;
        } else {
            let next = right[j];
            merged.push(next);
            proof {
                if j + 1 < right.len() {
                    assert(drawn_before(z_indices@, right@[j as int], right@[j + 1]));
                }
                assert forall|k: int|
                    0 <= k < merged.len() && j + 1 < right.len() implies drawn_before(
                    z_indices@,
                    #[trigger] merged@[k],
                    right@[j + 1],
                ) by {
                    if k < before.len() {
                        assert(drawn_before(z_indices@, before[k], right@[j as int]));
                    }
                }
            }
            j = j + 1;
        }
    }
    merged
}

/// The drawing order of the positions from `from` up to `to`, by a merge sort.
fn draw_order_of_range(z_indices: &Vec<i32>, from: usize, to: usize) -> (order: Vec<usize>)
    requires
        from <= to <= z_indices.len(),
    ensures
        is_draw_order_of_range(order@, z_indices@, from as int, to as int),
    decreases to - from,
{
    let mut order: Vec<usize> = Vec::new();
    if to - from == 0 {
        return order;
    }
    if to - from == 1 {
        order.push(from);
        return order;
    }
    let middle = from + (to - from) / 2;
    let left = draw_order_of_range(z_indices, from, middle);
    let right = draw_order_of_range(z_indices, middle, to);
    merge_orders(
        z_indices,
        &left,
        &right,
        Ghost(from as int),
        Ghost(middle as int),
        Ghost(to as int),
    )
}

/// The drawing order for the given z-indices: a stable ascending sort.
pub fn draw_order(z_indices: &Vec<i32>) -> (order: Vec<usize>)
    ensures
        is_draw_order(order@, z_indices@),
{
    let order = draw_order_of_range(z_indices, 0, z_indices.len());
    proof {
        assert forall|a: int, b: int|
            0 <= a < order@.len() && 0 <= b < order@.len() && a != b implies order@[a]
            != order@[b] by {
            if a < b {
                assert(drawn_before(z_indices@, order@[a], order@[b]));
            } else {
                assert(drawn_before(z_indices@, order@[b], order@[a]));
            }
        }
    }
    order
}

/// A drawing order holds every position.
pub proof fn lemma_draw_order_holds_all(order: Seq<usize>, z_indices: Seq<i32>, position: usize)
    requires
        is_draw_order(order, z_indices),
        position < z_indices.len(),
    ensures
        order.contains(position),
{
    let count = z_indices.len() as int;
    let all = vstd::set_lib::set_int_range(0, count);
    vstd::set_lib::lemma_int_range(0, count);
    let positions = Seq::new(order.len(), |i: int| order[i] as int);
    assert(positions.no_duplicates()) by {
        assert forall|i: int, j: int|
            0 <= i < positions.len() && 0 <= j < positions.len() && i != j implies positions[i]
            != positions[j] by {
            assert(order[i] != order[j]);
        }
    }
    positions.unique_seq_to_set();
    assert forall|k: int| positions.to_set().contains(k) implies all.contains(k) by {
        let i = choose|i: int| 0 <= i < positions.len() && positions[i] == k;
        assert(order[i] < z_indices.len());
    }
    vstd::set_lib::lemma_subset_equality(positions.to_set(), all);
    assert(all.contains(position as int));
    assert(positions.contains(position as int));
    let at = choose|i: int| 0 <= i < positions.len() && positions[i] == position as int;
    assert(order[at] == position);
}

proof fn lemma_draw_orders_agree(
    first: Seq<usize>,
    second: Seq<usize>,
    z_indices: Seq<i32>,
    upto: int,
)
    requires
        is_draw_order(first, z_indices),
        is_draw_order(second, z_indices),
        0 <= upto <= z_indices.len(),
    ensures
        forall|i: int| 0 <= i < upto ==> first[i] == second[i],
    decreases upto,
{
    if upto > 0 {
        lemma_draw_orders_agree(first, second, z_indices, upto - 1);
        let i = upto - 1;
        let a = first[i];
        let b = second[i];
        if a != b {
            lemma_draw_order_holds_all(second, z_indices, a);
            lemma_draw_order_holds_all(first, z_indices, b);
            let in_second = choose|j: int| 0 <= j < second.len() && second[j] == a;
            let in_first = choose|j: int| 0 <= j < first.len() && first[j] == b;
            if in_second < i {
                assert(first[in_second] == second[in_second]);
            }
            if in_first < i {
                assert(second[in_first] == first[in_first]);
            }
            // each of the two comes before the other
            assert(drawn_before(z_indices, second[i], second[in_second]));
            assert(drawn_before(z_indices, first[i], first[in_first]));
        }
    }
}

/// The z-indices decide the drawing order: there is one at most.
pub proof fn law_draw_order_unique(first: Seq<usize>, second: Seq<usize>, z_indices: Seq<i32>)
    requires
        is_draw_order(first, z_indices),
        is_draw_order(second, z_indices),
    ensures
        first == second,
{
    lemma_draw_orders_agree(first, second, z_indices, z_indices.len() as int);
    assert(first =~= second);
}

} // verus!
