//! The outline index: the stroked pixels of a way, by scanline, and the tests
//! that decide where its interior lies.

use std::collections::{BTreeSet, HashMap};
use vstd::prelude::*;

verus! {

/// The pixels that an outline index holds: `(x, y)` for each column `x` that is
/// recorded on row `y`.
pub open spec fn outlined(outline: Map<u32, BTreeSet<u32>>) -> Set<(u32, u32)> {
    Set::new(|p: (u32, u32)| outline.contains_key(p.1) && outline[p.1]@.contains(p.0))
}

/// The inside test: the point is no outline pixel, and on its row some outline
/// pixel lies to its left and some to its right. That is, it lies strictly
/// between the smallest and the largest outline column of its row.
pub open spec fn inside(pixels: Set<(u32, u32)>, p: (u32, u32)) -> bool {
    &&& !pixels.contains(p)
    &&& exists|a: u32| outline_left_of(pixels, a, p)
    &&& exists|b: u32| outline_right_of(pixels, b, p)
}

/// Whether column `a` of the row of `p` is an outline pixel left of `p`.
pub open spec fn outline_left_of(pixels: Set<(u32, u32)>, a: u32, p: (u32, u32)) -> bool {
    a < p.0 && pixels.contains((a, p.1))
}

/// Whether column `b` of the row of `p` is an outline pixel right of `p`.
pub open spec fn outline_right_of(pixels: Set<(u32, u32)>, b: u32, p: (u32, u32)) -> bool {
    p.0 < b && pixels.contains((b, p.1))
}

/// Whether the outline of row `y` breaks off right after column `x`: `x` is an
/// outline pixel, its right neighbour is not, and the outline goes on further
/// right.
pub open spec fn gap_after(pixels: Set<(u32, u32)>, x: u32, y: u32) -> bool {
    &&& pixels.contains((x, y))
    &&& x < u32::MAX
    &&& !pixels.contains(((x + 1) as u32, y))
    &&& exists|b: u32| outline_right_of(pixels, b, (x, y))
}

/// Whether `seed` is where the interior search ends: right of the first gap of
/// the first row with a gap, among the rows from `min_y` to `max_y`.
pub open spec fn is_seed(pixels: Set<(u32, u32)>, min_y: u32, max_y: u32, seed: (u32, u32)) -> bool {
    &&& min_y <= seed.1 <= max_y
    &&& seed.0 > 0
    &&& gap_after(pixels, (seed.0 - 1) as u32, seed.1)
    &&& forall|x: u32| x < seed.0 - 1 ==> !gap_after(pixels, x, seed.1)
    &&& forall|x: u32, y: u32| min_y <= y < seed.1 ==> !gap_after(pixels, x, y)
}

/// The point right of a gap passes the inside test.
pub proof fn lemma_seed_is_inside(pixels: Set<(u32, u32)>, x: u32, y: u32)
    requires
        gap_after(pixels, x, y),
    ensures
        inside(pixels, ((x + 1) as u32, y)),
{
    let b = choose|b: u32| outline_right_of(pixels, b, (x, y));
    let seed = ((x + 1) as u32, y);
    assert(outline_left_of(pixels, x, seed));
    assert(outline_right_of(pixels, b, seed));
}

/// The interior search has one answer at most.
pub proof fn lemma_seed_unique(
    pixels: Set<(u32, u32)>,
    min_y: u32,
    max_y: u32,
    first: (u32, u32),
    second: (u32, u32),
)
    requires
        is_seed(pixels, min_y, max_y, first),
        is_seed(pixels, min_y, max_y, second),
    ensures
        first == second,
{
    if first.1 < second.1 {
        assert(!gap_after(pixels, (first.0 - 1) as u32, first.1));
    } else if second.1 < first.1 {
        assert(!gap_after(pixels, (second.0 - 1) as u32, second.1));
    } else if first.0 < second.0 {
        assert(!gap_after(pixels, (first.0 - 1) as u32, second.1));
    } else if second.0 < first.0 {
        assert(!gap_after(pixels, (second.0 - 1) as u32, first.1));
    }
}

/// A pixel that passes the inside test lies on every canvas that holds the
/// outline.
pub proof fn lemma_inside_on_canvas(
    pixels: Set<(u32, u32)>,
    p: (u32, u32),
    columns: u32,
    rows: u32,
)
    requires
        inside(pixels, p),
        forall|q: (u32, u32)| #[trigger] pixels.contains(q) ==> q.0 < columns && q.1 < rows,
    ensures
        p.0 < columns,
        p.1 < rows,
{
    let b = choose|b: u32| outline_right_of(pixels, b, p);
    assert(pixels.contains((b, p.1)));
}

/// The smallest column of a row, with `BTreeSet::first`: it is in the row and
/// no column of the row is smaller; `None` exactly for an empty row.
#[verifier::external_body]
fn first_column(row: &BTreeSet<u32>) -> (first: Option<u32>)
    ensures
        match first {
            Some(column) => row@.contains(column) && forall|other: u32|
                row@.contains(other) ==> column <= other,
            None => forall|other: u32| !row@.contains(other),
        },
{
    row.first().copied()
}

/// The largest column of a row, with `BTreeSet::last`: it is in the row and no
/// column of the row is larger; `None` exactly for an empty row.
#[verifier::external_body]
fn last_column(row: &BTreeSet<u32>) -> (last: Option<u32>)
    ensures
        match last {
            Some(column) => row@.contains(column) && forall|other: u32|
                row@.contains(other) ==> other <= column,
            None => forall|other: u32| !row@.contains(other),
        },
{
    row.last().copied()
}

/// Records the pixel `(x, y)` in the outline index.
pub fn record_pixel(outline: &mut HashMap<u32, BTreeSet<u32>>, x: u32, y: u32)
    ensures
        outlined(final(outline)@) == outlined(old(outline)@).insert((x, y)),
{
    broadcast use vstd::std_specs::hash::group_hash_axioms;
    broadcast use vstd::std_specs::btree::group_btree_axioms;

    let row = outline.entry(y).or_insert(BTreeSet::new());
    row.insert(x);
    assert(outlined(outline@) =~= outlined(old(outline)@).insert((x, y))) by {
        assert forall|p: (u32, u32)|
            outlined(outline@).contains(p) == outlined(old(outline)@).insert((x, y)).contains(
                p,
            ) by {
            if p.1 == y {
                if old(outline)@.contains_key(y) {
                    assert(outline@[y]@ == old(outline)@[y]@.insert(x));
                } else {
                    assert(outline@[y]@ == Set::<u32>::empty().insert(x));
                }
            } else {
                assert(outline@.contains_key(p.1) == old(outline)@.contains_key(p.1));
                if outline@.contains_key(p.1) {
                    assert(outline@[p.1] == old(outline)@[p.1]);
                }
            }
        }
    }
}

/// Whether the outline index holds the pixel `(x, y)`.
pub fn holds_pixel(outline: &HashMap<u32, BTreeSet<u32>>, x: u32, y: u32) -> (held: bool)
    ensures
        held == outlined(outline@).contains((x, y)),
{
    broadcast use vstd::std_specs::hash::group_hash_axioms;
    broadcast use vstd::std_specs::btree::group_btree_axioms;

    match outline.get(&y) {
        Some(row) => row.contains(&x),
        None => false,
    }
}

/// Determines whether the given point is inside the outline given by
/// `outline_pixels`: strictly between the leftmost and the rightmost outline
/// pixel of its row, and not on the outline itself.
pub fn is_inside(image_point: &(u32, u32), outline_pixels: &HashMap<u32, BTreeSet<u32>>) -> (is_in:
    bool)
    ensures
        is_in == inside(outlined(outline_pixels@), *image_point),
{
    broadcast use vstd::std_specs::hash::group_hash_axioms;
    broadcast use vstd::std_specs::btree::group_btree_axioms;

    let ghost pixels = outlined(outline_pixels@);
    let x = image_point.0;
    let y = image_point.1;
    match outline_pixels.get(&y) {
        Some(row) => {
            // |   x  |       => is inside
            // |  x           => is not inside
            // x |            => is not inside
            // |  |  x        => is not inside
            // |  | x |     | => is inside: only the outermost outline pixels count
            match (first_column(row), last_column(row)) {
                (Some(first), Some(last)) => {
                    if first < x && x < last {
                        let on_outline = row.contains(&x);
                        proof {
                            assert(outline_left_of(pixels, first, *image_point));
                            assert(outline_right_of(pixels, last, *image_point));
                            assert(pixels.contains((x, y)) == on_outline);
                        }
                        !on_outline
                    } else {
                        proof {
                            if inside(pixels, *image_point) {
                                let a = choose|a: u32| outline_left_of(pixels, a, *image_point);
                                let b = choose|b: u32| outline_right_of(pixels, b, *image_point);
                                assert(row@.contains(a) && row@.contains(b));
                            }
                        }
                        false
                    }
                },
                _ => {
                    proof {
                        if inside(pixels, *image_point) {
                            let a = choose|a: u32| outline_left_of(pixels, a, *image_point);
                            assert(row@.contains(a));
                        }
                    }
                    false
                },
            }
        },
        None => {
            proof {
                if inside(pixels, *image_point) {
                    let a = choose|a: u32| outline_left_of(pixels, a, *image_point);
                    assert(outline_pixels@.contains_key(y));
                }
            }
            false
        },
    }
}

/// Whether two image points lie on one row, exactly one column apart.
pub open spec fn horizontally_adjacent(a: (u32, u32), b: (u32, u32)) -> bool {
    a.1 == b.1 && (a.0 + 1 == b.0 || b.0 + 1 == a.0)
}

pub fn are_image_coordinates_horizontally_next_to_each_other(a: (u32, u32), b: (u32, u32)) -> (next:
    bool)
    ensures
        next == horizontally_adjacent(a, b),
{
    if a.1 != b.1 {
        // not horizontally on the same line
        return false;
    }
    // check if they are next to each other

    if a.0 < b.0 {
        b.0 - a.0 == 1
    } else {
        a.0 - b.0 == 1
    }
}

/// Looks for the first gap in one row; `None` if the row's outline is one
/// unbroken run.
fn row_gap(row: &BTreeSet<u32>, y: u32, Ghost(pixels): Ghost<Set<(u32, u32)>>) -> (gap: Option<u32>)
    requires
        forall|x: u32| #[trigger] row@.contains(x) == pixels.contains((x, y)),
    ensures
        match gap {
            Some(x) => gap_after(pixels, x, y) && forall|other: u32|
                other < x ==> !gap_after(pixels, other, y),
            None => forall|other: u32| !gap_after(pixels, other, y),
        },
{
    broadcast use vstd::std_specs::btree::group_btree_axioms;

    match (first_column(row), last_column(row)) {
        (Some(first), Some(last)) => {
            let mut x: u32 = first;
            while x < last
                invariant
                    first <= x <= last,
                    row@.contains(first),
                    row@.contains(last),
                    forall|other: u32| #[trigger] row@.contains(other) ==> first <= other <= last,
                    forall|other: u32| #[trigger] row@.contains(other) == pixels.contains((other, y)),
                    forall|other: u32| first <= other <= x ==> #[trigger] row@.contains(other),
                decreases last - x,
            {
                if !row.contains(&(x + 1)) {
                    assert(gap_after(pixels, x, y)) by {
                        assert(row@.contains(x));
                        assert(!row@.contains((x + 1) as u32));
                        assert(outline_right_of(pixels, last, (x, y)));
                    }
                    assert forall|other: u32| other < x implies !gap_after(pixels, other, y) by {
                        if other >= first {
                            assert(row@.contains((other + 1) as u32));
                        } else {
                            assert(!row@.contains(other));
                        }
                    }
                    return Some(x);
                }
                x = x + 1;
            }
            assert forall|other: u32| !gap_after(pixels, other, y) by {
                if gap_after(pixels, other, y) {
                    let b = choose|b: u32| outline_right_of(pixels, b, (other, y));
                    assert(row@.contains(b));
                    assert(row@.contains(other));
                    assert(row@.contains((other + 1) as u32));
                }
            }
            None
        },
        _ => {
            assert forall|other: u32| !gap_after(pixels, other, y) by {
                assert(!row@.contains(other));
            }
            None
        },
    }
}

/// Scans the rows from `min_y` to `max_y` for the first one whose outline has
/// a gap, and gives the point right of that gap. `None` if no row has one.
pub fn get_inside_point(
    min_y: u32,
    max_y: u32,
    outline_pixels: &HashMap<u32, BTreeSet<u32>>,
) -> (point: Option<(u32, u32)>)
    ensures
        match point {
            Some(seed) => is_seed(outlined(outline_pixels@), min_y, max_y, seed),
            None => forall|x: u32, y: u32|
                min_y <= y <= max_y ==> !gap_after(outlined(outline_pixels@), x, y),
        },
{
    broadcast use vstd::std_specs::hash::group_hash_axioms;
    broadcast use vstd::std_specs::btree::group_btree_axioms;

    let ghost pixels = outlined(outline_pixels@);
    if min_y > max_y {
        return None;
    }
    let mut y: u32 = min_y;
    loop
        invariant
            min_y <= y <= max_y,
            pixels == outlined(outline_pixels@),
            forall|x: u32, row: u32| min_y <= row < y ==> !gap_after(pixels, x, row),
        decreases max_y - y,
    {
        // find a hole in the outlined pixels at the height of y
        match outline_pixels.get(&y) {
            Some(row) => {
                assert(forall|x: u32| #[trigger] row@.contains(x) == pixels.contains((x, y)));
                match row_gap(row, y, Ghost(pixels)) {
                    Some(x) => {
                        return Some((x + 1, y));
                    },
                    None => {},
                }
            },
            None => {
                assert(forall|x: u32| !pixels.contains((x, y)));
            },
        }
        if y == max_y {
            return None;
        }
        y = y + 1;
    }
}

} // verus!
