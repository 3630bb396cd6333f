//! Flood fill: which pixels a fill from a seed reaches, and the proof that the
//! stack-based fill finds exactly those.

use crate::painter::outline::{holds_pixel, inside, is_inside, outlined, record_pixel};
use std::collections::{BTreeSet, HashMap};
use vstd::prelude::*;

verus! {

/// The number of stack iterations after which a fill is given up.
pub const FLOOD_FILL_ITERATION_CAP: usize = 100_000;

/// Whether two pixels are neighbours: one step apart along a row or a column.
pub open spec fn adjacent(p: (u32, u32), q: (u32, u32)) -> bool {
    ||| p.0 == q.0 && (p.1 + 1 == q.1 || q.1 + 1 == p.1)
    ||| p.1 == q.1 && (p.0 + 1 == q.0 || q.0 + 1 == p.0)
}

/// Whether `path` is a walk over neighbouring pixels that all pass the inside
/// test, from `seed` to `p`.
pub open spec fn connects(
    pixels: Set<(u32, u32)>,
    path: Seq<(u32, u32)>,
    seed: (u32, u32),
    p: (u32, u32),
) -> bool {
    &&& path.len() > 0
    &&& path.first() == seed
    &&& path.last() == p
    &&& forall|i: int| 0 <= i < path.len() ==> inside(pixels, #[trigger] path[i])
    &&& forall|i: int| 0 <= i < path.len() - 1 ==> adjacent(#[trigger] path[i], path[i + 1])
}

/// Whether a fill from `seed` reaches `p`.
pub open spec fn reachable(pixels: Set<(u32, u32)>, seed: (u32, u32), p: (u32, u32)) -> bool {
    exists|path: Seq<(u32, u32)>| connects(pixels, path, seed, p)
}

/// The region that a fill from `seed` covers: every pixel that a walk from the
/// seed reaches without leaving the inside of the outline `pixels`.
pub open spec fn fill_region(pixels: Set<(u32, u32)>, seed: (u32, u32)) -> Set<(u32, u32)> {
    Set::new(|p: (u32, u32)| reachable(pixels, seed, p))
}

/// Whether `filled` holds, with each of its pixels, every neighbour of it that
/// passes the inside test or has it waiting in `pending`.
pub open spec fn closed_up_to(
    pixels: Set<(u32, u32)>,
    filled: Seq<(u32, u32)>,
    pending: Seq<(u32, u32)>,
) -> bool {
    forall|i: int, q: (u32, u32)|
        0 <= i < filled.len() && adjacent(#[trigger] filled[i], q) && #[trigger] inside(pixels, q)
            ==> filled.contains(q) || pending.contains(q)
}

/// A seed that passes the inside test is reached from itself.
pub proof fn lemma_reachable_seed(pixels: Set<(u32, u32)>, seed: (u32, u32))
    requires
        inside(pixels, seed),
    ensures
        reachable(pixels, seed, seed),
{
    assert(connects(pixels, seq![seed], seed, seed));
}

/// A pixel that is reached passes the inside test.
pub proof fn lemma_reachable_is_inside(pixels: Set<(u32, u32)>, seed: (u32, u32), p: (u32, u32))
    requires
        reachable(pixels, seed, p),
    ensures
        inside(pixels, p),
        inside(pixels, seed),
{
    let path = choose|path: Seq<(u32, u32)>| connects(pixels, path, seed, p);
    assert(inside(pixels, path[0]));
    assert(inside(pixels, path[path.len() - 1]));
}

/// From a pixel that is reached, each neighbour that passes the inside test is
/// reached too.
pub proof fn lemma_reachable_step(
    pixels: Set<(u32, u32)>,
    seed: (u32, u32),
    p: (u32, u32),
    q: (u32, u32),
)
    requires
        reachable(pixels, seed, p),
        adjacent(p, q),
        inside(pixels, q),
    ensures
        reachable(pixels, seed, q),
{
    let path = choose|path: Seq<(u32, u32)>| connects(pixels, path, seed, p);
    let longer = path.push(q);
    assert forall|i: int| 0 <= i < longer.len() implies inside(pixels, #[trigger] longer[i]) by {
        if i < path.len() {
            assert(longer[i] == path[i]);
        }
    }
    assert forall|i: int| 0 <= i < longer.len() - 1 implies adjacent(
        #[trigger] longer[i],
        longer[i + 1],
    ) by {
        if i < path.len() - 1 {
            assert(longer[i] == path[i]);
            assert(longer[i + 1] == path[i + 1]);
        }
    }
    assert(connects(pixels, longer, seed, q));
}

proof fn lemma_walk_stays_in_closed(
    pixels: Set<(u32, u32)>,
    path: Seq<(u32, u32)>,
    seed: (u32, u32),
    p: (u32, u32),
    filled: Seq<(u32, u32)>,
    i: int,
)
    requires
        connects(pixels, path, seed, p),
        filled.contains(seed),
        closed_up_to(pixels, filled, Seq::empty()),
        0 <= i < path.len(),
    ensures
        filled.contains(path[i]),
    decreases i,
{
    if i > 0 {
        lemma_walk_stays_in_closed(pixels, path, seed, p, filled, i - 1);
        let k = choose|k: int| 0 <= k < filled.len() && filled[k] == path[i - 1];
        assert(adjacent(path[i - 1], path[i - 1 + 1]));
        assert(inside(pixels, path[i]));
        assert(adjacent(filled[k], path[i]));
        assert(!Seq::<(u32, u32)>::empty().contains(path[i]));
    }
}

/// A set of pixels that holds the seed and, with each of its pixels, every
/// neighbour that passes the inside test, holds all that a fill reaches.
pub proof fn lemma_closed_holds_region(
    pixels: Set<(u32, u32)>,
    seed: (u32, u32),
    filled: Seq<(u32, u32)>,
)
    requires
        inside(pixels, seed) ==> filled.contains(seed),
        closed_up_to(pixels, filled, Seq::empty()),
    ensures
        fill_region(pixels, seed).subset_of(filled.to_set()),
{
    assert forall|p: (u32, u32)| fill_region(pixels, seed).contains(p) implies filled.to_set().contains(
        p,
    ) by {
        lemma_reachable_is_inside(pixels, seed, p);
        let path = choose|path: Seq<(u32, u32)>| connects(pixels, path, seed, p);
        lemma_walk_stays_in_closed(pixels, path, seed, p, filled, path.len() - 1);
    }
}

/// Every set of pixels is finite.
pub proof fn lemma_pixel_set_finite(pixels: Set<(u32, u32)>)
    ensures
        pixels.finite(),
{
    let all = Set::<u64>::full();
    <u64 as vstd::set_lib::FiniteFull>::full_properties();
    let decode = |k: u64| ((k / 0x1_0000_0000) as u32, (k % 0x1_0000_0000) as u32);
    all.lemma_map_finite(decode);
    assert forall|p: (u32, u32)| pixels.contains(p) implies all.map(decode).contains(p) by {
        let k = (p.0 as u64 * 0x1_0000_0000 + p.1 as u64) as u64;
        assert(all.contains(k));
        assert(decode(k) == p);
    }
    vstd::set_lib::lemma_set_subset_finite(all.map(decode), pixels);
}

/// A list of distinct pixels that a fill reaches is no longer than the region.
proof fn lemma_filled_within_region(
    pixels: Set<(u32, u32)>,
    seed: (u32, u32),
    filled: Seq<(u32, u32)>,
)
    requires
        filled.no_duplicates(),
        forall|i: int| 0 <= i < filled.len() ==> reachable(pixels, seed, #[trigger] filled[i]),
    ensures
        filled.len() <= fill_region(pixels, seed).len(),
        filled.to_set().subset_of(fill_region(pixels, seed)),
{
    let region = fill_region(pixels, seed);
    lemma_pixel_set_finite(region);
    filled.unique_seq_to_set();
    assert forall|p: (u32, u32)| filled.to_set().contains(p) implies region.contains(p) by {
        let k = choose|k: int| 0 <= k < filled.len() && filled[k] == p;
        assert(reachable(pixels, seed, filled[k]));
    }
    vstd::set_lib::lemma_len_subset(filled.to_set(), region);
}

/// Runs a flood fill from the given point: an iterative fill over a stack that
/// takes every pixel it can reach over neighbours passing the inside test. The
/// fill is given up, with no pixels, once it needs as many iterations as the
/// cap allows; each filled pixel costs four iterations, the start one more.
pub fn get_flood_filled_pixels(
    start: (u32, u32),
    outline_pixels: &HashMap<u32, BTreeSet<u32>>,
) -> (flood_filled_pixels: Option<Vec<(u32, u32)>>)
    ensures
        flood_filled_pixels is Some <==> 4 * fill_region(outlined(outline_pixels@), start).len() + 1
            < FLOOD_FILL_ITERATION_CAP,
        flood_filled_pixels matches Some(filled) ==> filled@.no_duplicates() && filled@.to_set()
            == fill_region(outlined(outline_pixels@), start),
{
    let ghost pixels = outlined(outline_pixels@);
    let mut filled: Vec<(u32, u32)> = Vec::new();
    let mut visited: HashMap<u32, BTreeSet<u32>> = HashMap::new();
    let mut stack: Vec<(u32, u32)> = Vec::new();
    // use the given point as the starting point
    stack.push(start);
    let mut iterations: usize = 0;
    proof {
        assert(outlined(visited@) =~= filled@.to_set());
        assert(stack@[0] == start);
        if inside(pixels, start) {
            lemma_reachable_seed(pixels, start);
        }
    }
    loop
        invariant
            pixels == outlined(outline_pixels@),
            outlined(visited@) == filled@.to_set(),
            filled@.no_duplicates(),
            forall|i: int| 0 <= i < filled.len() ==> reachable(pixels, start, #[trigger] filled@[i]),
            forall|i: int|
                0 <= i < stack.len() && inside(pixels, #[trigger] stack@[i]) ==> reachable(
                    pixels,
                    start,
                    stack@[i],
                ),
            closed_up_to(pixels, filled@, stack@),
            inside(pixels, start) ==> filled@.contains(start) || stack@.contains(start),
            iterations + stack.len() == 1 + 4 * filled.len(),
            filled.len() <= iterations,
            iterations < FLOOD_FILL_ITERATION_CAP,
        decreases FLOOD_FILL_ITERATION_CAP - iterations,
    {
        let ghost stack_before = stack@;
        let (x, y) = match stack.pop() {
            Some(point) => point,
            None => {
                proof {
                    assert(stack@ =~= Seq::<(u32, u32)>::empty());
                    lemma_closed_holds_region(pixels, start, filled@);
                    lemma_filled_within_region(pixels, start, filled@);
                    assert(filled@.to_set() =~= fill_region(pixels, start));
                    filled@.unique_seq_to_set();
                }
                return Some(filled);
            },
        };
        let ghost p = (x, y);
        proof {
            assert(stack_before =~= stack@.push(p));
            assert(stack_before[stack_before.len() - 1] == p);
            assert forall|q: (u32, u32)| stack_before.contains(q) implies q == p || stack@.contains(
                q,
            ) by {
                let k = choose|k: int| 0 <= k < stack_before.len() && stack_before[k] == q;
                if k < stack@.len() {
                    assert(stack@[k] == q);
                }
            }
            assert forall|i: int|
                0 <= i < stack.len() && inside(pixels, #[trigger] stack@[i]) implies reachable(
                pixels,
                start,
                stack@[i],
            ) by {
                assert(stack@[i] == stack_before[i]);
            }
        }
        iterations = iterations + 1;
        if iterations == FLOOD_FILL_ITERATION_CAP {
            proof {
                lemma_filled_within_region(pixels, start, filled@);
            }
            return None;
        }
        let seen = holds_pixel(&visited, x, y);
        assert(seen == filled@.contains(p));
        if seen || !is_inside(&(x, y), outline_pixels) {
            proof {
                assert forall|i: int, q: (u32, u32)|
                    0 <= i < filled.len() && adjacent(#[trigger] filled@[i], q) && #[trigger] inside(
                        pixels,
                        q,
                    ) implies filled@.contains(q) || stack@.contains(q) by {
                    assert(filled@.contains(q) || stack_before.contains(q));
                }
            }
            continue ;
        }
        proof {
            assert(reachable(pixels, start, p));
            let a = choose|a: u32| crate::painter::outline::outline_left_of(pixels, a, p);
            let b = choose|b: u32| crate::painter::outline::outline_right_of(pixels, b, p);
            assert(a < x && x < b);
        }
        let ghost filled_before = filled@;
        filled.push((x, y));
        record_pixel(&mut visited, x, y);
        // saturating at the edges of the grid, where the pixel is its own neighbour
        let up: u32 = if y < u32::MAX {
            y + 1
        } else {
            y
        };
        let down: u32 = if y > 0 {
            y - 1
        } else {
            y
        };
        let ghost stack_popped = stack@;
        stack.push((x, up));
        stack.push((x, down));
        stack.push((x + 1, y));
        stack.push((x - 1, y));
        proof {
            let n = stack_popped.len() as int;
            assert(stack@ =~= stack_popped.push((x, up)).push((x, down)).push(
                ((x + 1) as u32, y),
            ).push(((x - 1) as u32, y)));
            assert(filled@ =~= filled_before.push(p));
            filled_before.lemma_push_to_set_commute(p);
            assert(filled@[filled@.len() - 1] == p);
            assert(filled@.contains(p));
            assert forall|q: (u32, u32)| filled_before.contains(q) implies filled@.contains(q) by {
                let k = choose|k: int| 0 <= k < filled_before.len() && filled_before[k] == q;
                assert(filled@[k] == q);
            }
            assert forall|q: (u32, u32)| stack_popped.contains(q) implies stack@.contains(q) by {
                let k = choose|k: int| 0 <= k < stack_popped.len() && stack_popped[k] == q;
                assert(stack@[k] == q);
            }
            assert(filled@.no_duplicates()) by {
                assert forall|i: int, j: int|
                    0 <= i < filled@.len() && 0 <= j < filled@.len() && i != j implies filled@[i]
                    != filled@[j] by {
                    if i < filled_before.len() && j < filled_before.len() {
                        assert(filled_before[i] != filled_before[j]);
                    } else if i < filled_before.len() {
                        assert(filled_before.contains(filled_before[i]));
                    } else {
                        assert(filled_before.contains(filled_before[j]));
                    }
                }
            }
            assert forall|i: int| 0 <= i < filled.len() implies reachable(
                pixels,
                start,
                #[trigger] filled@[i],
            ) by {
                if i < filled_before.len() {
                    assert(filled@[i] == filled_before[i]);
                }
            }
            assert forall|i: int|
                0 <= i < stack.len() && inside(pixels, #[trigger] stack@[i]) implies reachable(
                pixels,
                start,
                stack@[i],
            ) by {
                if i < n {
                    assert(stack@[i] == stack_popped[i]);
                } else {
                    let q = stack@[i];
                    if q != p {
                        assert(adjacent(p, q));
                        lemma_reachable_step(pixels, start, p, q);
                    }
                }
            }
            assert(stack@[n] == (x, up));
            assert(stack@[n + 1] == (x, down));
            assert(stack@[n + 2] == ((x + 1) as u32, y));
            assert(stack@[n + 3] == ((x - 1) as u32, y));
            assert forall|i: int, q: (u32, u32)|
                0 <= i < filled.len() && adjacent(#[trigger] filled@[i], q) && #[trigger] inside(
                    pixels,
                    q,
                ) implies filled@.contains(q) || stack@.contains(q) by {
                if i < filled_before.len() {
                    assert(filled@[i] == filled_before[i]);
                    assert(filled_before.contains(q) || stack_before.contains(q));
                } else {
                    assert(filled@[i] == p);
                    assert(q == (x, up) || q == (x, down) || q == ((x + 1) as u32, y) || q == (
                        (x - 1) as u32,
                        y,
                    ));
                }
            }
        }
    }
}

} // verus!
