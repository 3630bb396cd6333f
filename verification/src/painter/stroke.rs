//! Stroking: which pixels the line through a way's samples leaves, and what is
//! remembered of them for filling.

use crate::painter::canvas::{canvas_pixels, canvas_size, Canvas, Rgb};
use crate::painter::geometry::{lemma_span_on_canvas, span_of, stroke_span, Geometry};
use crate::painter::outline::{outlined, record_pixel};
use std::collections::{BTreeSet, HashMap};
use vstd::prelude::*;

verus! {

/// The pixels that stroking the samples leaves, in the order in which they are
/// drawn: the stroke span of each sample in turn.
pub open spec fn stroked(geometry: Geometry, samples: Seq<(i64, i64)>, width: u32) -> Seq<
    (u32, u32),
>
    decreases samples.len(),
{
    if samples.len() == 0 {
        Seq::empty()
    } else {
        stroked(geometry, samples.drop_last(), width) + stroke_span(geometry, samples.last(), width)
    }
}

/// The pixels of one row from column `from` to column `to`, both included.
pub open spec fn row_pixels(from: u32, to: u32, y: u32) -> Seq<(u32, u32)> {
    Seq::new((to - from + 1) as nat, |k: int| ((from + k) as u32, y))
}

/// A canvas with the given pixels set to one color. Pixels off the canvas are
/// not added to it.
pub open spec fn painted(
    canvas: Map<(u32, u32), Rgb>,
    pixels: Set<(u32, u32)>,
    color: Rgb,
) -> Map<(u32, u32), Rgb> {
    Map::new(
        |p: (u32, u32)| canvas.contains_key(p),
        |p: (u32, u32)|
            if pixels.contains(p) {
                color
            } else {
                canvas[p]
            },
    )
}

/// What is remembered of the stroked pixels to judge whether a fill is worth
/// trying and where to look for its seed: the first pixel drawn in the
/// leftmost column, the first in the rightmost column, and the rows that the
/// stroke spans.
#[derive(Debug, Clone, Copy)]
pub struct Extent {
    pub leftmost: (u32, u32),
    pub rightmost: (u32, u32),
    pub top_row: u32,
    pub bottom_row: u32,
}

impl Extent {
    /// The extent of no pixels at all.
    pub open spec fn nothing() -> Extent {
        Extent {
            leftmost: (u32::MAX, u32::MAX),
            rightmost: (0, 0),
            top_row: u32::MAX,
            bottom_row: 0,
        }
    }

    /// The extent after one more pixel.
    pub open spec fn plus(self, p: (u32, u32)) -> Extent {
        Extent {
            leftmost: if p.0 < self.leftmost.0 {
                p
            } else {
                self.leftmost
            },
            rightmost: if p.0 > self.rightmost.0 {
                p
            } else {
                self.rightmost
            },
            top_row: if p.1 < self.top_row {
                p.1
            } else {
                self.top_row
            },
            bottom_row: if p.1 > self.bottom_row {
                p.1
            } else {
                self.bottom_row
            },
        }
    }

    /// The extent after more pixels, taken in order.
    pub open spec fn extended(self, pixels: Seq<(u32, u32)>) -> Extent
        decreases pixels.len(),
    {
        if pixels.len() == 0 {
            self
        } else {
            self.extended(pixels.drop_last()).plus(pixels.last())
        }
    }

    /// Extending by two runs of pixels is extending by the first, then by the
    /// second.
    pub proof fn lemma_extended_concat(self, first: Seq<(u32, u32)>, second: Seq<(u32, u32)>)
        ensures
            self.extended(first + second) == self.extended(first).extended(second),
        decreases second.len(),
    {
        if second.len() == 0 {
            assert(first + second =~= first);
        } else {
            self.lemma_extended_concat(first, second.drop_last());
            assert((first + second).drop_last() =~= first + second.drop_last());
            assert((first + second).last() == second.last());
        }
    }

    fn add(&mut self, x: u32, y: u32)
        ensures
            *final(self) == old(self).plus((x, y)),
    {
        // speedup "are we inside the drawn way boundaries?"
        if x > self.rightmost.0 {
            self.rightmost = (x, y);
        }
        if x < self.leftmost.0 {
            self.leftmost = (x, y);
        }
        if y < self.top_row {
            self.top_row = y;
        }
        if y > self.bottom_row {
            self.bottom_row = y;
        }
    }
}

/// The extent of a run of pixels.
pub open spec fn extent_of(pixels: Seq<(u32, u32)>) -> Extent {
    Extent::nothing().extended(pixels)
}

/// What stroking a way leaves behind besides the pixels on the canvas.
pub struct Stroke {
    /// The stroked pixels by row, where they were asked for.
    pub outline: HashMap<u32, BTreeSet<u32>>,
    pub extent: Extent,
}

/// Every stroked pixel lies on the canvas.
pub proof fn lemma_stroked_on_canvas(geometry: Geometry, samples: Seq<(i64, i64)>, width: u32)
    ensures
        forall|i: int|
            0 <= i < stroked(geometry, samples, width).len() ==> (#[trigger] stroked(
                geometry,
                samples,
                width,
            )[i]).0 < geometry.columns && stroked(geometry, samples, width)[i].1 < geometry.rows,
    decreases samples.len(),
{
    if samples.len() > 0 {
        lemma_stroked_on_canvas(geometry, samples.drop_last(), width);
        lemma_span_on_canvas(geometry, samples.last(), width);
        let before = stroked(geometry, samples.drop_last(), width);
        let span = stroke_span(geometry, samples.last(), width);
        let all = stroked(geometry, samples, width);
        assert forall|i: int| 0 <= i < all.len() implies (#[trigger] all[i]).0 < geometry.columns
            && all[i].1 < geometry.rows by {
            if i < before.len() {
                assert(all[i] == before[i]);
            } else {
                assert(all[i] == span[i - before.len()]);
            }
        }
    }
}

/// Stroking one more sample adds its span to what was stroked before.
pub proof fn lemma_stroked_step(geometry: Geometry, samples: Seq<(i64, i64)>, i: int, width: u32)
    requires
        0 <= i < samples.len(),
    ensures
        stroked(geometry, samples.take(i + 1), width) == stroked(geometry, samples.take(i), width)
            + stroke_span(geometry, samples[i], width),
{
    let longer = samples.take(i + 1);
    assert(longer.drop_last() =~= samples.take(i));
    assert(longer.last() == samples[i]);
}

/// Painting two sets of pixels in one color, one after the other, is painting
/// their union.
pub proof fn lemma_painted_again(
    canvas: Map<(u32, u32), Rgb>,
    first: Set<(u32, u32)>,
    second: Set<(u32, u32)>,
    color: Rgb,
)
    ensures
        painted(painted(canvas, first, color), second, color) == painted(
            canvas,
            first.union(second),
            color,
        ),
{
    assert(painted(painted(canvas, first, color), second, color) =~= painted(
        canvas,
        first.union(second),
        color,
    ));
}

/// Strokes one row from column `from` to column `to`.
fn stroke_row(
    canvas: &mut Canvas,
    stroke: &mut Stroke,
    from: u32,
    to: u32,
    y: u32,
    color: Rgb,
    record: bool,
)
    requires
        from <= to < canvas_size(*old(canvas)).0,
        y < canvas_size(*old(canvas)).1,
        old(canvas).well_formed(),
    ensures
        canvas_size(*final(canvas)) == canvas_size(*old(canvas)),
        final(canvas).well_formed(),
        canvas_pixels(*final(canvas)) == painted(
            canvas_pixels(*old(canvas)),
            row_pixels(from, to, y).to_set(),
            color,
        ),
        final(stroke).extent == old(stroke).extent.extended(row_pixels(from, to, y)),
        outlined(final(stroke).outline@) == (if record {
            outlined(old(stroke).outline@).union(row_pixels(from, to, y).to_set())
        } else {
            outlined(old(stroke).outline@)
        }),
{
    let ghost row = row_pixels(from, to, y);
    let ghost canvas_before = canvas_pixels(*canvas);
    let ghost outline_before = outlined(stroke.outline@);
    let ghost extent_before = stroke.extent;
    let mut x: u32 = from;
    proof {
        assert(row.take(0) =~= Seq::<(u32, u32)>::empty());
        assert(canvas_pixels(*canvas) =~= painted(canvas_before, row.take(0).to_set(), color));
        assert(outline_before.union(row.take(0).to_set()) =~= outline_before);
    }
    loop
        invariant
            from <= x <= to,
            to < canvas_size(*canvas).0,
            y < canvas_size(*canvas).1,
            canvas_size(*canvas) == canvas_size(*old(canvas)),
            canvas.well_formed(),
            row == row_pixels(from, to, y),
            canvas_pixels(*canvas) == painted(
                canvas_before,
                row.take(x - from).to_set(),
                color,
            ),
            stroke.extent == extent_before.extended(row.take(x - from)),
            outlined(stroke.outline@) == (if record {
                outline_before.union(row.take(x - from).to_set())
            } else {
                outline_before
            }),
            canvas_before == canvas_pixels(*old(canvas)),
            outline_before == outlined(old(stroke).outline@),
            extent_before == old(stroke).extent,
        decreases to - x,
    {
        let ghost so_far = row.take(x - from);
        let ghost next = row.take(x - from + 1);
        canvas.put(x, y, color);
        if record {
            record_pixel(&mut stroke.outline, x, y);
        }
        stroke.extent.add(x, y);
        proof {
            assert(row[x - from] == (x, y));
            assert(next =~= so_far.push((x, y)));
            assert(next.drop_last() =~= so_far);
            so_far.lemma_push_to_set_commute((x, y));
            assert(canvas_pixels(*canvas) =~= painted(canvas_before, next.to_set(), color));
            if record {
                assert(outlined(stroke.outline@) =~= outline_before.union(next.to_set()));
            }
        }
        if x == to {
            proof {
                assert(next =~= row);
            }
            return ;
        }
        x = x + 1;
    }
}

/// Strokes the line through the samples at the given width: each sample
/// leaves a horizontal span of pixels, clipped to the canvas. With `record`
/// the stroked pixels are also kept by row, for filling.
pub fn stroke_samples(
    canvas: &mut Canvas,
    geometry: &Geometry,
    samples: &Vec<(i64, i64)>,
    width: u32,
    color: Rgb,
    record: bool,
) -> (stroke: Stroke)
    requires
        canvas_size(*old(canvas)) == (geometry.columns, geometry.rows),
        old(canvas).well_formed(),
    ensures
        canvas_size(*final(canvas)) == canvas_size(*old(canvas)),
        final(canvas).well_formed(),
        canvas_pixels(*final(canvas)) == painted(
            canvas_pixels(*old(canvas)),
            stroked(*geometry, samples@, width).to_set(),
            color,
        ),
        stroke.extent == extent_of(stroked(*geometry, samples@, width)),
        outlined(stroke.outline@) == (if record {
            stroked(*geometry, samples@, width).to_set()
        } else {
            Set::<(u32, u32)>::empty()
        }),
{
    broadcast use vstd::std_specs::hash::group_hash_axioms;

    let ghost canvas_before = canvas_pixels(*canvas);
    let mut stroke = Stroke { outline: HashMap::new(), extent: Extent {
        leftmost: (u32::MAX, u32::MAX),
        rightmost: (0, 0),
        top_row: u32::MAX,
        bottom_row: 0,
    } };
    proof {
        assert(outlined(stroke.outline@) =~= Set::<(u32, u32)>::empty());
        assert(samples@.take(0) =~= Seq::<(i64, i64)>::empty());
        assert(stroked(*geometry, samples@.take(0), width).to_set() =~= Set::<(u32, u32)>::empty());
        assert(canvas_pixels(*canvas) =~= painted(
            canvas_before,
            Set::<(u32, u32)>::empty(),
            color,
        ));
    }
    let mut i: usize = 0;
    while i < samples.len()
        invariant
            i <= samples.len(),
            canvas_size(*canvas) == (geometry.columns, geometry.rows),
            canvas_size(*canvas) == canvas_size(*old(canvas)),
            canvas.well_formed(),
            canvas_before == canvas_pixels(*old(canvas)),
            canvas_pixels(*canvas) == painted(
                canvas_before,
                stroked(*geometry, samples@.take(i as int), width).to_set(),
                color,
            ),
            stroke.extent == extent_of(stroked(*geometry, samples@.take(i as int), width)),
            outlined(stroke.outline@) == (if record {
                stroked(*geometry, samples@.take(i as int), width).to_set()
            } else {
                Set::<(u32, u32)>::empty()
            }),
        decreases samples.len() - i,
    {
        let ghost done = stroked(*geometry, samples@.take(i as int), width);
        let ghost span = stroke_span(*geometry, samples@[i as int], width);
        proof {
            lemma_stroked_step(*geometry, samples@, i as int, width);
            vstd::seq_lib::seq_to_set_distributes_over_add(done, span);
            Extent::nothing().lemma_extended_concat(done, span);
        }
        match span_of(geometry, samples[i], width) {
            Some((from, to, y)) => {
                assert(span =~= row_pixels(from, to, y));
                stroke_row(canvas, &mut stroke, from, to, y, color, record);
                proof {
                    lemma_painted_again(canvas_before, done.to_set(), span.to_set(), color);
                }
            },
            None => {
                proof {
                    assert(done + span =~= done);
                }
            },
        }
        i = i + 1;
    }
    assert(samples@.take(samples@.len() as int) =~= samples@);
    stroke
}

} // verus!
