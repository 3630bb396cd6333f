//! Laws of painting: what a render pass guarantees of the filled pixels.

use crate::mapcss::declaration::DeclarationGroupView;
use crate::painter::canvas::Rgb;
use crate::painter::fill::{
    adjacent, fill_region, lemma_reachable_is_inside, lemma_reachable_seed, lemma_reachable_step,
};
use crate::painter::geometry::Geometry;
use crate::painter::outline::{inside, is_seed, lemma_inside_on_canvas, lemma_seed_is_inside};
use crate::painter::stroke::{extent_of, lemma_stroked_on_canvas, stroked};
use crate::painter::{
    fill_color_of, fill_outcome, is_drawn, rendered, rgb_of, seed_of, way_painted, way_style,
    FillOutcome, RenderStyle, WayTrace,
};
use vstd::prelude::*;

verus! {

/// Whether the canvas holds exactly the pixels that the geometry spans.
pub open spec fn canvas_fits(canvas: Map<(u32, u32), Rgb>, geometry: Geometry) -> bool {
    forall|p: (u32, u32)|
        canvas.contains_key(p) <==> p.0 < geometry.columns && p.1 < geometry.rows
}

/// Whether drawing a way touches the pixel: by its stroke or by its fill.
pub open spec fn way_touches(
    geometry: Geometry,
    samples: Seq<(i64, i64)>,
    closed: bool,
    style: RenderStyle,
    p: (u32, u32),
) -> bool {
    is_drawn(style) && (stroked(geometry, samples, style.width).to_set().contains(p) || (
    fill_outcome(geometry, samples, closed, style) matches FillOutcome::Filled(region)
        && region.contains(p)))
}

/// Drawing a way leaves the canvas with the pixels it had.
pub proof fn lemma_way_painted_fits(
    canvas: Map<(u32, u32), Rgb>,
    geometry: Geometry,
    samples: Seq<(i64, i64)>,
    closed: bool,
    style: RenderStyle,
)
    requires
        canvas_fits(canvas, geometry),
    ensures
        canvas_fits(way_painted(canvas, geometry, samples, closed, style), geometry),
{
}

/// Drawing ways leaves the canvas with the pixels it had.
pub proof fn lemma_rendered_fits(
    canvas: Map<(u32, u32), Rgb>,
    geometry: Geometry,
    groups: Seq<DeclarationGroupView>,
    ways: Seq<WayTrace>,
    order: Seq<usize>,
)
    requires
        canvas_fits(canvas, geometry),
    ensures
        canvas_fits(rendered(canvas, geometry, groups, ways, order), geometry),
    decreases order.len(),
{
    if order.len() > 0 {
        lemma_rendered_fits(canvas, geometry, groups, ways, order.drop_last());
        let i = order.last() as int;
        lemma_way_painted_fits(
            rendered(canvas, geometry, groups, ways, order.drop_last()),
            geometry,
            ways[i].samples@,
            ways[i].way.closed_spec(),
            way_style(groups, ways, i),
        );
    }
}

/// Every pixel that the inside test flags for the outline of a way lies on
/// the canvas.
pub proof fn law_inside_pixels_on_canvas(
    geometry: Geometry,
    samples: Seq<(i64, i64)>,
    width: u32,
    p: (u32, u32),
)
    requires
        inside(stroked(geometry, samples, width).to_set(), p),
    ensures
        p.0 < geometry.columns,
        p.1 < geometry.rows,
{
    let pixels = stroked(geometry, samples, width);
    lemma_stroked_on_canvas(geometry, samples, width);
    assert forall|q: (u32, u32)| #[trigger] pixels.to_set().contains(q) implies q.0
        < geometry.columns && q.1 < geometry.rows by {
        let k = choose|k: int| 0 <= k < pixels.len() && pixels[k] == q;
        assert(pixels[k].0 < geometry.columns);
    }
    lemma_inside_on_canvas(pixels.to_set(), p, geometry.columns, geometry.rows);
}

/// The filled region is what the inside test flags around the seed: each of
/// its pixels passes the inside test, and with a pixel it holds every
/// neighbour that passes the test.
pub proof fn law_fill_region_follows_inside_test(
    outline: Set<(u32, u32)>,
    seed: (u32, u32),
    p: (u32, u32),
    q: (u32, u32),
)
    requires
        fill_region(outline, seed).contains(p),
    ensures
        inside(outline, p),
        adjacent(p, q) && inside(outline, q) ==> fill_region(outline, seed).contains(q),
{
    lemma_reachable_is_inside(outline, seed, p);
    if adjacent(p, q) && inside(outline, q) {
        lemma_reachable_step(outline, seed, p, q);
    }
}

/// The seed of a fill passes the inside test and is part of what the fill
/// reaches.
pub proof fn law_seed_is_filled(outline: Set<(u32, u32)>, min_y: u32, max_y: u32, seed: (u32, u32))
    requires
        is_seed(outline, min_y, max_y, seed),
    ensures
        inside(outline, seed),
        fill_region(outline, seed).contains(seed),
{
    lemma_seed_is_inside(outline, (seed.0 - 1) as u32, seed.1);
    lemma_reachable_seed(outline, seed);
}

/// Right after a closed way with a fill was drawn, every pixel of its filled
/// region passes the inside test for the way's outline, lies on the canvas,
/// and has the way's fill color.
pub proof fn law_fill_is_painted(
    canvas: Map<(u32, u32), Rgb>,
    geometry: Geometry,
    samples: Seq<(i64, i64)>,
    closed: bool,
    style: RenderStyle,
    p: (u32, u32),
)
    requires
        canvas_fits(canvas, geometry),
        fill_outcome(geometry, samples, closed, style) matches FillOutcome::Filled(region)
            && region.contains(p),
    ensures
        closed,
        inside(stroked(geometry, samples, style.width).to_set(), p),
        p.0 < geometry.columns && p.1 < geometry.rows,
        way_painted(canvas, geometry, samples, closed, style)[p] == rgb_of(fill_color_of(style)),
{
    let pixels = stroked(geometry, samples, style.width);
    let extent = extent_of(pixels);
    let seed = seed_of(pixels.to_set(), extent)->0;
    lemma_reachable_is_inside(pixels.to_set(), seed, p);
    law_inside_pixels_on_canvas(geometry, samples, style.width, p);
}

/// Right after a way was drawn, every pixel of its stroke lies on the canvas
/// and has the way's stroke color: the fill never paints over the outline.
pub proof fn law_stroke_is_painted(
    canvas: Map<(u32, u32), Rgb>,
    geometry: Geometry,
    samples: Seq<(i64, i64)>,
    closed: bool,
    style: RenderStyle,
    p: (u32, u32),
)
    requires
        canvas_fits(canvas, geometry),
        is_drawn(style),
        stroked(geometry, samples, style.width).to_set().contains(p),
    ensures
        p.0 < geometry.columns && p.1 < geometry.rows,
        way_painted(canvas, geometry, samples, closed, style)[p] == rgb_of(style.color->0),
{
    let pixels = stroked(geometry, samples, style.width);
    lemma_stroked_on_canvas(geometry, samples, style.width);
    let k = choose|k: int| 0 <= k < pixels.len() && pixels[k] == p;
    assert(pixels[k].0 < geometry.columns);
    match fill_outcome(geometry, samples, closed, style) {
        FillOutcome::Filled(region) => {
            if region.contains(p) {
                let extent = extent_of(pixels);
                let seed = seed_of(pixels.to_set(), extent)->0;
                lemma_reachable_is_inside(pixels.to_set(), seed, p);
            }
        },
        _ => {},
    }
}

/// A way that does not touch a pixel leaves it as it was.
pub proof fn lemma_untouched_pixel_stays(
    canvas: Map<(u32, u32), Rgb>,
    geometry: Geometry,
    samples: Seq<(i64, i64)>,
    closed: bool,
    style: RenderStyle,
    p: (u32, u32),
)
    requires
        canvas.contains_key(p),
        !way_touches(geometry, samples, closed, style, p),
    ensures
        way_painted(canvas, geometry, samples, closed, style)[p] == canvas[p],
{
}

/// In the output of a pass, a pixel that the fill of a closed way reached has
/// that way's fill color, unless a way drawn later touched it. The pixel lies
/// on the canvas.
pub proof fn law_filled_pixel_in_output(
    canvas: Map<(u32, u32), Rgb>,
    geometry: Geometry,
    groups: Seq<DeclarationGroupView>,
    ways: Seq<WayTrace>,
    order: Seq<usize>,
    k: int,
    p: (u32, u32),
)
    requires
        canvas_fits(canvas, geometry),
        0 <= k < order.len(),
        fill_outcome(
            geometry,
            ways[order[k] as int].samples@,
            ways[order[k] as int].way.closed_spec(),
            way_style(groups, ways, order[k] as int),
        ) matches FillOutcome::Filled(region) && region.contains(p),
        forall|later: int|
            k < later < order.len() ==> !way_touches(
                geometry,
                ways[(#[trigger] order[later]) as int].samples@,
                ways[order[later] as int].way.closed_spec(),
                way_style(groups, ways, order[later] as int),
                p,
            ),
    ensures
        p.0 < geometry.columns && p.1 < geometry.rows,
        rendered(canvas, geometry, groups, ways, order)[p] == rgb_of(
            fill_color_of(way_style(groups, ways, order[k] as int)),
        ),
    decreases order.len(),
{
    let shorter = order.drop_last();
    let last = order.last() as int;
    let before = rendered(canvas, geometry, groups, ways, shorter);
    lemma_rendered_fits(canvas, geometry, groups, ways, shorter);
    if k == order.len() - 1 {
        law_fill_is_painted(
            before,
            geometry,
            ways[last].samples@,
            ways[last].way.closed_spec(),
            way_style(groups, ways, last),
            p,
        );
    } else {
        assert(shorter[k] == order[k]);
        assert forall|later: int| k < later < shorter.len() implies !way_touches(
            geometry,
            ways[(#[trigger] shorter[later]) as int].samples@,
            ways[shorter[later] as int].way.closed_spec(),
            way_style(groups, ways, shorter[later] as int),
            p,
        ) by {
            assert(shorter[later] == order[later]);
        }
        law_filled_pixel_in_output(canvas, geometry, groups, ways, shorter, k, p);
        assert(order[order.len() - 1] == order.last());
        lemma_untouched_pixel_stays(
            before,
            geometry,
            ways[last].samples@,
            ways[last].way.closed_spec(),
            way_style(groups, ways, last),
            p,
        );
    }
}

} // verus!
