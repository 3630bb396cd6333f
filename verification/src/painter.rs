//! The painter: turns styled ways into pixels.

use crate::data::{ElementData, ElementModel, NodeData, WayData};
use crate::element::canvas::{background_for, canvas_model, CanvasElement};
use crate::mapcss::declaration::{
    cascade, unsupported_for, DeclarationGroupView, IntSize, MapCssDeclarationList,
    MapCssDeclarationProperty, RenderSession, RGBA,
};
use crate::painter::canvas::{blank, canvas_pixels, canvas_size, Canvas, Rgb};
use crate::painter::fill::{fill_region, lemma_reachable_is_inside, FLOOD_FILL_ITERATION_CAP};
use crate::painter::geometry::{
    canvas_geometry, compute_bounds, geometry_for, is_bounding_box, Bounds, Geometry,
};
use crate::painter::order::{draw_order, is_draw_order};
use crate::painter::outline::{
    gap_after, horizontally_adjacent, is_seed, lemma_inside_on_canvas, lemma_seed_unique, outlined,
};
use crate::painter::stroke::{
    extent_of, lemma_stroked_on_canvas, painted, stroke_samples, stroked, Extent, Stroke,
};
use std::collections::HashMap;
use vstd::prelude::*;

pub mod canvas;
pub mod fill;
pub mod geometry;
pub mod laws;
pub mod order;
pub mod outline;
pub mod stroke;

pub use fill::get_flood_filled_pixels;
pub use outline::{
    are_image_coordinates_horizontally_next_to_each_other, get_inside_point, is_inside,
};

verus! {

/// A way together with the raster samples of the line through its nodes, in
/// projected coordinates (latitude first) and in drawing order.
pub struct WayTrace {
    pub way: WayData,
    pub samples: Vec<(i64, i64)>,
}

/// How a way is drawn, resolved from the stylesheet for one pass.
#[derive(Debug, Clone, Copy)]
pub struct RenderStyle {
    pub z_index: IntSize,
    /// The stroke color. A way without one is not drawn.
    pub color: Option<RGBA>,
    /// The fill color; the stroke color where the stylesheet sets none.
    pub fill_color: Option<RGBA>,
    /// The stroke width in pixels. A way of width zero is not drawn.
    pub width: u32,
}

/// Why a render pass could not be made.
#[derive(Debug, Clone, Copy, PartialEq, Eq, Structural)]
pub enum RenderError {
    /// A way refers to a node that the node collection does not hold.
    DanglingNodeReference { way: i64, node: i64 },
    /// The canvas for the bounding box of the nodes does not fit into memory.
    CanvasTooLarge,
}

/// What happened to the fill of one way.
#[derive(Debug, Clone, Copy, PartialEq, Eq, Structural)]
pub enum FillReport {
    /// The way is open, is not drawn, or its outline leaves nothing to fill.
    NotTried,
    /// No row of the outline has a gap to start from.
    NoSeed,
    /// The fill needed too many iterations.
    GivenUp,
    /// The fill was made, with this many pixels.
    Filled(usize),
}

/// The fill of one way as a mathematical value.
pub ghost enum FillOutcome {
    NotTried,
    NoSeed,
    GivenUp,
    Filled(Set<(u32, u32)>),
}

/// The result of a render pass.
pub struct RenderOutcome {
    pub canvas: Canvas,
    pub geometry: Geometry,
    /// The positions of the ways in the order in which they were drawn.
    pub draw_order: Vec<usize>,
    pub processed_ways: usize,
    pub flood_fill_pixel_count: u128,
    /// How many closed ways were left without a fill for want of a seed or of
    /// iterations.
    pub no_inside_count: usize,
}

/// Paints ways into a canvas from which a PNG image is written.
pub struct PngPainter {}

impl Default for PngPainter {
    fn default() -> (painter: Self) {
        PngPainter {  }
    }
}

/// The red, green and blue channel of a color.
pub open spec fn rgb_of(color: RGBA) -> Rgb {
    (color.red, color.green, color.blue)
}

/// What a property is resolved to, as an integer: `None` where nothing is
/// resolved, `Some(None)` where what is resolved is no number.
pub open spec fn resolved_integer(
    groups: Seq<DeclarationGroupView>,
    element: ElementModel,
    property: MapCssDeclarationProperty,
) -> Option<Option<IntSize>> {
    match cascade(groups, element, property) {
        Some(value) => Some(value.integer_value()),
        None => None,
    }
}

/// The color that a resolved value gives, if the property is resolved to a color.
pub open spec fn resolved_color(
    groups: Seq<DeclarationGroupView>,
    element: ElementModel,
    property: MapCssDeclarationProperty,
) -> Option<RGBA> {
    match cascade(groups, element, property) {
        Some(value) => value.color_value(),
        None => None,
    }
}

/// The style that the stylesheet resolves for an element.
///
/// The z-index is zero unless resolved to a number. The fill color falls back
/// to the stroke color. The width is one pixel where the stylesheet sets none,
/// and zero where it sets a negative number or something that is no number.
pub open spec fn style_for(groups: Seq<DeclarationGroupView>, element: ElementModel) -> RenderStyle {
    let color = resolved_color(groups, element, MapCssDeclarationProperty::Color);
    let fill = resolved_color(groups, element, MapCssDeclarationProperty::FillColor);
    RenderStyle {
        z_index: match resolved_integer(groups, element, MapCssDeclarationProperty::ZIndex) {
            Some(Some(z_index)) => z_index,
            _ => 0,
        },
        color,
        fill_color: if fill is Some {
            fill
        } else {
            color
        },
        width: match resolved_integer(groups, element, MapCssDeclarationProperty::Width) {
            None => 1,
            Some(Some(width)) => if width >= 0 {
                width as u32
            } else {
                0
            },
            Some(None) => 0,
        },
    }
}

/// The color in which a drawn way of this style is filled.
pub open spec fn fill_color_of(style: RenderStyle) -> RGBA {
    match style.fill_color {
        Some(fill_color) => fill_color,
        None => style.color->0,
    }
}

/// Whether a way of this style is drawn at all.
pub open spec fn is_drawn(style: RenderStyle) -> bool {
    style.color is Some && style.width > 0
}

/// Whether the outline encloses something that could be filled: its leftmost
/// and rightmost pixel differ and are not next to each other on one row.
pub open spec fn worth_filling(extent: Extent) -> bool {
    extent.leftmost != extent.rightmost && !horizontally_adjacent(
        extent.leftmost,
        extent.rightmost,
    )
}

/// The seed of the fill: the point that the interior search finds between the
/// top and the bottom row of the outline.
pub open spec fn seed_of(outline: Set<(u32, u32)>, extent: Extent) -> Option<(u32, u32)> {
    if exists|seed: (u32, u32)| is_seed(outline, extent.top_row, extent.bottom_row, seed) {
        Some(choose|seed: (u32, u32)| is_seed(outline, extent.top_row, extent.bottom_row, seed))
    } else {
        None
    }
}

/// What the attempt to fill an outline comes to.
pub open spec fn fill_attempt(outline: Set<(u32, u32)>, extent: Extent) -> FillOutcome {
    if !worth_filling(extent) {
        FillOutcome::NotTried
    } else {
        match seed_of(outline, extent) {
            None => FillOutcome::NoSeed,
            Some(seed) => if 4 * fill_region(outline, seed).len() + 1 < FLOOD_FILL_ITERATION_CAP {
                FillOutcome::Filled(fill_region(outline, seed))
            } else {
                FillOutcome::GivenUp
            },
        }
    }
}

/// What becomes of the fill of a way with the given samples and style.
pub open spec fn fill_outcome(
    geometry: Geometry,
    samples: Seq<(i64, i64)>,
    closed: bool,
    style: RenderStyle,
) -> FillOutcome {
    if is_drawn(style) && closed {
        let pixels = stroked(geometry, samples, style.width);
        fill_attempt(pixels.to_set(), extent_of(pixels))
    } else {
        FillOutcome::NotTried
    }
}

/// The canvas after a way was drawn on it: its stroke in the stroke color,
/// then, where the fill was made, the filled region in the fill color.
pub open spec fn way_painted(
    canvas: Map<(u32, u32), Rgb>,
    geometry: Geometry,
    samples: Seq<(i64, i64)>,
    closed: bool,
    style: RenderStyle,
) -> Map<(u32, u32), Rgb> {
    if is_drawn(style) {
        let with_stroke = painted(
            canvas,
            stroked(geometry, samples, style.width).to_set(),
            rgb_of(style.color->0),
        );
        match fill_outcome(geometry, samples, closed, style) {
            FillOutcome::Filled(region) => painted(with_stroke, region, rgb_of(fill_color_of(style))),
            _ => with_stroke,
        }
    } else {
        canvas
    }
}

/// The style of the way at position `i`.
pub open spec fn way_style(groups: Seq<DeclarationGroupView>, ways: Seq<WayTrace>, i: int) -> RenderStyle {
    style_for(groups, ways[i].way.model())
}

/// The z-index of each way.
pub open spec fn z_indices(groups: Seq<DeclarationGroupView>, ways: Seq<WayTrace>) -> Seq<i32> {
    Seq::new(ways.len(), |i: int| way_style(groups, ways, i).z_index)
}

/// The canvas after the ways at the positions in `order` were drawn in that
/// order: later ways paint over earlier ones.
pub open spec fn rendered(
    canvas: Map<(u32, u32), Rgb>,
    geometry: Geometry,
    groups: Seq<DeclarationGroupView>,
    ways: Seq<WayTrace>,
    order: Seq<usize>,
) -> Map<(u32, u32), Rgb>
    decreases order.len(),
{
    if order.len() == 0 {
        canvas
    } else {
        let i = order.last() as int;
        way_painted(
            rendered(canvas, geometry, groups, ways, order.drop_last()),
            geometry,
            ways[i].samples@,
            ways[i].way.closed_spec(),
            way_style(groups, ways, i),
        )
    }
}

/// How many pixels the fills of the ways at the positions in `order` hold.
pub open spec fn filled_pixel_count(
    geometry: Geometry,
    groups: Seq<DeclarationGroupView>,
    ways: Seq<WayTrace>,
    order: Seq<usize>,
) -> nat
    decreases order.len(),
{
    if order.len() == 0 {
        0
    } else {
        let i = order.last() as int;
        filled_pixel_count(geometry, groups, ways, order.drop_last()) + (match fill_outcome(
            geometry,
            ways[i].samples@,
            ways[i].way.closed_spec(),
            way_style(groups, ways, i),
        ) {
            FillOutcome::Filled(region) => region.len(),
            _ => 0,
        })
    }
}

/// How many of the ways at the positions in `order` were left without a fill
/// for want of a seed or of iterations.
pub open spec fn unfilled_way_count(
    geometry: Geometry,
    groups: Seq<DeclarationGroupView>,
    ways: Seq<WayTrace>,
    order: Seq<usize>,
) -> nat
    decreases order.len(),
{
    if order.len() == 0 {
        0
    } else {
        let i = order.last() as int;
        unfilled_way_count(geometry, groups, ways, order.drop_last()) + (match fill_outcome(
            geometry,
            ways[i].samples@,
            ways[i].way.closed_spec(),
            way_style(groups, ways, i),
        ) {
            FillOutcome::NoSeed | FillOutcome::GivenUp => 1nat,
            _ => 0nat,
        })
    }
}

/// The kinds of unsupported condition met when the styles of all ways are
/// resolved.
pub open spec fn unsupported_for_ways(
    groups: Seq<DeclarationGroupView>,
    ways: Seq<WayTrace>,
) -> RenderSession
    decreases ways.len(),
{
    if ways.len() == 0 {
        RenderSession::quiet()
    } else {
        unsupported_for_ways(groups, ways.drop_last()).join(
            unsupported_for(groups, ways.last().way.model()),
        )
    }
}

/// Whether node reference `j` of way `i` names a node that is missing.
pub open spec fn dangling_at(nodes: Map<i64, NodeData>, ways: Seq<WayTrace>, i: int, j: int) -> bool {
    &&& 0 <= i < ways.len()
    &&& 0 <= j < ways[i].way.refs_spec().len()
    &&& !nodes.contains_key(ways[i].way.refs_spec()[j])
}

/// Whether `(i, j)` is the first missing node reference, ways and references
/// taken in order.
pub open spec fn first_dangling_at(
    nodes: Map<i64, NodeData>,
    ways: Seq<WayTrace>,
    i: int,
    j: int,
) -> bool {
    &&& dangling_at(nodes, ways, i, j)
    &&& forall|a: int, b: int|
        (a < i || (a == i && b < j)) ==> !#[trigger] dangling_at(nodes, ways, a, b)
}

/// The bounding box of the projected nodes; `None` without nodes.
pub open spec fn bounds_of(nodes: Map<i64, NodeData>, resolution_factor: u32) -> Option<Bounds> {
    if nodes.dom().is_empty() {
        None
    } else {
        Some(choose|bounds: Bounds| is_bounding_box(nodes, resolution_factor, bounds))
    }
}

/// There is one bounding box at most.
pub proof fn lemma_bounding_box_unique(
    nodes: Map<i64, NodeData>,
    resolution_factor: u32,
    first: Bounds,
    second: Bounds,
)
    requires
        is_bounding_box(nodes, resolution_factor, first),
        is_bounding_box(nodes, resolution_factor, second),
    ensures
        first == second,
{
}

/// Resolves the style of an element.
pub fn resolve_style<E: ElementData>(
    stylesheet: &MapCssDeclarationList,
    element: &E,
    session: &mut RenderSession,
) -> (style: RenderStyle)
    ensures
        style == style_for(stylesheet@, element.model()),
        *final(session) == old(session).join(unsupported_for(stylesheet@, element.model())),
{
    let z_index = match stylesheet.search_cascading(
        element,
        &MapCssDeclarationProperty::ZIndex,
        session,
    ) {
        Some(value) => match value.as_integer() {
            Some(z_index) => z_index,
            None => 0,
        },
        None => 0,
    };
    let color = match stylesheet.search_cascading(
        element,
        &MapCssDeclarationProperty::Color,
        session,
    ) {
        Some(value) => value.as_color(),
        None => None,
    };
    let fill = match stylesheet.search_cascading(
        element,
        &MapCssDeclarationProperty::FillColor,
        session,
    ) {
        Some(value) => value.as_color(),
        None => None,
    };
    let width: u32 = match stylesheet.search_cascading(
        element,
        &MapCssDeclarationProperty::Width,
        session,
    ) {
        Some(value) => match value.as_integer() {
            Some(width) => if width >= 0 {
                width as u32
            } else {
                0
            },
            None => 0,
        },
        None => 1,
    };
    RenderStyle {
        z_index,
        color,
        fill_color: if fill.is_some() {
            fill
        } else {
            color
        },
        width,
    }
}

/// Tries to fill the inside of an outline: looks for a seed between the top and
/// the bottom row, floods from it, and paints what the flood reaches.
pub fn fill_outline(canvas: &mut Canvas, stroke: &Stroke, color: Rgb) -> (report: FillReport)
    requires
        old(canvas).well_formed(),
        forall|p: (u32, u32)| #[trigger]
            outlined(stroke.outline@).contains(p) ==> p.0 < canvas_size(*old(canvas)).0 && p.1
                < canvas_size(*old(canvas)).1,
    ensures
        canvas_size(*final(canvas)) == canvas_size(*old(canvas)),
        final(canvas).well_formed(),
        match fill_attempt(outlined(stroke.outline@), stroke.extent) {
            FillOutcome::NotTried => report == FillReport::NotTried && canvas_pixels(*final(canvas))
                == canvas_pixels(*old(canvas)),
            FillOutcome::NoSeed => report == FillReport::NoSeed && canvas_pixels(*final(canvas))
                == canvas_pixels(*old(canvas)),
            FillOutcome::GivenUp => report == FillReport::GivenUp && canvas_pixels(*final(canvas))
                == canvas_pixels(*old(canvas)),
            FillOutcome::Filled(region) => report == FillReport::Filled(region.len() as usize)
                && region.len() < FLOOD_FILL_ITERATION_CAP && canvas_pixels(*final(canvas))
                == painted(canvas_pixels(*old(canvas)), region, color),
        },
{
    let ghost outline = outlined(stroke.outline@);
    let extent = &stroke.extent;
    // determine whether we can fill the area
    let same = extent.leftmost.0 == extent.rightmost.0 && extent.leftmost.1 == extent.rightmost.1;
    if same || are_image_coordinates_horizontally_next_to_each_other(
        extent.leftmost,
        extent.rightmost,
    ) {
        return FillReport::NotTried;
    }
    let seed = match get_inside_point(extent.top_row, extent.bottom_row, &stroke.outline) {
        Some(seed) => seed,
        None => {
            proof {
                assert forall|s: (u32, u32)|
                    !is_seed(outline, extent.top_row, extent.bottom_row, s) by {
                    if is_seed(outline, extent.top_row, extent.bottom_row, s) {
                        assert(gap_after(outline, (s.0 - 1) as u32, s.1));
                    }
                }
            }
            return FillReport::NoSeed;
        },
    };
    proof {
        let chosen = choose|s: (u32, u32)|
            is_seed(outline, extent.top_row, extent.bottom_row, s);
        lemma_seed_unique(outline, extent.top_row, extent.bottom_row, seed, chosen);
    }
    let ghost region = fill_region(outline, seed);
    let filled = match get_flood_filled_pixels(seed, &stroke.outline) {
        Some(filled) => filled,
        None => {
            return FillReport::GivenUp;
        },
    };
    proof {
        filled@.unique_seq_to_set();
    }
    let ghost canvas_before = canvas_pixels(*canvas);
    let mut i: usize = 0;
    proof {
        assert(filled@.take(0).to_set() =~= Set::<(u32, u32)>::empty());
        assert(canvas_pixels(*canvas) =~= painted(canvas_before, filled@.take(0).to_set(), color));
    }
    while i < filled.len()
        invariant
            i <= filled.len(),
            canvas_size(*canvas) == canvas_size(*old(canvas)),
            canvas.well_formed(),
            canvas_before == canvas_pixels(*old(canvas)),
            outline == outlined(stroke.outline@),
            filled@.to_set() == fill_region(outline, seed),
            forall|p: (u32, u32)| #[trigger]
                outline.contains(p) ==> p.0 < canvas_size(*canvas).0 && p.1 < canvas_size(
                    *canvas,
                ).1,
            canvas_pixels(*canvas) == painted(canvas_before, filled@.take(i as int).to_set(), color),
        decreases filled.len() - i,
    {
        let (x, y) = filled[i];
        proof {
            assert(filled@.to_set().contains(filled@[i as int]));
            assert(fill_region(outline, seed).contains((x, y)));
            lemma_reachable_is_inside(outline, seed, (x, y));
            lemma_inside_on_canvas(
                outline,
                (x, y),
                canvas_size(*canvas).0,
                canvas_size(*canvas).1,
            );
            assert(filled@.take(i + 1) =~= filled@.take(i as int).push((x, y)));
            filled@.take(i as int).lemma_push_to_set_commute((x, y));
        }
        canvas.put(x, y, color);
        proof {
            assert(canvas_pixels(*canvas) =~= painted(
                canvas_before,
                filled@.take(i + 1).to_set(),
                color,
            ));
        }
        i = i + 1;
    }
    proof {
        assert(filled@.take(filled@.len() as int) =~= filled@);
    }
    FillReport::Filled(filled.len())
}

/// Draws one way: strokes it and, if it is a closed path, tries to fill it.
/// A way without stroke color or of width zero is left out.
pub fn draw_way(
    canvas: &mut Canvas,
    geometry: &Geometry,
    samples: &Vec<(i64, i64)>,
    closed: bool,
    style: &RenderStyle,
) -> (report: FillReport)
    requires
        canvas_size(*old(canvas)) == (geometry.columns, geometry.rows),
        old(canvas).well_formed(),
    ensures
        canvas_size(*final(canvas)) == canvas_size(*old(canvas)),
        final(canvas).well_formed(),
        canvas_pixels(*final(canvas)) == way_painted(
            canvas_pixels(*old(canvas)),
            *geometry,
            samples@,
            closed,
            *style,
        ),
        match fill_outcome(*geometry, samples@, closed, *style) {
            FillOutcome::NotTried => report == FillReport::NotTried,
            FillOutcome::NoSeed => report == FillReport::NoSeed,
            FillOutcome::GivenUp => report == FillReport::GivenUp,
            FillOutcome::Filled(region) => report == FillReport::Filled(region.len() as usize)
                && region.len() < FLOOD_FILL_ITERATION_CAP,
        },
{
    let color = match style.color {
        Some(color) => color,
        None => {
            return FillReport::NotTried;
        },
    };
    if style.width == 0 {
        return FillReport::NotTried;
    }
    let fill_color = match style.fill_color {
        Some(fill_color) => fill_color,
        None => color,
    };
    // draw the outline of the way and remember it
    let stroke = stroke_samples(
        canvas,
        geometry,
        samples,
        style.width,
        (color.red, color.green, color.blue),
        closed,
    );
    if !closed {
        return FillReport::NotTried;
    }
    proof {
        lemma_stroked_on_canvas(*geometry, samples@, style.width);
        let pixels = stroked(*geometry, samples@, style.width);
        assert forall|p: (u32, u32)| #[trigger] pixels.to_set().contains(p) implies p.0
            < geometry.columns && p.1 < geometry.rows by {
            let k = choose|k: int| 0 <= k < pixels.len() && pixels[k] == p;
            assert(pixels[k].0 < geometry.columns);
        }
    }
    fill_outline(canvas, &stroke, (fill_color.red, fill_color.green, fill_color.blue))
}

/// The canvas geometry for a node collection: that of its bounding box.
pub open spec fn canvas_geometry_for(
    nodes: Map<i64, NodeData>,
    resolution_factor: u32,
) -> Option<Geometry> {
    geometry_for(bounds_of(nodes, resolution_factor))
}

/// Looks for the first node reference of a way that names a missing node.
/// Gives the way's id and the node's id.
pub fn find_dangling_reference(
    nodes: &HashMap<i64, NodeData>,
    ways: &Vec<WayTrace>,
) -> (dangling: Option<(i64, i64)>)
    ensures
        match dangling {
            Some((way, node)) => exists|i: int, j: int|
                #[trigger] first_dangling_at(nodes@, ways@, i, j) && way == ways@[i].way.id_spec()
                    && node == ways@[i].way.refs_spec()[j],
            None => forall|i: int, j: int| !#[trigger] dangling_at(nodes@, ways@, i, j),
        },
{
    broadcast use vstd::std_specs::hash::group_hash_axioms;

    let mut i: usize = 0;
    while i < ways.len()
        invariant
            i <= ways.len(),
            forall|a: int, b: int| a < i ==> !#[trigger] dangling_at(nodes@, ways@, a, b),
        decreases ways.len() - i,
    {
        let refs = ways[i].way.refs();
        let mut j: usize = 0;
        while j < refs.len()
            invariant
                i < ways.len(),
                j <= refs.len(),
                refs@ == ways@[i as int].way.refs_spec(),
                forall|a: int, b: int|
                    (a < i || (a == i && b < j)) ==> !#[trigger] dangling_at(nodes@, ways@, a, b),
            decreases refs.len() - j,
        {
            if !nodes.contains_key(&refs[j]) {
                assert(first_dangling_at(nodes@, ways@, i as int, j as int));
                return Some((ways[i].way.way_id(), refs[j]));
            }
            j = j + 1;
        }
        i = i + 1;
    }
    None
}

/// Resolves the style of each way, in the order of the ways.
pub fn resolve_styles(
    stylesheet: &MapCssDeclarationList,
    ways: &Vec<WayTrace>,
    session: &mut RenderSession,
) -> (styles: Vec<RenderStyle>)
    ensures
        styles@.len() == ways@.len(),
        forall|i: int| 0 <= i < ways@.len() ==> #[trigger] styles@[i] == way_style(stylesheet@, ways@, i),
        *final(session) == old(session).join(unsupported_for_ways(stylesheet@, ways@)),
{
    let mut styles: Vec<RenderStyle> = Vec::new();
    let mut i: usize = 0;
    proof {
        assert(ways@.take(0) =~= Seq::<WayTrace>::empty());
    }
    while i < ways.len()
        invariant
            i <= ways.len(),
            styles@.len() == i,
            forall|k: int| 0 <= k < i ==> #[trigger] styles@[k] == way_style(stylesheet@, ways@, k),
            *session == old(session).join(unsupported_for_ways(stylesheet@, ways@.take(i as int))),
        decreases ways.len() - i,
    {
        proof {
            let longer = ways@.take(i + 1);
            assert(longer.drop_last() =~= ways@.take(i as int));
            assert(longer.last() == ways@[i as int]);
        }
        let style = resolve_style(stylesheet, &ways[i].way, session);
        styles.push(style);
        i = i + 1;
    }
    proof {
        assert(ways@.take(ways@.len() as int) =~= ways@);
    }
    styles
}

impl PngPainter {
    /// Paints the ways, styled by the stylesheet, onto a fresh canvas.
    ///
    /// A way that refers to a missing node makes the whole pass fail, and so
    /// does a canvas that does not fit into memory. Otherwise the canvas is
    /// sized to the bounding box of all nodes, filled with the background
    /// color, and the ways are drawn onto it in the order of their z-index.
    pub fn paint(
        &mut self,
        image_resolution_factor: u32,
        mapcss_ast: &MapCssDeclarationList,
        nid_to_node_data: &HashMap<i64, NodeData>,
        ways: &Vec<WayTrace>,
        session: &mut RenderSession,
    ) -> (result: Result<RenderOutcome, RenderError>)
        ensures
            match result {
                Err(RenderError::DanglingNodeReference { way, node }) => {
                    &&& exists|i: int, j: int|
                        #[trigger] first_dangling_at(nid_to_node_data@, ways@, i, j) && way
                            == ways@[i].way.id_spec() && node == ways@[i].way.refs_spec()[j]
                    &&& *final(session) == *old(session)
                },
                Err(RenderError::CanvasTooLarge) => {
                    &&& forall|i: int, j: int| !#[trigger] dangling_at(nid_to_node_data@, ways@, i, j)
                    &&& canvas_geometry_for(nid_to_node_data@, image_resolution_factor) is None
                    &&& *final(session) == *old(session)
                },
                Ok(outcome) => {
                    &&& forall|i: int, j: int| !#[trigger] dangling_at(nid_to_node_data@, ways@, i, j)
                    &&& canvas_geometry_for(nid_to_node_data@, image_resolution_factor) == Some(
                        outcome.geometry,
                    )
                    &&& canvas_size(outcome.canvas) == (
                        outcome.geometry.columns,
                        outcome.geometry.rows,
                    )
                    &&& outcome.canvas.well_formed()
                    &&& is_draw_order(outcome.draw_order@, z_indices(mapcss_ast@, ways@))
                    &&& canvas_pixels(outcome.canvas) == rendered(
                        blank(
                            outcome.geometry.columns,
                            outcome.geometry.rows,
                            rgb_of(background_for(mapcss_ast@)),
                        ),
                        outcome.geometry,
                        mapcss_ast@,
                        ways@,
                        outcome.draw_order@,
                    )
                    &&& outcome.processed_ways == ways@.len()
                    &&& outcome.flood_fill_pixel_count == filled_pixel_count(
                        outcome.geometry,
                        mapcss_ast@,
                        ways@,
                        outcome.draw_order@,
                    )
                    &&& outcome.no_inside_count == unfilled_way_count(
                        outcome.geometry,
                        mapcss_ast@,
                        ways@,
                        outcome.draw_order@,
                    )
                    &&& *final(session) == old(session).join(
                        unsupported_for(mapcss_ast@, canvas_model()),
                    ).join(unsupported_for_ways(mapcss_ast@, ways@))
                },
            },
    {
        match find_dangling_reference(nid_to_node_data, ways) {
            Some((way, node)) => {
                return Err(RenderError::DanglingNodeReference { way, node });
            },
            None => {},
        }
        let bounds = compute_bounds(nid_to_node_data, image_resolution_factor);
        proof {
            match bounds {
                Some(b) => {
                    assert(!nid_to_node_data@.dom().is_empty());
                    let chosen = choose|c: Bounds|
                        is_bounding_box(nid_to_node_data@, image_resolution_factor, c);
                    lemma_bounding_box_unique(
                        nid_to_node_data@,
                        image_resolution_factor,
                        b,
                        chosen,
                    );
                },
                None => {},
            }
            assert(bounds == bounds_of(nid_to_node_data@, image_resolution_factor));
        }
        let geometry = match canvas_geometry(&bounds) {
            Some(geometry) => geometry,
            None => {
                return Err(RenderError::CanvasTooLarge);
            },
        };
        let canvas_element = CanvasElement {  };
        let background = canvas_element.background_color(mapcss_ast, session);
        let mut canvas = Canvas::filled(
            geometry.columns,
            geometry.rows,
            (background.red, background.green, background.blue),
        );
        let ghost fresh = canvas_pixels(canvas);
        let styles = resolve_styles(mapcss_ast, ways, session);
        let mut z: Vec<i32> = Vec::new();
        let mut i: usize = 0;
        while i < styles.len()
            invariant
                i <= styles.len(),
                z@.len() == i,
                forall|k: int| 0 <= k < i ==> #[trigger] z@[k] == styles@[k].z_index,
            decreases styles.len() - i,
        {
            z.push(styles[i].z_index);
            i = i + 1;
        }
        assert(z@ =~= z_indices(mapcss_ast@, ways@));
        let order = draw_order(&z);
        let mut flood_fill_pixel_count: u128 = 0;
        let mut no_inside_count: usize = 0;
        let mut k: usize = 0;
        proof {
            assert(order@.take(0) =~= Seq::<usize>::empty());
        }
        while k < order.len()
            invariant
                k <= order.len(),
                order@.len() == ways@.len(),
                styles@.len() == ways@.len(),
                forall|n: int| 0 <= n < order@.len() ==> (#[trigger] order@[n]) < ways@.len(),
                forall|n: int|
                    0 <= n < ways@.len() ==> #[trigger] styles@[n] == way_style(
                        mapcss_ast@,
                        ways@,
                        n,
                    ),
                canvas_size(canvas) == (geometry.columns, geometry.rows),
                canvas.well_formed(),
                canvas_pixels(canvas) == rendered(
                    fresh,
                    geometry,
                    mapcss_ast@,
                    ways@,
                    order@.take(k as int),
                ),
                flood_fill_pixel_count == filled_pixel_count(
                    geometry,
                    mapcss_ast@,
                    ways@,
                    order@.take(k as int),
                ),
                no_inside_count == unfilled_way_count(
                    geometry,
                    mapcss_ast@,
                    ways@,
                    order@.take(k as int),
                ),
                flood_fill_pixel_count <= k * FLOOD_FILL_ITERATION_CAP,
                no_inside_count <= k,
            decreases order.len() - k,
        {
            proof {
                let longer = order@.take(k + 1);
                assert(longer.drop_last() =~= order@.take(k as int));
                assert(longer.last() == order@[k as int]);
            }
            let at = order[k];
            let trace = &ways[at];
            let closed = trace.way.has_closed_path();
            let report = draw_way(&mut canvas, &geometry, &trace.samples, closed, &styles[at]);
            assert((k + 1) * FLOOD_FILL_ITERATION_CAP == k * FLOOD_FILL_ITERATION_CAP
                + FLOOD_FILL_ITERATION_CAP) by (nonlinear_arith);
            match report {
                FillReport::Filled(count) => {
                    flood_fill_pixel_count = flood_fill_pixel_count + count as u128;
                },
                FillReport::NoSeed | FillReport::GivenUp => {
                    no_inside_count = no_inside_count + 1;
                },
                FillReport::NotTried => {},
            }
            k = k + 1;
        }
        proof {
            assert(order@.take(order@.len() as int) =~= order@);
        }
        Ok(
            RenderOutcome {
                canvas,
                geometry,
                draw_order: order,
                processed_ways: ways.len(),
                flood_fill_pixel_count,
                no_inside_count,
            },
        )
    }
}

} // verus!
