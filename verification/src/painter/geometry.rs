//! From coordinates to pixels: projection, bounding box, canvas size and the
//! mapping of projected points onto the canvas.

use crate::data::NodeData;
use crate::{round_up_to, round_up_to_spec};
use std::collections::HashMap;
use vstd::prelude::*;
use vstd::std_specs::iter::IteratorSpec;

verus! {

/// The canvas is sized in whole parts of this many pixels.
pub const IMAGE_PART_SIZE: u32 = 64;

/// How far the drawing is moved in from the canvas edge, in pixels.
pub const IMAGE_PADDING: u32 = 2;

/// Coordinates are held in this many parts of a degree.
pub const COORDINATE_SCALE: i64 = 10_000_000;

/// `n / d` rounded to the nearest integer, halves away from zero.
pub open spec fn rounded_quotient(n: int, d: int) -> int {
    if n >= 0 {
        (2 * n + d) / (2 * d)
    } else {
        -((2 * (-n) + d) / (2 * d))
    }
}

/// The pixel coordinate of a coordinate: degrees times resolution factor,
/// rounded. It is a flat linear scale.
pub open spec fn projected(coordinate: i32, resolution_factor: u32) -> int {
    rounded_quotient(coordinate as int * resolution_factor as int, COORDINATE_SCALE as int)
}

/// Projects a coordinate to its pixel coordinate.
pub fn project(coordinate: i32, resolution_factor: u32) -> (pixel: i64)
    ensures
        pixel == projected(coordinate, resolution_factor),
        -0x4000_0000_0000 < pixel < 0x4000_0000_0000,
{
    assert(-0x8000_0000 * 0x1_0000_0000 <= coordinate as int * resolution_factor as int
        <= 0x8000_0000 * 0x1_0000_0000) by (nonlinear_arith)
        requires
            -0x8000_0000 <= coordinate < 0x8000_0000,
            0 <= resolution_factor < 0x1_0000_0000,
    ;
    let scaled: i128 = (coordinate as i128) * (resolution_factor as i128);
    let scale: i128 = COORDINATE_SCALE as i128;
    let rounded: i128 = if scaled >= 0 {
        (2 * scaled + scale) / (2 * scale)
    } else {
        -((2 * (-scaled) + scale) / (2 * scale))
    };
    rounded as i64
}

/// The smallest and largest projected coordinates of a set of nodes.
#[derive(Debug, Clone, Copy, PartialEq, Eq, Structural)]
pub struct Bounds {
    pub min_lat: i64,
    pub max_lat: i64,
    pub min_lon: i64,
    pub max_lon: i64,
}

impl Bounds {
    /// Whether no minimum lies above its maximum.
    pub open spec fn ordered(self) -> bool {
        self.min_lat <= self.max_lat && self.min_lon <= self.max_lon
    }
}

/// Whether `bounds` is the bounding box of the projected nodes: no node lies
/// outside, and each side touches a node.
pub open spec fn is_bounding_box(
    nodes: Map<i64, NodeData>,
    resolution_factor: u32,
    bounds: Bounds,
) -> bool {
    &&& forall|id: i64| #[trigger]
        nodes.contains_key(id) ==> {
            &&& bounds.min_lat <= projected(nodes[id].lat, resolution_factor) <= bounds.max_lat
            &&& bounds.min_lon <= projected(nodes[id].lon, resolution_factor) <= bounds.max_lon
        }
    &&& exists|id: i64| #[trigger]
        nodes.contains_key(id) && projected(nodes[id].lat, resolution_factor) == bounds.min_lat
    &&& exists|id: i64| #[trigger]
        nodes.contains_key(id) && projected(nodes[id].lat, resolution_factor) == bounds.max_lat
    &&& exists|id: i64| #[trigger]
        nodes.contains_key(id) && projected(nodes[id].lon, resolution_factor) == bounds.min_lon
    &&& exists|id: i64| #[trigger]
        nodes.contains_key(id) && projected(nodes[id].lon, resolution_factor) == bounds.max_lon
}

/// Scans every node for the smallest and largest projected coordinates.
/// Without nodes there is no bounding box.
pub fn compute_bounds(nodes: &HashMap<i64, NodeData>, resolution_factor: u32) -> (bounds: Option<
    Bounds,
>)
    ensures
        bounds is None <==> nodes@.dom().is_empty(),
        bounds matches Some(b) ==> is_bounding_box(nodes@, resolution_factor, b) && b.ordered(),
{
    broadcast use vstd::std_specs::hash::group_hash_axioms;

    let mut bounds: Option<Bounds> = None;
    let iter = nodes.iter();
    let ghost all = iter.remaining();
    for (id, node) in it: iter
        invariant
            it.seq() == all,
            all == vstd::std_specs::hash::spec_hash_map_iter(nodes).remaining(),
            bounds is None <==> it.index() == 0,
            bounds matches Some(b) ==> {
                &&& forall|j: int|
                    0 <= j < it.index() ==> {
                        &&& b.min_lat <= projected((#[trigger] all[j]).1.lat, resolution_factor)
                            <= b.max_lat
                        &&& b.min_lon <= projected(all[j].1.lon, resolution_factor) <= b.max_lon
                    }
                &&& exists|j: int|
                    0 <= j < it.index() && projected((#[trigger] all[j]).1.lat, resolution_factor)
                        == b.min_lat
                &&& exists|j: int|
                    0 <= j < it.index() && projected((#[trigger] all[j]).1.lat, resolution_factor)
                        == b.max_lat
                &&& exists|j: int|
                    0 <= j < it.index() && projected((#[trigger] all[j]).1.lon, resolution_factor)
                        == b.min_lon
                &&& exists|j: int|
                    0 <= j < it.index() && projected((#[trigger] all[j]).1.lon, resolution_factor)
                        == b.max_lon
            },
    {
        let ghost here = it.index() as int;
        assert(all[here].1 == node);
        let lat = project(node.lat, resolution_factor);
        let lon = project(node.lon, resolution_factor);
        bounds =
        match bounds {
            None => Some(Bounds { min_lat: lat, max_lat: lat, min_lon: lon, max_lon: lon }),
            Some(b) => Some(
                Bounds {
                    min_lat: if lat < b.min_lat {
                        lat
                    } else {
                        b.min_lat
                    },
                    max_lat: if lat > b.max_lat {
                        lat
                    } else {
                        b.max_lat
                    },
                    min_lon: if lon < b.min_lon {
                        lon
                    } else {
                        b.min_lon
                    },
                    max_lon: if lon > b.max_lon {
                        lon
                    } else {
                        b.max_lon
                    },
                },
            ),
        };
    }
    proof {
        assert(all.len() == nodes@.dom().len());
        match bounds {
            Some(b) => {
                let first = all[0];
                assert(nodes@.contains_key(*first.0));
                assert forall|id: i64| #[trigger] nodes@.contains_key(id) implies {
                    &&& b.min_lat <= projected(nodes@[id].lat, resolution_factor) <= b.max_lat
                    &&& b.min_lon <= projected(nodes@[id].lon, resolution_factor) <= b.max_lon
                } by {
                    assert(all.contains((&id, &nodes@[id])));
                    let j = choose|j: int| 0 <= j < all.len() && all[j] == (&id, &nodes@[id]);
                    assert(all[j].1.lat == nodes@[id].lat);
                }
                let j1 = choose|j: int|
                    0 <= j < all.len() && projected((#[trigger] all[j]).1.lat, resolution_factor)
                        == b.min_lat;
                assert(nodes@.contains_key(*all[j1].0) && nodes@[*all[j1].0] == *all[j1].1);
                let j2 = choose|j: int|
                    0 <= j < all.len() && projected((#[trigger] all[j]).1.lat, resolution_factor)
                        == b.max_lat;
                assert(nodes@.contains_key(*all[j2].0) && nodes@[*all[j2].0] == *all[j2].1);
                let j3 = choose|j: int|
                    0 <= j < all.len() && projected((#[trigger] all[j]).1.lon, resolution_factor)
                        == b.min_lon;
                assert(nodes@.contains_key(*all[j3].0) && nodes@[*all[j3].0] == *all[j3].1);
                let j4 = choose|j: int|
                    0 <= j < all.len() && projected((#[trigger] all[j]).1.lon, resolution_factor)
                        == b.max_lon;
                assert(nodes@.contains_key(*all[j4].0) && nodes@[*all[j4].0] == *all[j4].1);
            },
            None => {
                assert(nodes@.dom().len() == 0);
            },
        }
    }
    bounds
}

/// Where the drawing sits on the canvas and how large the canvas is. The image
/// is stored turned by 270 degrees: longitude runs along the rows, latitude up
/// the columns.
#[derive(Debug, Clone, Copy, PartialEq, Eq, Structural)]
pub struct Geometry {
    /// The smallest projected latitude.
    pub min_lat: i64,
    /// The smallest projected longitude.
    pub min_lon: i64,
    /// The canvas height: the extent in latitude, in whole image parts.
    pub rows: u32,
    /// The canvas width: the extent in longitude, in whole image parts.
    pub columns: u32,
}

/// The canvas size along one axis: the extent from `min` to `max`, both
/// included, rounded up to whole image parts.
pub open spec fn axis_size(min: int, max: int) -> int {
    round_up_to_spec(max - min + 1, IMAGE_PART_SIZE as int)
}

/// The geometry for a bounding box; an empty canvas where there is none.
/// `None` where the canvas would not fit into memory.
pub open spec fn geometry_for(bounds: Option<Bounds>) -> Option<Geometry> {
    match bounds {
        None => Some(Geometry { min_lat: 0, min_lon: 0, rows: 0, columns: 0 }),
        Some(b) => {
            let rows = axis_size(b.min_lat as int, b.max_lat as int);
            let columns = axis_size(b.min_lon as int, b.max_lon as int);
            if rows <= u32::MAX && columns <= u32::MAX && 3 * columns * rows <= isize::MAX {
                Some(
                    Geometry {
                        min_lat: b.min_lat,
                        min_lon: b.min_lon,
                        rows: rows as u32,
                        columns: columns as u32,
                    },
                )
            } else {
                None
            }
        },
    }
}

/// Sizes the canvas for a bounding box.
pub fn canvas_geometry(bounds: &Option<Bounds>) -> (geometry: Option<Geometry>)
    requires
        bounds matches Some(b) ==> b.ordered(),
    ensures
        geometry == geometry_for(*bounds),
{
    match bounds {
        None => Some(Geometry { min_lat: 0, min_lon: 0, rows: 0, columns: 0 }),
        Some(b) => {
            let lat_extent: i128 = b.max_lat as i128 - b.min_lat as i128 + 1;
            let lon_extent: i128 = b.max_lon as i128 - b.min_lon as i128 + 1;
            // the largest extent whose rounded size still fits 32 bits
            if lat_extent > 0xffff_ffc0 || lon_extent > 0xffff_ffc0 {
                assert(axis_size(b.min_lat as int, b.max_lat as int) > u32::MAX || axis_size(
                    b.min_lon as int,
                    b.max_lon as int,
                ) > u32::MAX);
                return None;
            }
            let rows = round_up_to(lat_extent as u32, IMAGE_PART_SIZE);
            let columns = round_up_to(lon_extent as u32, IMAGE_PART_SIZE);
            assert(0 <= 3 * columns * rows <= 3 * 0x1_0000_0000 * 0x1_0000_0000) by (nonlinear_arith)
                requires
                    0 <= rows < 0x1_0000_0000,
                    0 <= columns < 0x1_0000_0000,
            ;
            let bytes: u128 = 3 * (columns as u128) * (rows as u128);
            if bytes > isize::MAX as u128 {
                return None;
            }
            Some(Geometry { min_lat: b.min_lat, min_lon: b.min_lon, rows, columns })
        },
    }
}

/// The canvas column of a projected point.
pub open spec fn image_x(geometry: Geometry, sample: (i64, i64)) -> int {
    sample.1 - geometry.min_lon + IMAGE_PADDING
}

/// The canvas row of a projected point.
pub open spec fn image_y(geometry: Geometry, sample: (i64, i64)) -> int {
    geometry.rows - IMAGE_PADDING - (sample.0 - geometry.min_lat)
}

/// The pixels that a stroke of `width` leaves for one sample: a horizontal
/// span around the sample's column, `width / 2` pixels to either side, as far
/// as it lies on the canvas. A sample whose row is off the canvas leaves none.
#[verifier::opaque]
pub open spec fn stroke_span(geometry: Geometry, sample: (i64, i64), width: u32) -> Seq<(u32, u32)> {
    let x = image_x(geometry, sample);
    let y = image_y(geometry, sample);
    let from = if x - width / 2 < 0 {
        0
    } else {
        x - width / 2
    };
    let to = if x + width / 2 > geometry.columns - 1 {
        geometry.columns - 1
    } else {
        x + width / 2
    };
    if 0 <= y < geometry.rows && from <= to {
        Seq::new((to - from + 1) as nat, |k: int| ((from + k) as u32, y as u32))
    } else {
        Seq::empty()
    }
}

/// The first and the last column of the stroke span of a sample and the row
/// they lie on; `None` where the span is empty.
pub fn span_of(geometry: &Geometry, sample: (i64, i64), width: u32) -> (span: Option<
    (u32, u32, u32),
>)
    ensures
        match span {
            Some((from, to, y)) => from <= to < geometry.columns && y < geometry.rows
                && stroke_span(*geometry, sample, width) == Seq::new(
                (to - from + 1) as nat,
                |k: int| ((from + k) as u32, y),
            ),
            None => stroke_span(*geometry, sample, width) == Seq::<(u32, u32)>::empty(),
        },
{
    reveal(stroke_span);
    let x: i128 = sample.1 as i128 - geometry.min_lon as i128 + IMAGE_PADDING as i128;
    let y: i128 = geometry.rows as i128 - IMAGE_PADDING as i128 - (sample.0 as i128
        - geometry.min_lat as i128);
    let half: i128 = (width / 2) as i128;
    let from: i128 = if x - half < 0 {
        0
    } else {
        x - half
    };
    let to: i128 = if x + half > geometry.columns as i128 - 1 {
        geometry.columns as i128 - 1
    } else {
        x + half
    };
    if 0 <= y && y < geometry.rows as i128 && from <= to {
        let (from, to, y) = (from as u32, to as u32, y as u32);
        assert(stroke_span(*geometry, sample, width) =~= Seq::new(
            (to - from + 1) as nat,
            |k: int| ((from + k) as u32, y),
        ));
        Some((from, to, y))
    } else {
        None
    }
}

/// Every pixel of a stroke span lies on the canvas.
pub proof fn lemma_span_on_canvas(geometry: Geometry, sample: (i64, i64), width: u32)
    ensures
        forall|i: int|
            0 <= i < stroke_span(geometry, sample, width).len() ==> (#[trigger] stroke_span(
                geometry,
                sample,
                width,
            )[i]).0 < geometry.columns && stroke_span(geometry, sample, width)[i].1
                < geometry.rows,
{
    reveal(stroke_span);
}

} // verus!
