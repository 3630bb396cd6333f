use line_drawing::XiaolinWu;
use osm_renderer::data::{NodeData, WayData};
use osm_renderer::mapcss::declaration::{
    FloatSize, MapCssDeclarationList, MapCssDeclarationProperty, MapCssDeclarationValueType,
    RenderSession, RGBA,
};
use osm_renderer::mapcss::selectors::{SelectorCondition, SelectorType};
use osm_renderer::painter::geometry::{
    canvas_geometry, compute_bounds, project, span_of, Bounds, Geometry,
};
use osm_renderer::painter::order::draw_order;
use osm_renderer::painter::{
    are_image_coordinates_horizontally_next_to_each_other, get_flood_filled_pixels,
    get_inside_point, is_inside, resolve_style, PngPainter, RenderError, RenderOutcome, WayTrace,
};
use std::collections::{BTreeSet, HashMap, HashSet};

const RED: (u8, u8, u8) = (255, 0, 0);
const BLACK: (u8, u8, u8) = (0, 0, 0);
const GRAY: (u8, u8, u8) = (128, 128, 128);
const WHITE: (u8, u8, u8) = (255, 255, 255);

/// One pixel per thousandth of a degree.
const FACTOR: u32 = 1000;

fn tag(key: &str, value: &str) -> (String, String) {
    (key.to_string(), value.to_string())
}

fn color(rgb: (u8, u8, u8)) -> MapCssDeclarationValueType {
    MapCssDeclarationValueType::Color(RGBA { red: rgb.0, green: rgb.1, blue: rgb.2, alpha: 255 })
}

/// A node at the given pixel position under `FACTOR`.
fn node_at(nid: i64, lat_px: i32, lon_px: i32) -> (i64, NodeData) {
    (nid, NodeData { nid, lat: lat_px * 10_000, lon: lon_px * 10_000, tags: vec![], way: None })
}

/// The samples of the line through the nodes of a way, as the application makes them.
fn trace(nodes: &HashMap<i64, NodeData>, way: WayData) -> WayTrace {
    let mut samples = Vec::new();
    for pair in way.refs().windows(2) {
        let a = &nodes[&pair[0]];
        let b = &nodes[&pair[1]];
        let scale = FACTOR as f64 / 10_000_000.0;
        for ((x, y), _alpha) in XiaolinWu::<f64, i64>::new(
            (a.lat as f64 * scale, a.lon as f64 * scale),
            (b.lat as f64 * scale, b.lon as f64 * scale),
        ) {
            samples.push((x, y));
        }
    }
    WayTrace { way, samples }
}

fn paint(
    list: &MapCssDeclarationList,
    nodes: &HashMap<i64, NodeData>,
    ways: &Vec<WayTrace>,
) -> Result<RenderOutcome, RenderError> {
    PngPainter::default().paint(FACTOR, list, nodes, ways, &mut RenderSession::new())
}

fn pixels_of(outcome: &RenderOutcome, rgb: (u8, u8, u8)) -> HashSet<(u32, u32)> {
    let mut found = HashSet::new();
    for y in 0..outcome.canvas.height() {
        for x in 0..outcome.canvas.width() {
            if outcome.canvas.pixel(x, y) == Some(rgb) {
                found.insert((x, y));
            }
        }
    }
    found
}

#[test]
fn scenario_motorway_is_stroked_in_red_three_pixels_wide() {
    let nodes: HashMap<i64, NodeData> = HashMap::from([node_at(1, 0, 0), node_at(2, 10, 20)]);
    let way = WayData::new(7, vec![tag("highway", "motorway")], vec![1, 2]).unwrap();
    let mut list = MapCssDeclarationList::new();
    list.register(
        SelectorType::Way,
        SelectorCondition::HasExactTagValue("highway".into(), "motorway".into()),
        vec![
            (MapCssDeclarationProperty::Color, color(RED)),
            (MapCssDeclarationProperty::Width, MapCssDeclarationValueType::Integer(3)),
        ],
    );
    let ways = vec![trace(&nodes, way)];
    let outcome = paint(&list, &nodes, &ways).unwrap();

    // 11 by 21 pixels, in whole parts of 64
    assert_eq!((outcome.canvas.width(), outcome.canvas.height()), (64, 64));
    assert_eq!(outcome.geometry, Geometry { min_lat: 0, min_lon: 0, rows: 64, columns: 64 });
    assert_eq!(outcome.canvas.pixel(64, 0), None);
    assert_eq!(outcome.canvas.pixel(0, 64), None);

    let red = pixels_of(&outcome, RED);
    let mut expected = HashSet::new();
    for (lat, lon) in &ways[0].samples {
        // the image is turned: longitude runs along the rows
        let (x, y) = ((lon + 2) as u32, (64 - 2 - lat) as u32);
        for column in x - 1..=x + 1 {
            expected.insert((column, y));
        }
    }
    assert_eq!(red, expected);
    // both ends of the line are on it
    assert!(red.contains(&(2, 62)) && red.contains(&(22, 52)));
    assert!(red.contains(&(1, 62)) && red.contains(&(3, 62)));
    assert!(red.contains(&(12, 57)));
    // everything else is background
    assert_eq!(pixels_of(&outcome, WHITE).len() + red.len(), 64 * 64);
    // no fill
    assert_eq!(outcome.flood_fill_pixel_count, 0);
    assert_eq!(outcome.no_inside_count, 0);
    assert_eq!(outcome.processed_ways, 1);
    assert_eq!(outcome.draw_order, vec![0]);
}

fn square(nodes: &HashMap<i64, NodeData>, wid: i64, tags: Vec<(String, String)>) -> WayTrace {
    trace(nodes, WayData::new(wid, tags, vec![1, 2, 3, 4, 1]).unwrap())
}

fn square_nodes(size: i32) -> HashMap<i64, NodeData> {
    HashMap::from([node_at(1, 0, 0), node_at(2, 0, size), node_at(3, size, size), node_at(4, size, 0)])
}

#[test]
fn scenario_square_has_black_outline_and_gray_inside() {
    let nodes = square_nodes(20);
    let mut list = MapCssDeclarationList::new();
    list.register(
        SelectorType::Area,
        SelectorCondition::HasExactTagValue("highway".into(), "residential".into()),
        vec![
            (MapCssDeclarationProperty::Color, color(BLACK)),
            (MapCssDeclarationProperty::FillColor, color(GRAY)),
        ],
    );
    let ways = vec![square(&nodes, 7, vec![tag("highway", "residential")])];
    let outcome = paint(&list, &nodes, &ways).unwrap();

    // the centroid
    assert_eq!(outcome.canvas.pixel(12, 52), Some(GRAY));
    // the corners and the middle of each side
    for (x, y) in [(2, 62), (22, 62), (2, 42), (22, 42), (12, 62), (12, 42), (2, 52), (22, 52)] {
        assert_eq!(outcome.canvas.pixel(x, y), Some(BLACK));
    }
    let mut outline = HashSet::new();
    let mut inside = HashSet::new();
    for x in 2..=22u32 {
        for y in 42..=62u32 {
            if x == 2 || x == 22 || y == 42 || y == 62 {
                outline.insert((x, y));
            } else {
                inside.insert((x, y));
            }
        }
    }
    assert_eq!(pixels_of(&outcome, BLACK), outline);
    assert_eq!(pixels_of(&outcome, GRAY), inside);
    assert_eq!(pixels_of(&outcome, WHITE).len(), 64 * 64 - 21 * 21);
    assert_eq!(outcome.flood_fill_pixel_count, 19 * 19);
    assert_eq!(outcome.no_inside_count, 0);
}

#[test]
fn fill_falls_back_to_the_stroke_color() {
    let nodes = square_nodes(6);
    let mut list = MapCssDeclarationList::new();
    list.register(
        SelectorType::Way,
        SelectorCondition::No,
        vec![(MapCssDeclarationProperty::Color, color(RED))],
    );
    let outcome = paint(&list, &nodes, &vec![square(&nodes, 7, vec![])]).unwrap();
    assert_eq!(pixels_of(&outcome, RED).len(), 7 * 7);
    assert_eq!(outcome.flood_fill_pixel_count, 5 * 5);
}

#[test]
fn way_without_color_or_of_width_zero_is_not_drawn() {
    let nodes = square_nodes(6);
    let width = |value: MapCssDeclarationValueType| (MapCssDeclarationProperty::Width, value);
    // no color, whatever the width
    let mut list = MapCssDeclarationList::new();
    list.register(
        SelectorType::Way,
        SelectorCondition::No,
        vec![
            width(MapCssDeclarationValueType::Integer(5)),
            (MapCssDeclarationProperty::FillColor, color(GRAY)),
        ],
    );
    let outcome = paint(&list, &nodes, &vec![square(&nodes, 7, vec![])]).unwrap();
    assert_eq!(pixels_of(&outcome, WHITE).len(), 64 * 64);
    assert_eq!(outcome.no_inside_count, 0);

    for value in [
        MapCssDeclarationValueType::Integer(0),
        MapCssDeclarationValueType::Integer(-1),
        MapCssDeclarationValueType::Float(FloatSize { thousandths: 999 }),
        MapCssDeclarationValueType::String("wide".into()),
    ] {
        let mut list = MapCssDeclarationList::new();
        list.register(
            SelectorType::Way,
            SelectorCondition::No,
            vec![(MapCssDeclarationProperty::Color, color(RED)), width(value)],
        );
        let outcome = paint(&list, &nodes, &vec![square(&nodes, 7, vec![])]).unwrap();
        assert_eq!(pixels_of(&outcome, WHITE).len(), 64 * 64);
    }
}

#[test]
fn styles_are_resolved_with_their_defaults() {
    let way = WayData::new(1, vec![], vec![1, 2]).unwrap();
    let mut session = RenderSession::new();
    let mut list = MapCssDeclarationList::new();
    let style = resolve_style(&list, &way, &mut session);
    assert_eq!((style.z_index, style.color, style.fill_color, style.width), (0, None, None, 1));

    list.register(
        SelectorType::Way,
        SelectorCondition::No,
        vec![
            (MapCssDeclarationProperty::Color, color(RED)),
            (MapCssDeclarationProperty::Width, MapCssDeclarationValueType::Float(FloatSize { thousandths: 2900 })),
            (MapCssDeclarationProperty::ZIndex, MapCssDeclarationValueType::Float(FloatSize { thousandths: -1500 })),
        ],
    );
    let red = RGBA { red: 255, green: 0, blue: 0, alpha: 255 };
    let style = resolve_style(&list, &way, &mut session);
    assert_eq!((style.z_index, style.color, style.fill_color, style.width), (-1, Some(red), Some(red), 2));

    list.register(
        SelectorType::Line,
        SelectorCondition::No,
        vec![
            (MapCssDeclarationProperty::FillColor, color(GRAY)),
            (MapCssDeclarationProperty::ZIndex, MapCssDeclarationValueType::Boolean(true)),
        ],
    );
    let gray = RGBA { red: 128, green: 128, blue: 128, alpha: 255 };
    let style = resolve_style(&list, &way, &mut session);
    assert_eq!((style.z_index, style.color, style.fill_color, style.width), (0, Some(red), Some(gray), 2));
}

#[test]
fn ways_are_drawn_by_z_index_and_ties_keep_their_order() {
    let nodes = square_nodes(6);
    let z = |value: i32| (MapCssDeclarationProperty::ZIndex, MapCssDeclarationValueType::Integer(value));
    let named = |name: &str| SelectorCondition::HasExactTagValue("name".into(), name.into());
    let mut list = MapCssDeclarationList::new();
    list.register(SelectorType::Way, named("red"), vec![(MapCssDeclarationProperty::Color, color(RED)), z(5)]);
    list.register(SelectorType::Way, named("black"), vec![(MapCssDeclarationProperty::Color, color(BLACK)), z(-3)]);
    list.register(SelectorType::Way, named("gray"), vec![(MapCssDeclarationProperty::Color, color(GRAY)), z(5)]);
    list.register(SelectorType::Way, named("unseen"), vec![z(9)]);

    let ways = vec![
        square(&nodes, 1, vec![tag("name", "red")]),
        square(&nodes, 2, vec![tag("name", "black")]),
        square(&nodes, 3, vec![tag("name", "gray")]),
        square(&nodes, 4, vec![tag("name", "unseen")]),
    ];
    let outcome = paint(&list, &nodes, &ways).unwrap();
    assert_eq!(outcome.draw_order, vec![1, 0, 2, 3]);
    // gray was drawn last of those that are drawn at all
    assert_eq!(pixels_of(&outcome, GRAY).len(), 7 * 7);

    let ways = vec![
        square(&nodes, 3, vec![tag("name", "gray")]),
        square(&nodes, 1, vec![tag("name", "red")]),
        square(&nodes, 2, vec![tag("name", "black")]),
    ];
    let outcome = paint(&list, &nodes, &ways).unwrap();
    assert_eq!(outcome.draw_order, vec![2, 0, 1]);
    assert_eq!(pixels_of(&outcome, RED).len(), 7 * 7);
    assert_eq!(outcome.flood_fill_pixel_count, 3 * 5 * 5);
}

#[test]
fn draw_order_is_a_stable_ascending_sort() {
    assert_eq!(draw_order(&vec![]), Vec::<usize>::new());
    assert_eq!(draw_order(&vec![3]), vec![0]);
    assert_eq!(draw_order(&vec![0, 0, 0]), vec![0, 1, 2]);
    assert_eq!(draw_order(&vec![2, 1, 0]), vec![2, 1, 0]);
    assert_eq!(draw_order(&vec![5, -1, 5, i32::MIN, -1, i32::MAX, 5]), vec![3, 1, 4, 0, 2, 6, 5]);
}

#[test]
fn dangling_node_reference_fails_the_pass() {
    let nodes = square_nodes(6);
    let list = MapCssDeclarationList::new();
    let fine = square(&nodes, 7, vec![]);
    let broken = WayTrace { way: WayData::new(8, vec![], vec![1, 2, 99, 98]).unwrap(), samples: vec![] };
    let mut session = RenderSession::new();
    let result = PngPainter::default().paint(FACTOR, &list, &nodes, &vec![fine, broken], &mut session);
    assert_eq!(result.err(), Some(RenderError::DanglingNodeReference { way: 8, node: 99 }));
}

#[test]
fn canvas_that_does_not_fit_fails_the_pass() {
    let nodes: HashMap<i64, NodeData> = HashMap::from([
        (1, NodeData { nid: 1, lat: 0, lon: 0, tags: vec![], way: None }),
        (2, NodeData { nid: 2, lat: 800_000_000, lon: 0, tags: vec![], way: None }),
    ]);
    let list = MapCssDeclarationList::new();
    let mut session = RenderSession::new();
    let result = PngPainter::default().paint(4_000_000_000, &list, &nodes, &vec![], &mut session);
    assert_eq!(result.err(), Some(RenderError::CanvasTooLarge));
}

#[test]
fn empty_pass_gives_an_empty_canvas() {
    let outcome = paint(&MapCssDeclarationList::new(), &HashMap::new(), &vec![]).unwrap();
    assert_eq!((outcome.canvas.width(), outcome.canvas.height()), (0, 0));
    assert_eq!(outcome.canvas.pixel(0, 0), None);
    assert_eq!(outcome.processed_ways, 0);
}

#[test]
fn background_comes_from_the_canvas_rule_and_free_nodes_count_for_the_bounds() {
    let mut nodes = square_nodes(6);
    nodes.insert(9, node_at(9, -3, 70).1);
    let mut list = MapCssDeclarationList::new();
    list.register(
        SelectorType::Canvas,
        SelectorCondition::No,
        vec![(MapCssDeclarationProperty::FillColor, color(GRAY))],
    );
    let outcome = paint(&list, &nodes, &vec![]).unwrap();
    assert_eq!(outcome.geometry, Geometry { min_lat: -3, min_lon: 0, rows: 64, columns: 128 });
    assert_eq!((outcome.canvas.width(), outcome.canvas.height()), (128, 64));
    assert_eq!(pixels_of(&outcome, GRAY).len(), 128 * 64);
}

#[test]
fn samples_off_the_canvas_are_clipped() {
    let nodes = square_nodes(6);
    let mut list = MapCssDeclarationList::new();
    list.register(
        SelectorType::Way,
        SelectorCondition::No,
        vec![
            (MapCssDeclarationProperty::Color, color(RED)),
            (MapCssDeclarationProperty::Width, MapCssDeclarationValueType::Integer(5)),
        ],
    );
    let way = WayData::new(7, vec![], vec![1, 2]).unwrap();
    let samples = vec![
        (0, -2),                // column 0: the span is cut at the left edge
        (0, 61),                // column 63: cut at the right edge
        (0, 64),                // column 66: only its left end is on the canvas
        (0, 65),                // column 67: off the canvas
        (62, 10),               // row 0
        (63, 10),               // row -1: off the canvas
        (-2, 10),               // row 64: off the canvas
        (i64::MAX, i64::MIN),
        (i64::MIN, i64::MAX),
    ];
    let outcome = paint(&list, &nodes, &vec![WayTrace { way, samples }]).unwrap();
    let mut expected = HashSet::new();
    for x in (0..=2).chain(61..=63) {
        expected.insert((x, 62));
    }
    for x in 10..=14 {
        expected.insert((x, 0));
    }
    assert_eq!(pixels_of(&outcome, RED), expected);
}

#[test]
fn projection_rounds_to_the_nearest_pixel() {
    assert_eq!(project(0, 2500), 0);
    assert_eq!(project(10_000_000, 2500), 2500);
    assert_eq!(project(-10_000_000, 2500), -2500);
    assert_eq!(project(471_234_567, 2500), 117_809);
    // halves go away from zero
    assert_eq!(project(15, 1_000_000), 2);
    assert_eq!(project(-15, 1_000_000), -2);
    assert_eq!(project(14, 1_000_000), 1);
    assert_eq!(project(-14, 1_000_000), -1);
    assert_eq!(project(5, 1_000_000), 1);
    assert_eq!(project(4, 1_000_000), 0);
    assert_eq!(project(i32::MAX, u32::MAX), 922337203041);
    assert_eq!(project(i32::MIN, u32::MAX), -922337203471);
    assert_eq!(project(i32::MIN, 0), 0);
}

#[test]
fn bounds_and_canvas_size() {
    assert_eq!(compute_bounds(&HashMap::new(), 1000), None);
    let nodes: HashMap<i64, NodeData> =
        HashMap::from([node_at(1, 5, -7), node_at(2, -1, 3), node_at(3, 2, 100)]);
    let bounds = compute_bounds(&nodes, 1000);
    assert_eq!(bounds, Some(Bounds { min_lat: -1, max_lat: 5, min_lon: -7, max_lon: 100 }));
    assert_eq!(
        canvas_geometry(&bounds),
        Some(Geometry { min_lat: -1, min_lon: -7, rows: 64, columns: 128 })
    );
    assert_eq!(
        canvas_geometry(&None),
        Some(Geometry { min_lat: 0, min_lon: 0, rows: 0, columns: 0 })
    );
    let exact = Some(Bounds { min_lat: 0, max_lat: 63, min_lon: 10, max_lon: 10 + 64 });
    assert_eq!(
        canvas_geometry(&exact),
        Some(Geometry { min_lat: 0, min_lon: 10, rows: 64, columns: 128 })
    );
    let wide = Some(Bounds { min_lat: 0, max_lat: 0, min_lon: 0, max_lon: 4_294_967_295 });
    assert_eq!(canvas_geometry(&wide), None);
    let far = Some(Bounds { min_lat: i64::MIN, max_lat: i64::MAX, min_lon: 0, max_lon: 0 });
    assert_eq!(canvas_geometry(&far), None);
}

#[test]
fn stroke_span_is_centred_and_clipped() {
    let geometry = Geometry { min_lat: 100, min_lon: -50, rows: 64, columns: 128 };
    // column = lon - min_lon + 2, row = rows - 2 - (lat - min_lat)
    assert_eq!(span_of(&geometry, (100, -50), 1), Some((2, 2, 62)));
    assert_eq!(span_of(&geometry, (110, -40), 1), Some((12, 12, 52)));
    assert_eq!(span_of(&geometry, (110, -40), 2), Some((11, 13, 52)));
    assert_eq!(span_of(&geometry, (110, -40), 3), Some((11, 13, 52)));
    assert_eq!(span_of(&geometry, (110, -40), 4), Some((10, 14, 52)));
    assert_eq!(span_of(&geometry, (110, -40), u32::MAX), Some((0, 127, 52)));
    assert_eq!(span_of(&geometry, (162, -52), 1), Some((0, 0, 0)));
    assert_eq!(span_of(&geometry, (163, -52), 1), None);
    assert_eq!(span_of(&geometry, (99, -50), 1), Some((2, 2, 63)));
    assert_eq!(span_of(&geometry, (98, -50), 1), None);
    assert_eq!(span_of(&geometry, (100, -53), 1), None);
    assert_eq!(span_of(&geometry, (100, -53), 3), Some((0, 0, 62)));
    assert_eq!(span_of(&geometry, (100, 75), 1), Some((127, 127, 62)));
    assert_eq!(span_of(&geometry, (100, 76), 1), None);
    assert_eq!(span_of(&geometry, (100, 76), 2), Some((127, 127, 62)));
    let empty = Geometry { min_lat: 0, min_lon: 0, rows: 0, columns: 0 };
    assert_eq!(span_of(&empty, (0, 0), 9), None);
}

fn outline(rows: &[(u32, &[u32])]) -> HashMap<u32, BTreeSet<u32>> {
    rows.iter().map(|(y, columns)| (*y, columns.iter().copied().collect())).collect()
}

#[test]
fn is_inside_edges() {
    let pixels = outline(&[(2, &[2, 4]), (3, &[7]), (5, &[0, 1, u32::MAX])]);
    assert!(!is_inside(&(2, 2), &pixels));
    assert!(!is_inside(&(4, 2), &pixels));
    assert!(!is_inside(&(5, 2), &pixels));
    assert!(!is_inside(&(3, 1), &pixels));
    // one outline pixel encloses nothing
    assert!(!is_inside(&(7, 3), &pixels));
    assert!(!is_inside(&(6, 3), &pixels));
    assert!(!is_inside(&(0, 5), &pixels));
    assert!(is_inside(&(2, 5), &pixels));
    assert!(is_inside(&(u32::MAX - 1, 5), &pixels));
    assert!(!is_inside(&(u32::MAX, 5), &pixels));
    assert!(!is_inside(&(3, 2), &HashMap::new()));
}

#[test]
fn is_inside_takes_a_hole_for_inside() {
    // an outer outline at columns 0 and 9 with a hole between columns 3 and 6:
    // the test looks at the leftmost and rightmost outline pixel only, so the
    // hole counts as inside
    let pixels = outline(&[(1, &[0, 3, 6, 9])]);
    for x in [1, 2, 4, 5, 7, 8] {
        assert!(is_inside(&(x, 1), &pixels));
    }
    for x in [0, 3, 6, 9, 10] {
        assert!(!is_inside(&(x, 1), &pixels));
    }
}

#[test]
fn horizontally_next_to_each_other() {
    assert!(are_image_coordinates_horizontally_next_to_each_other((3, 2), (4, 2)));
    assert!(are_image_coordinates_horizontally_next_to_each_other((4, 2), (3, 2)));
    assert!(!are_image_coordinates_horizontally_next_to_each_other((3, 2), (3, 2)));
    assert!(!are_image_coordinates_horizontally_next_to_each_other((3, 2), (5, 2)));
    assert!(!are_image_coordinates_horizontally_next_to_each_other((3, 2), (4, 3)));
    assert!(!are_image_coordinates_horizontally_next_to_each_other((0, 0), (u32::MAX, 0)));
    assert!(are_image_coordinates_horizontally_next_to_each_other((u32::MAX, 0), (u32::MAX - 1, 0)));
}

#[test]
fn inside_point_is_right_of_the_first_gap() {
    let pixels = outline(&[
        (1, &[2, 3, 4, 5]),
        (2, &[2, 3, 5, 9]),
        (3, &[2, 5]),
        (7, &[0, u32::MAX]),
    ]);
    assert_eq!(get_inside_point(0, 10, &pixels), Some((4, 2)));
    assert_eq!(get_inside_point(2, 2, &pixels), Some((4, 2)));
    assert_eq!(get_inside_point(3, 10, &pixels), Some((3, 3)));
    assert_eq!(get_inside_point(0, 1, &pixels), None);
    assert_eq!(get_inside_point(4, 6, &pixels), None);
    assert_eq!(get_inside_point(4, u32::MAX, &pixels), Some((1, 7)));
    // an empty range of rows
    assert_eq!(get_inside_point(3, 2, &pixels), None);
    assert_eq!(get_inside_point(0, u32::MAX, &HashMap::new().into_iter().collect()), None);
}

fn frame(width: u32, height: u32) -> HashMap<u32, BTreeSet<u32>> {
    let mut pixels: HashMap<u32, BTreeSet<u32>> = HashMap::new();
    for y in 0..height {
        let row = pixels.entry(y).or_default();
        if y == 0 || y == height - 1 {
            row.extend(0..width);
        } else {
            row.insert(0);
            row.insert(width - 1);
        }
    }
    pixels
}

#[test]
fn flood_fill_takes_what_it_reaches() {
    let pixels = frame(6, 5);
    let filled = get_flood_filled_pixels((1, 1), &pixels).unwrap();
    let as_set: HashSet<(u32, u32)> = filled.iter().copied().collect();
    assert_eq!(as_set.len(), filled.len());
    let mut expected = HashSet::new();
    for x in 1..=4 {
        for y in 1..=3 {
            expected.insert((x, y));
        }
    }
    assert_eq!(as_set, expected);
    // a start that is not inside reaches nothing
    assert_eq!(get_flood_filled_pixels((0, 0), &pixels), Some(vec![]));
    assert_eq!(get_flood_filled_pixels((9, 9), &pixels), Some(vec![]));

    // two bands that do not touch: only the one with the start is filled
    let bands = outline(&[(1, &[1, 4]), (5, &[1, 4])]);
    let filled = get_flood_filled_pixels((2, 1), &bands).unwrap();
    let as_set: HashSet<(u32, u32)> = filled.into_iter().collect();
    assert_eq!(as_set, HashSet::from([(2, 1), (3, 1)]));
    assert!(is_inside(&(2, 5), &bands));

    // rows at the edges of the grid
    let edges = outline(&[(0, &[1, 3]), (u32::MAX, &[1, 3])]);
    assert_eq!(get_flood_filled_pixels((2, 0), &edges), Some(vec![(2, 0)]));
    assert_eq!(get_flood_filled_pixels((2, u32::MAX), &edges), Some(vec![(2, u32::MAX)]));
}

#[test]
fn flood_fill_gives_up_at_the_iteration_cap() {
    // each filled pixel costs four iterations, the start one more
    let fits = outline(&[(1, &[0, 25_000])]);
    assert_eq!(get_flood_filled_pixels((1, 1), &fits).map(|filled| filled.len()), Some(24_999));
    let too_many = outline(&[(1, &[0, 25_001])]);
    assert_eq!(get_flood_filled_pixels((1, 1), &too_many), None);
}

#[test]
fn way_whose_fill_is_given_up_keeps_its_stroke() {
    let nodes = square_nodes(200);
    let mut list = MapCssDeclarationList::new();
    list.register(
        SelectorType::Area,
        SelectorCondition::No,
        vec![
            (MapCssDeclarationProperty::Color, color(BLACK)),
            (MapCssDeclarationProperty::FillColor, color(GRAY)),
        ],
    );
    let outcome = paint(&list, &nodes, &vec![square(&nodes, 7, vec![])]).unwrap();
    assert_eq!(pixels_of(&outcome, BLACK).len(), 4 * 200);
    assert_eq!(pixels_of(&outcome, GRAY).len(), 0);
    assert_eq!(outcome.flood_fill_pixel_count, 0);
    assert_eq!(outcome.no_inside_count, 1);
}

#[test]
fn closed_way_without_an_inside_is_counted() {
    // a closed path that runs to and fro on one diagonal leaves no row with a gap
    let nodes: HashMap<i64, NodeData> = HashMap::from([node_at(1, 0, 0), node_at(2, 5, 5)]);
    let mut list = MapCssDeclarationList::new();
    list.register(
        SelectorType::Area,
        SelectorCondition::No,
        vec![(MapCssDeclarationProperty::Color, color(BLACK))],
    );
    let way = WayData::new(7, vec![], vec![1, 2, 1]).unwrap();
    let outcome = paint(&list, &nodes, &vec![trace(&nodes, way)]).unwrap();
    assert_eq!(pixels_of(&outcome, BLACK).len(), 6);
    assert_eq!(outcome.no_inside_count, 1);
    assert_eq!(outcome.flood_fill_pixel_count, 0);

    // a closed path of two pixels side by side is not even tried
    let nodes: HashMap<i64, NodeData> = HashMap::from([node_at(1, 0, 0), node_at(2, 0, 1)]);
    let way = WayData::new(7, vec![], vec![1, 2, 1]).unwrap();
    let outcome = paint(&list, &nodes, &vec![trace(&nodes, way)]).unwrap();
    assert_eq!(pixels_of(&outcome, BLACK).len(), 2);
    assert_eq!(outcome.no_inside_count, 0);
}
