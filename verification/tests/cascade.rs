use osm_renderer::data::{NodeData, RelationData, WayData};
use osm_renderer::element::canvas::CanvasElement;
use osm_renderer::mapcss::declaration::{
    check_conditions, FloatSize, MapCssDeclarationList, MapCssDeclarationProperty,
    MapCssDeclarationValueType, RenderSession, RGBA,
};
use osm_renderer::mapcss::error::MapCssError;
use osm_renderer::mapcss::selectors::{Selector, SelectorCondition, SelectorType};
use std::rc::Rc;

fn tag(key: &str, value: &str) -> (String, String) {
    (key.to_string(), value.to_string())
}

fn way(tags: Vec<(String, String)>, refs: Vec<i64>) -> WayData {
    WayData::new(1, tags, refs).unwrap()
}

fn color(red: u8, green: u8, blue: u8) -> MapCssDeclarationValueType {
    MapCssDeclarationValueType::Color(RGBA { red, green, blue, alpha: 255 })
}

fn has(key: &str, value: &str) -> SelectorCondition {
    SelectorCondition::HasExactTagValue(key.to_string(), value.to_string())
}

#[test]
fn default_is_returned_when_nothing_sets_the_property() {
    let mut list = MapCssDeclarationList::new();
    // a rule under a type that does not apply
    list.register(
        SelectorType::Node,
        SelectorCondition::No,
        vec![(MapCssDeclarationProperty::Color, color(1, 2, 3))],
    );
    // a rule whose condition does not hold
    list.register(
        SelectorType::Way,
        has("highway", "motorway"),
        vec![(MapCssDeclarationProperty::Color, color(4, 5, 6))],
    );
    // a rule that applies but sets something else
    list.register(
        SelectorType::Any,
        SelectorCondition::No,
        vec![(MapCssDeclarationProperty::Width, MapCssDeclarationValueType::Integer(4))],
    );
    let element = way(vec![tag("highway", "residential")], vec![5, 7, 9]);
    let default = color(9, 9, 9);
    let mut session = RenderSession::new();
    assert_eq!(
        list.search_or_default(&element, &MapCssDeclarationProperty::Color, &default, &mut session),
        &default
    );
    assert_eq!(
        list.search_cascading(&element, &MapCssDeclarationProperty::Color, &mut session),
        None
    );
    let missing =
        list.search_cascading_or_panic(&element, &MapCssDeclarationProperty::Color, &mut session);
    assert!(matches!(
        missing,
        Err(MapCssError::MissingDeclaration(MapCssDeclarationProperty::Color))
    ));
    assert_eq!(
        list.search_cascading_or_panic(&element, &MapCssDeclarationProperty::Width, &mut session)
            .unwrap(),
        &MapCssDeclarationValueType::Integer(4)
    );
    assert_eq!(session, RenderSession::new());
}

#[test]
fn area_rule_wins_over_way_rule_in_either_order() {
    let element = way(vec![tag("building", "yes")], vec![5, 7, 5]);
    let property = MapCssDeclarationProperty::Color;

    let mut way_first = MapCssDeclarationList::new();
    way_first.register(SelectorType::Way, SelectorCondition::No, vec![(property, color(1, 1, 1))]);
    way_first.register(SelectorType::Area, SelectorCondition::No, vec![(property, color(2, 2, 2))]);

    let mut area_first = MapCssDeclarationList::new();
    area_first.register(SelectorType::Area, SelectorCondition::No, vec![(property, color(2, 2, 2))]);
    area_first.register(SelectorType::Way, SelectorCondition::No, vec![(property, color(1, 1, 1))]);

    let mut session = RenderSession::new();
    assert_eq!(
        way_first.search_cascading(&element, &property, &mut session),
        Some(&color(2, 2, 2))
    );
    assert_eq!(
        area_first.search_cascading(&element, &property, &mut session),
        Some(&color(2, 2, 2))
    );

    // an open way is a line, not an area
    let open = way(vec![], vec![5, 7, 9]);
    assert_eq!(
        area_first.search_cascading(&open, &property, &mut session),
        Some(&color(1, 1, 1))
    );
}

#[test]
fn later_rules_and_later_declarations_win_within_a_type() {
    let element = way(vec![tag("highway", "motorway")], vec![5, 7]);
    let property = MapCssDeclarationProperty::Width;
    let mut list = MapCssDeclarationList::new();
    list.register(
        SelectorType::Way,
        SelectorCondition::No,
        vec![
            (property, MapCssDeclarationValueType::Integer(1)),
            (property, MapCssDeclarationValueType::Integer(2)),
        ],
    );
    let mut session = RenderSession::new();
    assert_eq!(
        list.search_cascading(&element, &property, &mut session),
        Some(&MapCssDeclarationValueType::Integer(2))
    );
    list.register(
        SelectorType::Way,
        has("highway", "motorway"),
        vec![(property, MapCssDeclarationValueType::Integer(3))],
    );
    assert_eq!(
        list.search_cascading(&element, &property, &mut session),
        Some(&MapCssDeclarationValueType::Integer(3))
    );
    // declarations registered under a key that is already there join its group
    list.register(
        SelectorType::Way,
        SelectorCondition::No,
        vec![(property, MapCssDeclarationValueType::Integer(4))],
    );
    assert_eq!(
        list.search_cascading(&element, &property, &mut session),
        Some(&MapCssDeclarationValueType::Integer(3))
    );
    // the line rule is more specific than both
    list.register(
        SelectorType::Line,
        SelectorCondition::No,
        vec![(property, MapCssDeclarationValueType::Integer(5))],
    );
    assert_eq!(
        list.search_cascading(&element, &property, &mut session),
        Some(&MapCssDeclarationValueType::Integer(5))
    );
    assert!(!list.is_empty());
    assert!(MapCssDeclarationList::new().is_empty());
}

#[test]
fn resolution_is_idempotent() {
    let element = way(vec![tag("highway", "motorway")], vec![5, 7]);
    let property = MapCssDeclarationProperty::Color;
    let mut list = MapCssDeclarationList::new();
    list.register(
        SelectorType::Way,
        SelectorCondition::List(vec![SelectorCondition::MinZoomLevel(3), has("highway", "motorway")]),
        vec![(property, color(7, 7, 7))],
    );
    let mut session = RenderSession::new();
    let first = list.search_cascading(&element, &property, &mut session).cloned();
    let after_first = session;
    let second = list.search_cascading(&element, &property, &mut session).cloned();
    assert_eq!(first, Some(color(7, 7, 7)));
    assert_eq!(first, second);
    assert_eq!(session, after_first);
    assert!(session.warned_zoom_level);
    assert!(!session.warned_pseudo_class && !session.warned_descendant && !session.warned_negation);
}

#[test]
fn applicable_types_by_element_kind() {
    let property = MapCssDeclarationProperty::Text;
    let text = |s: &str| MapCssDeclarationValueType::String(s.to_string());
    let mut list = MapCssDeclarationList::new();
    for (selector_type, name) in [
        (SelectorType::Any, "any"),
        (SelectorType::Meta, "meta"),
        (SelectorType::Node, "node"),
        (SelectorType::Way, "way"),
        (SelectorType::Relation, "relation"),
        (SelectorType::Area, "area"),
        (SelectorType::Line, "line"),
        (SelectorType::Canvas, "canvas"),
    ] {
        list.register(selector_type, SelectorCondition::No, vec![(property, text(name))]);
    }
    let mut session = RenderSession::new();
    let node = NodeData { nid: 1, lat: 0, lon: 0, tags: vec![], way: None };
    let relation = RelationData { rid: 1, tags: vec![], members: vec![] };
    assert_eq!(list.search_cascading(&node, &property, &mut session), Some(&text("node")));
    assert_eq!(list.search_cascading(&relation, &property, &mut session), Some(&text("relation")));
    assert_eq!(
        list.search_cascading(&CanvasElement {}, &property, &mut session),
        Some(&text("canvas"))
    );
    assert_eq!(
        list.search_cascading(&way(vec![], vec![1, 2]), &property, &mut session),
        Some(&text("line"))
    );
    assert_eq!(
        list.search_cascading(&way(vec![], vec![1, 2, 1]), &property, &mut session),
        Some(&text("area"))
    );
}

#[test]
fn tag_conditions_compare_text_exactly() {
    let element = way(vec![tag("highway", "motorway"), tag("lanes", "4")], vec![5, 7]);
    let mut session = RenderSession::new();
    let mut check = |condition: SelectorCondition| check_conditions(&element, &condition, &mut session);
    assert!(check(SelectorCondition::No));
    assert!(check(SelectorCondition::HasTag("lanes".into())));
    assert!(!check(SelectorCondition::HasTag("lane".into())));
    assert!(!check(SelectorCondition::HasTag("Lanes".into())));
    assert!(check(has("highway", "motorway")));
    assert!(!check(has("highway", "motorway ")));
    assert!(!check(has("lanes", "motorway")));
    assert!(!check(SelectorCondition::HasNotTagValue("highway".into(), "motorway".into())));
    assert!(check(SelectorCondition::HasNotTagValue("highway".into(), "primary".into())));
    assert!(check(SelectorCondition::HasNotTagValue("surface".into(), "paved".into())));
    assert!(!check(SelectorCondition::ClosedPath));
    assert!(check(SelectorCondition::List(vec![])));
    assert!(check(SelectorCondition::List(vec![
        has("highway", "motorway"),
        SelectorCondition::HasTag("lanes".into()),
    ])));
    assert!(!check(SelectorCondition::List(vec![
        has("highway", "motorway"),
        SelectorCondition::HasTag("bridge".into()),
    ])));
    assert_eq!(session, RenderSession::new());
}

#[test]
fn numeric_conditions_read_the_tag_as_an_integer() {
    let element = way(
        vec![tag("lanes", "4"), tag("name", "A4"), tag("ele", "-12"), tag("huge", "99999999999999999999")],
        vec![5, 7],
    );
    let mut session = RenderSession::new();
    let mut check = |condition: SelectorCondition| check_conditions(&element, &condition, &mut session);
    assert!(check(SelectorCondition::ValueGreaterThan("lanes".into(), 3)));
    assert!(!check(SelectorCondition::ValueGreaterThan("lanes".into(), 4)));
    assert!(check(SelectorCondition::ValueGreaterThanEqual("lanes".into(), 4)));
    assert!(!check(SelectorCondition::ValueGreaterThanEqual("lanes".into(), 5)));
    assert!(check(SelectorCondition::ValueLessThan("lanes".into(), 5)));
    assert!(!check(SelectorCondition::ValueLessThan("lanes".into(), 4)));
    assert!(check(SelectorCondition::ValueLessThanEqual("lanes".into(), 4)));
    assert!(!check(SelectorCondition::ValueLessThanEqual("lanes".into(), 3)));
    assert!(check(SelectorCondition::ValueLessThan("ele".into(), -11)));
    assert!(!check(SelectorCondition::ValueLessThan("ele".into(), -12)));
    // what is no integer never matches
    assert!(!check(SelectorCondition::ValueGreaterThan("name".into(), 0)));
    assert!(!check(SelectorCondition::ValueLessThan("name".into(), 100)));
    assert!(!check(SelectorCondition::ValueGreaterThan("huge".into(), 0)));
    // nor does a tag that is not there
    assert!(!check(SelectorCondition::ValueLessThanEqual("width".into(), 100)));
}

#[test]
fn unsupported_conditions_hold_and_are_flagged_once_per_kind() {
    let element = way(vec![], vec![5, 7]);
    let inner = Rc::new(Selector::new(SelectorType::Way, SelectorCondition::No));

    let mut session = RenderSession::new();
    for condition in [
        SelectorCondition::ExactZoomLevel(1),
        SelectorCondition::MinZoomLevel(1),
        SelectorCondition::MaxZoomLevel(1),
        SelectorCondition::RangeZoomLevel(1, 2),
    ] {
        let mut one = RenderSession::new();
        assert!(check_conditions(&element, &condition, &mut one));
        assert_eq!(one, RenderSession { warned_zoom_level: true, ..RenderSession::new() });
        assert!(check_conditions(&element, &condition, &mut session));
    }
    assert_eq!(session, RenderSession { warned_zoom_level: true, ..RenderSession::new() });

    let mut session = RenderSession::new();
    assert!(check_conditions(
        &element,
        &SelectorCondition::GenericPseudoClass("hover".into()),
        &mut session
    ));
    assert_eq!(session, RenderSession { warned_pseudo_class: true, ..RenderSession::new() });

    let mut session = RenderSession::new();
    assert!(check_conditions(&element, &SelectorCondition::HasDescendant(inner.clone()), &mut session));
    assert_eq!(session, RenderSession { warned_descendant: true, ..RenderSession::new() });

    // a list is evaluated no further than its first condition that fails
    let mut session = RenderSession::new();
    assert!(!check_conditions(
        &element,
        &SelectorCondition::List(vec![
            SelectorCondition::MinZoomLevel(1),
            SelectorCondition::HasTag("missing".into()),
            SelectorCondition::GenericPseudoClass("hover".into()),
        ]),
        &mut session
    ));
    assert_eq!(session, RenderSession { warned_zoom_level: true, ..RenderSession::new() });
}

#[test]
fn negation_is_evaluated_for_any_and_for_canvas_on_the_canvas() {
    let element = way(vec![tag("highway", "motorway")], vec![5, 7]);
    let not = |selector_type: SelectorType, condition: SelectorCondition| {
        SelectorCondition::Not(Rc::new(Selector::new(selector_type, condition)))
    };
    let mut session = RenderSession::new();

    assert!(!check_conditions(&element, &not(SelectorType::Any, has("highway", "motorway")), &mut session));
    assert!(check_conditions(&element, &not(SelectorType::Any, has("highway", "primary")), &mut session));
    // a canvas negation holds of everything that is no canvas
    assert!(check_conditions(&element, &not(SelectorType::Canvas, SelectorCondition::No), &mut session));
    assert!(!check_conditions(
        &CanvasElement {},
        &not(SelectorType::Canvas, SelectorCondition::No),
        &mut session
    ));
    assert!(check_conditions(
        &CanvasElement {},
        &not(SelectorType::Canvas, SelectorCondition::HasTag("a".into())),
        &mut session
    ));
    assert_eq!(session, RenderSession::new());

    // any other negation holds, and is flagged
    for selector_type in [
        SelectorType::Way,
        SelectorType::Node,
        SelectorType::Area,
        SelectorType::Line,
        SelectorType::Relation,
        SelectorType::Meta,
    ] {
        let mut session = RenderSession::new();
        assert!(check_conditions(
            &element,
            &not(selector_type, has("highway", "motorway")),
            &mut session
        ));
        assert_eq!(session, RenderSession { warned_negation: true, ..RenderSession::new() });
    }

    // conditions met inside an evaluated negation are flagged too
    let mut session = RenderSession::new();
    assert!(!check_conditions(
        &element,
        &not(SelectorType::Any, SelectorCondition::MaxZoomLevel(3)),
        &mut session
    ));
    assert_eq!(session, RenderSession { warned_zoom_level: true, ..RenderSession::new() });
}

#[test]
fn resolving_flags_every_applicable_rule() {
    let element = way(vec![], vec![5, 7]);
    let mut list = MapCssDeclarationList::new();
    list.register(
        SelectorType::Way,
        SelectorCondition::MinZoomLevel(4),
        vec![(MapCssDeclarationProperty::Width, MapCssDeclarationValueType::Integer(1))],
    );
    list.register(
        SelectorType::Node,
        SelectorCondition::GenericPseudoClass("x".into()),
        vec![(MapCssDeclarationProperty::Width, MapCssDeclarationValueType::Integer(1))],
    );
    let mut session = RenderSession::new();
    // the property does not matter: each rule of an applicable type is evaluated
    assert_eq!(list.search_cascading(&element, &MapCssDeclarationProperty::Color, &mut session), None);
    assert_eq!(session, RenderSession { warned_zoom_level: true, ..RenderSession::new() });
}

#[test]
fn background_color_is_the_canvas_fill_color_or_white() {
    let white = RGBA { red: 255, green: 255, blue: 255, alpha: 255 };
    let mut session = RenderSession::new();
    let mut list = MapCssDeclarationList::new();
    assert_eq!(CanvasElement {}.background_color(&list, &mut session), white);
    list.register(
        SelectorType::Canvas,
        SelectorCondition::No,
        vec![(MapCssDeclarationProperty::FillColor, MapCssDeclarationValueType::Float(FloatSize { thousandths: 1 }))],
    );
    assert_eq!(CanvasElement {}.background_color(&list, &mut session), white);
    list.register(
        SelectorType::Canvas,
        SelectorCondition::No,
        vec![(MapCssDeclarationProperty::FillColor, color(10, 20, 30))],
    );
    assert_eq!(
        CanvasElement {}.background_color(&list, &mut session),
        RGBA { red: 10, green: 20, blue: 30, alpha: 255 }
    );
}
