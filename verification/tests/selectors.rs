use osm_renderer::mapcss::selectors::{Selector, SelectorCondition, SelectorType};
use std::rc::Rc;

#[test]
fn test_selector_condition_merge_no_simple() {
    let a = SelectorCondition::No;

    let b = SelectorCondition::HasExactTagValue("jens".into(), "awesome".into());

    assert_eq!(a.add_condition(b.clone()), b);
}

#[test]
fn test_selector_condition_merge_no() {
    let a = SelectorCondition::No;

    let b = SelectorCondition::List(vec![
        SelectorCondition::HasExactTagValue("jens".into(), "awesome".into()),
        SelectorCondition::ClosedPath,
    ]);

    // b should still win no matter the order
    assert_eq!(a.clone().add_condition(b.clone()), b);
    assert_eq!(b.clone().add_condition(a.clone()), b);
}

#[test]
fn test_selector_condition_lists() {
    let a = SelectorCondition::List(vec![
        SelectorCondition::MinZoomLevel(8),
        SelectorCondition::MaxZoomLevel(10),
    ]);

    let b = SelectorCondition::List(vec![
        SelectorCondition::HasExactTagValue("jens".into(), "awesome".into()),
        SelectorCondition::ClosedPath,
    ]);

    assert_eq!(
        a.clone().add_condition(b.clone()),
        SelectorCondition::List(vec![
            SelectorCondition::MinZoomLevel(8),
            SelectorCondition::MaxZoomLevel(10),
            SelectorCondition::HasExactTagValue("jens".into(), "awesome".into()),
            SelectorCondition::ClosedPath,
        ])
    );

    assert_eq!(
        b.clone().add_condition(a.clone()),
        SelectorCondition::List(vec![
            SelectorCondition::HasExactTagValue("jens".into(), "awesome".into()),
            SelectorCondition::ClosedPath,
            SelectorCondition::MinZoomLevel(8),
            SelectorCondition::MaxZoomLevel(10),
        ])
    );
}

#[test]
fn add_condition_joins_single_conditions() {
    let tag = SelectorCondition::HasTag("highway".into());
    let zoom = SelectorCondition::MinZoomLevel(3);
    assert_eq!(
        tag.clone().add_condition(zoom.clone()),
        SelectorCondition::List(vec![tag.clone(), zoom.clone()])
    );
    let list = SelectorCondition::List(vec![tag.clone()]);
    assert_eq!(
        list.add_condition(zoom.clone()),
        SelectorCondition::List(vec![tag.clone(), zoom.clone()])
    );
    assert_eq!(SelectorCondition::default(), SelectorCondition::No);
}

#[test]
fn clone_copies_nested_selectors() {
    let inner = Selector::new(
        SelectorType::Canvas,
        SelectorCondition::List(vec![
            SelectorCondition::HasTag("a".into()),
            SelectorCondition::ValueLessThan("b".into(), -4),
        ]),
    );
    let condition = SelectorCondition::Not(Rc::new(inner));
    assert_eq!(condition.clone(), condition);
}

#[test]
fn selector_accessors() {
    let mut selector = Selector::new(SelectorType::Way, SelectorCondition::No);
    assert_eq!(selector.selector_type(), SelectorType::Way);
    assert_eq!(selector.conditions(), &SelectorCondition::No);
    selector.set_conditions(SelectorCondition::ClosedPath);
    assert_eq!(selector.conditions(), &SelectorCondition::ClosedPath);
    assert_eq!(selector.selector_type(), SelectorType::Way);
}
