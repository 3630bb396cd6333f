//! Declarations: the properties a rule sets, and how rules cascade.

use crate::data::{has_tag, has_tag_value, tag_model, ElementData, ElementID, ElementModel};
use crate::mapcss::error::MapCssError;
use crate::mapcss::selectors::{
    lemma_condition_views, same_condition, SelectorCondition, SelectorConditionView, SelectorType,
};
use crate::mapcss::declaration::color::color_text;
use crate::text::{
    append_integer, append_natural, chars_of, decimal_i64, digit_char, integer_text, natural_text,
    parse_integer,
};
use vstd::prelude::*;
use vstd::string::StringExecFns;

pub mod color;
pub mod laws;

pub use color::RGBA;

verus! {

pub type IntSize = i32;

/// A decimal number, held in thousandths.
#[derive(Debug, PartialEq, Eq, Clone, Copy, Structural)]
pub struct FloatSize {
    pub thousandths: i64,
}

pub type MapCssDeclaration = (MapCssDeclarationProperty, MapCssDeclarationValueType);

/// A declaration as a mathematical value.
pub type MapCssDeclarationView = (MapCssDeclarationProperty, MapCssDeclarationValueView);

/// Declarations as mathematical values, one for one.
pub open spec fn declaration_views(declarations: Seq<MapCssDeclaration>) -> Seq<
    MapCssDeclarationView,
> {
    Seq::new(declarations.len(), |i: int| (declarations[i].0, declarations[i].1@))
}

#[derive(Debug, PartialEq, Eq, Copy, Clone, Structural)]
pub enum MapCssDeclarationProperty {
    // meta {}
    Title,
    Version,
    Description,
    Acknowledgement,
    /// whether to show all lines by default or only the ones that are styled
    /// only able to be used on the canvas element
    DefaultLines,
    /// whether to show all points by default or only the ones that are styled
    /// only able to be used on the canvas element
    DefaultPoints,
    Linecap,
    Linejoin,
    AllowOverlap,
    Dashes,
    Text,
    TextColor,
    TextPosition,
    TextHaloColor,
    TextHaloRadius,
    TextWrapWidth,
    TextSpacing,
    BackgroundColor,
    Color,
    FontSize,
    FontColor,
    FontFamily,
    IconImage,
    PatternImage,
    Opacity,
    FillOpacity,
    FillColor,
    FillImage,
    Width,
    ZIndex,
}

#[derive(Debug, PartialEq)]
pub enum MapCssDeclarationValueType {
    Boolean(bool),
    String(String),
    Color(RGBA),
    LinecapDeclarationVariant(LinecapDeclarationVariant),
    LinejoinDeclarationVariant(LinejoinDeclarationVariant),
    TextPositionDeclarationVariant(TextPositionDeclarationVariant),
    IntegerArray(Vec<IntSize>),
    Integer(IntSize),
    Float(FloatSize),
}

#[derive(Debug, PartialEq, Eq, Copy, Clone, Structural)]
pub enum LinecapDeclarationVariant {
    /// The line ends flat at its end point; `none` in a stylesheet.
    NoCap,
    Round,
    Square,
}

#[derive(Debug, PartialEq, Eq, Copy, Clone, Structural)]
pub enum LinejoinDeclarationVariant {
    Round,
    Miter,
    Bevel,
}

#[derive(Debug, PartialEq, Eq, Copy, Clone, Structural)]
pub enum TextPositionDeclarationVariant {
    Center,
    Line,
}

/// A value as a mathematical value: text as a character sequence, a list as a
/// sequence.
pub ghost enum MapCssDeclarationValueView {
    Boolean(bool),
    String(Seq<char>),
    Color(RGBA),
    LinecapDeclarationVariant(LinecapDeclarationVariant),
    LinejoinDeclarationVariant(LinejoinDeclarationVariant),
    TextPositionDeclarationVariant(TextPositionDeclarationVariant),
    IntegerArray(Seq<IntSize>),
    Integer(IntSize),
    Float(FloatSize),
}

impl View for MapCssDeclarationValueType {
    type V = MapCssDeclarationValueView;

    open spec fn view(&self) -> MapCssDeclarationValueView {
        match self {
            MapCssDeclarationValueType::Boolean(boolean) => MapCssDeclarationValueView::Boolean(
                *boolean,
            ),
            MapCssDeclarationValueType::String(string) => MapCssDeclarationValueView::String(
                string@,
            ),
            MapCssDeclarationValueType::Color(color) => MapCssDeclarationValueView::Color(*color),
            MapCssDeclarationValueType::LinecapDeclarationVariant(
                linecap,
            ) => MapCssDeclarationValueView::LinecapDeclarationVariant(*linecap),
            MapCssDeclarationValueType::LinejoinDeclarationVariant(
                linejoin,
            ) => MapCssDeclarationValueView::LinejoinDeclarationVariant(*linejoin),
            MapCssDeclarationValueType::TextPositionDeclarationVariant(
                position,
            ) => MapCssDeclarationValueView::TextPositionDeclarationVariant(*position),
            MapCssDeclarationValueType::IntegerArray(
                integers,
            ) => MapCssDeclarationValueView::IntegerArray(integers@),
            MapCssDeclarationValueType::Integer(integer) => MapCssDeclarationValueView::Integer(
                *integer,
            ),
            MapCssDeclarationValueType::Float(float) => MapCssDeclarationValueView::Float(*float),
        }
    }
}

impl Default for LinecapDeclarationVariant {
    fn default() -> (variant: Self)
        ensures
            variant == LinecapDeclarationVariant::NoCap,
    {
        LinecapDeclarationVariant::NoCap
    }
}

impl Default for LinejoinDeclarationVariant {
    fn default() -> (variant: Self)
        ensures
            variant == LinejoinDeclarationVariant::Round,
    {
        LinejoinDeclarationVariant::Round
    }
}

impl Default for TextPositionDeclarationVariant {
    fn default() -> (variant: Self)
        ensures
            variant == TextPositionDeclarationVariant::Center,
    {
        TextPositionDeclarationVariant::Center
    }
}

/// Which kinds of condition that cannot be evaluated have been met so far.
/// Each kind is reported once: when its flag turns from `false` to `true`.
#[derive(Debug, PartialEq, Eq, Copy, Clone, Structural)]
pub struct RenderSession {
    pub warned_zoom_level: bool,
    pub warned_pseudo_class: bool,
    pub warned_descendant: bool,
    pub warned_negation: bool,
}

impl RenderSession {
    /// A session in which nothing has been reported yet.
    pub open spec fn quiet() -> RenderSession {
        RenderSession {
            warned_zoom_level: false,
            warned_pseudo_class: false,
            warned_descendant: false,
            warned_negation: false,
        }
    }

    /// The flags of both sessions together.
    pub open spec fn join(self, other: RenderSession) -> RenderSession {
        RenderSession {
            warned_zoom_level: self.warned_zoom_level || other.warned_zoom_level,
            warned_pseudo_class: self.warned_pseudo_class || other.warned_pseudo_class,
            warned_descendant: self.warned_descendant || other.warned_descendant,
            warned_negation: self.warned_negation || other.warned_negation,
        }
    }

    pub fn new() -> (session: RenderSession)
        ensures
            session == RenderSession::quiet(),
    {
        RenderSession {
            warned_zoom_level: false,
            warned_pseudo_class: false,
            warned_descendant: false,
            warned_negation: false,
        }
    }
}

/// Whether some tag with the key `key` holds a decimal integer that stands in
/// the given relation to `bound`. A value that is no integer never matches.
pub open spec fn tag_number_matches(
    tags: Seq<(Seq<char>, Seq<char>)>,
    key: Seq<char>,
    bound: int,
    matches: spec_fn(int, int) -> bool,
) -> bool {
    exists|i: int|
        0 <= i < tags.len() && (#[trigger] tags[i]).0 == key && decimal_i64(tags[i].1) is Some
            && matches(decimal_i64(tags[i].1)->0 as int, bound)
}

/// Whether `condition` holds of `element`.
///
/// Tag conditions compare text exactly. Numeric conditions read the tag's value
/// as a decimal integer. Zoom levels, pseudo classes and descendants are not
/// evaluated and always hold. A negation is evaluated for `*` selectors and, on
/// the canvas, for `canvas` selectors; any other negation always holds.
pub open spec fn condition_holds(element: ElementModel, condition: SelectorConditionView) -> bool
    decreases condition,
{
    match condition {
        SelectorConditionView::No => true,
        SelectorConditionView::ExactZoomLevel(_) => true,
        SelectorConditionView::MinZoomLevel(_) => true,
        SelectorConditionView::RangeZoomLevel(_, _) => true,
        SelectorConditionView::MaxZoomLevel(_) => true,
        SelectorConditionView::Not(selector) => match selector.selector_type {
            SelectorType::Any => !condition_holds(element, selector.conditions),
            SelectorType::Canvas => if element.id is Canvas {
                !condition_holds(element, selector.conditions)
            } else {
                true
            },
            _ => true,
        },
        SelectorConditionView::HasDescendant(_) => true,
        SelectorConditionView::GenericPseudoClass(_) => true,
        SelectorConditionView::HasTag(key) => has_tag(element.tags, key),
        SelectorConditionView::HasExactTagValue(key, value) => has_tag_value(
            element.tags,
            key,
            value,
        ),
        SelectorConditionView::HasNotTagValue(key, value) => !has_tag_value(
            element.tags,
            key,
            value,
        ),
        SelectorConditionView::ValueGreaterThan(key, bound) => tag_number_matches(
            element.tags,
            key,
            bound,
            |v: int, b: int| v > b,
        ),
        SelectorConditionView::ValueGreaterThanEqual(key, bound) => tag_number_matches(
            element.tags,
            key,
            bound,
            |v: int, b: int| v >= b,
        ),
        SelectorConditionView::ValueLessThan(key, bound) => tag_number_matches(
            element.tags,
            key,
            bound,
            |v: int, b: int| v < b,
        ),
        SelectorConditionView::ValueLessThanEqual(key, bound) => tag_number_matches(
            element.tags,
            key,
            bound,
            |v: int, b: int| v <= b,
        ),
        SelectorConditionView::ClosedPath => false,
        SelectorConditionView::List(conditions) => forall|i: int|
            0 <= i < conditions.len() ==> condition_holds(element, #[trigger] conditions[i]),
    }
}

/// The kinds of unsupported condition that evaluating `condition` on `element`
/// meets. A list is evaluated in order and no further than its first condition
/// that fails.
pub open spec fn unsupported_in(
    element: ElementModel,
    condition: SelectorConditionView,
) -> RenderSession
    decreases condition, 0nat,
{
    match condition {
        SelectorConditionView::ExactZoomLevel(_)
        | SelectorConditionView::MinZoomLevel(_)
        | SelectorConditionView::RangeZoomLevel(_, _)
        | SelectorConditionView::MaxZoomLevel(_) => RenderSession {
            warned_zoom_level: true,
            ..RenderSession::quiet()
        },
        SelectorConditionView::Not(selector) => match selector.selector_type {
            SelectorType::Any => unsupported_in(element, selector.conditions),
            SelectorType::Canvas => if element.id is Canvas {
                unsupported_in(element, selector.conditions)
            } else {
                RenderSession::quiet()
            },
            _ => RenderSession { warned_negation: true, ..RenderSession::quiet() },
        },
        SelectorConditionView::HasDescendant(_) => RenderSession {
            warned_descendant: true,
            ..RenderSession::quiet()
        },
        SelectorConditionView::GenericPseudoClass(_) => RenderSession {
            warned_pseudo_class: true,
            ..RenderSession::quiet()
        },
        SelectorConditionView::List(conditions) => unsupported_in_list(element, conditions, 0),
        _ => RenderSession::quiet(),
    }
}

/// The kinds of unsupported condition met when the conditions of `conditions`
/// from index `from` on are evaluated in order, up to the first that fails.
pub open spec fn unsupported_in_list(
    element: ElementModel,
    conditions: Seq<SelectorConditionView>,
    from: int,
) -> RenderSession
    decreases conditions, conditions.len() - from,
{
    if 0 <= from < conditions.len() {
        let here = unsupported_in(element, conditions[from]);
        if condition_holds(element, conditions[from]) {
            here.join(unsupported_in_list(element, conditions, from + 1))
        } else {
            here
        }
    } else {
        RenderSession::quiet()
    }
}

fn tag_number_check(
    tags: &[(String, String)],
    key: &String,
    bound: isize,
    relation: u8,
) -> (found: bool)
    requires
        relation < 4,
    ensures
        found == tag_number_matches(
            tag_model(tags@),
            key@,
            bound as int,
            if relation == 0 {
                |v: int, b: int| v > b
            } else if relation == 1 {
                |v: int, b: int| v >= b
            } else if relation == 2 {
                |v: int, b: int| v < b
            } else {
                |v: int, b: int| v <= b
            },
        ),
{
    let ghost matches = if relation == 0 {
        |v: int, b: int| v > b
    } else if relation == 1 {
        |v: int, b: int| v >= b
    } else if relation == 2 {
        |v: int, b: int| v < b
    } else {
        |v: int, b: int| v <= b
    };
    let ghost model = tag_model(tags@);
    let mut i: usize = 0;
    while i < tags.len()
        invariant
            i <= tags.len(),
            relation < 4,
            model == tag_model(tags@),
            matches == (if relation == 0 {
                |v: int, b: int| v > b
            } else if relation == 1 {
                |v: int, b: int| v >= b
            } else if relation == 2 {
                |v: int, b: int| v < b
            } else {
                |v: int, b: int| v <= b
            }),
            forall|j: int|
                0 <= j < i ==> !((#[trigger] model[j]).0 == key@ && decimal_i64(model[j].1) is Some
                    && matches(decimal_i64(model[j].1)->0 as int, bound as int)),
        decreases tags.len() - i,
    {
        if tags[i].0 == *key {
            let value = chars_of(tags[i].1.as_str());
            assert(model[i as int] == (tags@[i as int].0@, tags@[i as int].1@));
            match parse_integer(&value) {
                Some(number) => {
                    let bound_wide: i64 = bound as i64;
                    let hit = if relation == 0 {
                        number > bound_wide
                    } else if relation == 1 {
                        number >= bound_wide
                    } else if relation == 2 {
                        number < bound_wide
                    } else {
                        number <= bound_wide
                    };
                    if hit {
                        assert(model[i as int].0 == key@ && decimal_i64(model[i as int].1) is Some
                            && matches(decimal_i64(model[i as int].1)->0 as int, bound as int));
                        return true;
                    }
                },
                None => {},
            }
        }
        i = i + 1;
    }
    false
}

/// Decides whether `condition` holds of `element`, and records in `session`
/// each kind of unsupported condition met on the way.
pub fn check_conditions<E: ElementData>(
    element: &E,
    condition: &SelectorCondition,
    session: &mut RenderSession,
) -> (holds: bool)
    ensures
        holds == condition_holds(element.model(), condition@),
        *final(session) == old(session).join(unsupported_in(element.model(), condition@)),
    decreases condition,
{
    match condition {
        SelectorCondition::No => true,
        SelectorCondition::Not(selector) => match selector.selector_type {
            SelectorType::Any => !check_conditions(element, &selector.conditions, session),
            SelectorType::Canvas => {
                if let ElementID::Canvas = element.id() {
                    !check_conditions(element, &selector.conditions, session)
                } else {
                    true
                }
            },
            _ => {
                session.warned_negation = true;
                true
            },
        },
        SelectorCondition::ExactZoomLevel(_)
        | SelectorCondition::MinZoomLevel(_)
        | SelectorCondition::RangeZoomLevel(_, _)
        | SelectorCondition::MaxZoomLevel(_) => {
            session.warned_zoom_level = true;
            true
        },
        SelectorCondition::List(condition_list) => {
            proof {
                lemma_condition_views(condition_list@);
            }
            let ghost views = condition@->List_0;
            let ghost start = *session;
            let mut i: usize = 0;
            while i < condition_list.len()
                invariant
                    i <= condition_list.len(),
                    condition == SelectorCondition::List(*condition_list),
                    views == condition@->List_0,
                    condition@ is List,
                    start == *old(session),
                    views.len() == condition_list@.len(),
                    forall|j: int|
                        0 <= j < views.len() ==> #[trigger] views[j] == condition_list@[j]@,
                    forall|j: int| 0 <= j < i ==> condition_holds(element.model(), views[j]),
                    session.join(unsupported_in_list(element.model(), views, i as int))
                        == start.join(unsupported_in_list(element.model(), views, 0)),
                decreases condition_list.len() - i,
            {
                assert(decreases_to!(condition_list => condition_list[i as int]));
                assert(decreases_to!(*condition => condition->List_0));
                let ghost before = *session;
                let ghost rest = unsupported_in_list(element.model(), views, i as int);
                let ghost here = unsupported_in(element.model(), views[i as int]);
                if !check_conditions(element, &condition_list[i], session) {
                    assert(!condition_holds(element.model(), views[i as int]));
                    assert(rest == here);
                    assert(*session == before.join(rest));
                    return false;
                }
                assert(condition_holds(element.model(), views[i as int]));
                assert(rest == here.join(unsupported_in_list(element.model(), views, i + 1)));
                i = i + 1;
            }
            true
        },
        SelectorCondition::GenericPseudoClass(_) => {
            session.warned_pseudo_class = true;
            true
        },
        SelectorCondition::HasTag(key) => crate::data::contains_key(element.tags(), key),
        SelectorCondition::HasExactTagValue(key, value) => crate::data::contains_tag(
            element.tags(),
            key,
            value,
        ),
        SelectorCondition::HasNotTagValue(key, value) => !crate::data::contains_tag(
            element.tags(),
            key,
            value,
        ),
        SelectorCondition::HasDescendant(_) => {
            session.warned_descendant = true;
            true
        },
        SelectorCondition::ValueGreaterThan(key, bound) => tag_number_check(
            element.tags(),
            key,
            *bound,
            0,
        ),
        SelectorCondition::ValueGreaterThanEqual(key, bound) => tag_number_check(
            element.tags(),
            key,
            *bound,
            1,
        ),
        SelectorCondition::ValueLessThan(key, bound) => tag_number_check(
            element.tags(),
            key,
            *bound,
            2,
        ),
        SelectorCondition::ValueLessThanEqual(key, bound) => tag_number_check(
            element.tags(),
            key,
            *bound,
            3,
        ),
        SelectorCondition::ClosedPath => false,
    }
}

/// The declarations registered under one selector type and one condition, in
/// the order in which the stylesheet gives them.
#[derive(Debug)]
pub struct DeclarationGroup {
    pub selector_type: SelectorType,
    pub condition: SelectorCondition,
    pub declarations: Vec<MapCssDeclaration>,
}

/// A group of declarations as a mathematical value.
pub ghost struct DeclarationGroupView {
    pub selector_type: SelectorType,
    pub condition: SelectorConditionView,
    pub declarations: Seq<MapCssDeclarationView>,
}

impl View for DeclarationGroup {
    type V = DeclarationGroupView;

    open spec fn view(&self) -> DeclarationGroupView {
        DeclarationGroupView {
            selector_type: self.selector_type,
            condition: self.condition@,
            declarations: declaration_views(self.declarations@),
        }
    }
}

/// The parsed stylesheet: for each selector type and condition the
/// declarations registered under them. Groups stand in the order in which their
/// key was first registered; no key occurs twice.
#[derive(Debug)]
pub struct MapCssDeclarationList {
    groups: Vec<DeclarationGroup>,
}

/// Whether `group` is the group of this selector type and condition.
pub open spec fn has_key(
    group: DeclarationGroupView,
    selector_type: SelectorType,
    condition: SelectorConditionView,
) -> bool {
    group.selector_type == selector_type && group.condition == condition
}

/// No two groups share a selector type and a condition.
pub open spec fn distinct_keys(groups: Seq<DeclarationGroupView>) -> bool {
    forall|i: int, j: int|
        0 <= i < j < groups.len() ==> !has_key(
            #[trigger] groups[j],
            (#[trigger] groups[i]).selector_type,
            groups[i].condition,
        )
}

/// Whether the group at index `i` is the first of this selector type and condition.
pub open spec fn first_with_key(
    groups: Seq<DeclarationGroupView>,
    selector_type: SelectorType,
    condition: SelectorConditionView,
    i: int,
) -> bool {
    &&& 0 <= i < groups.len()
    &&& has_key(groups[i], selector_type, condition)
    &&& forall|j: int| 0 <= j < i ==> !has_key(#[trigger] groups[j], selector_type, condition)
}

/// The groups after `declarations` were registered under a selector type and a
/// condition: appended to the group of that key if there is one, else a new
/// group at the end.
pub open spec fn registered(
    groups: Seq<DeclarationGroupView>,
    selector_type: SelectorType,
    condition: SelectorConditionView,
    declarations: Seq<MapCssDeclarationView>,
) -> Seq<DeclarationGroupView> {
    if exists|i: int| first_with_key(groups, selector_type, condition, i) {
        let i = choose|i: int| first_with_key(groups, selector_type, condition, i);
        groups.update(
            i,
            DeclarationGroupView {
                selector_type,
                condition,
                declarations: groups[i].declarations + declarations,
            },
        )
    } else {
        groups.push(DeclarationGroupView { selector_type, condition, declarations })
    }
}

/// Whether one of `declarations` sets `property`.
pub open spec fn sets_property(
    declarations: Seq<MapCssDeclarationView>,
    property: MapCssDeclarationProperty,
) -> bool {
    exists|i: int| 0 <= i < declarations.len() && (#[trigger] declarations[i]).0 == property
}

/// The value that the last declaration of `property` among `declarations` gives.
pub open spec fn last_value(
    declarations: Seq<MapCssDeclarationView>,
    property: MapCssDeclarationProperty,
) -> Option<MapCssDeclarationValueView>
    decreases declarations.len(),
{
    if declarations.len() == 0 {
        None
    } else if declarations.last().0 == property {
        Some(declarations.last().1)
    } else {
        last_value(declarations.drop_last(), property)
    }
}

/// The selector types that apply to an element, from the least to the most
/// specific.
pub open spec fn applicable_types(element: ElementModel) -> Seq<SelectorType> {
    match element.id {
        ElementID::Canvas => seq![SelectorType::Any, SelectorType::Canvas],
        ElementID::Node(_) => seq![SelectorType::Any, SelectorType::Node],
        ElementID::Relation(_) => seq![SelectorType::Any, SelectorType::Relation],
        ElementID::Way(_) => if element.closed {
            seq![SelectorType::Any, SelectorType::Way, SelectorType::Area]
        } else {
            seq![SelectorType::Any, SelectorType::Way, SelectorType::Line]
        },
    }
}

/// What `group` gives for `property` when rules of `selector_type` are looked
/// at: its last declaration of the property, if the group is of that type and
/// its condition holds of the element.
pub open spec fn group_value(
    group: DeclarationGroupView,
    element: ElementModel,
    property: MapCssDeclarationProperty,
    selector_type: SelectorType,
) -> Option<MapCssDeclarationValueView> {
    if group.selector_type == selector_type && condition_holds(element, group.condition) {
        last_value(group.declarations, property)
    } else {
        None
    }
}

/// The value that the groups of one selector type give for `property`: that of
/// the last group that gives one.
pub open spec fn resolve_in_type(
    groups: Seq<DeclarationGroupView>,
    element: ElementModel,
    property: MapCssDeclarationProperty,
    selector_type: SelectorType,
) -> Option<MapCssDeclarationValueView>
    decreases groups.len(),
{
    if groups.len() == 0 {
        None
    } else {
        match group_value(groups.last(), element, property, selector_type) {
            Some(value) => Some(value),
            None => resolve_in_type(groups.drop_last(), element, property, selector_type),
        }
    }
}

/// The value that the groups give for `property` when the selector types are
/// gone through in order: that of the last type that gives one.
pub open spec fn resolve_in_types(
    groups: Seq<DeclarationGroupView>,
    element: ElementModel,
    property: MapCssDeclarationProperty,
    selector_types: Seq<SelectorType>,
) -> Option<MapCssDeclarationValueView>
    decreases selector_types.len(),
{
    if selector_types.len() == 0 {
        None
    } else {
        match resolve_in_type(groups, element, property, selector_types.last()) {
            Some(value) => Some(value),
            None => resolve_in_types(groups, element, property, selector_types.drop_last()),
        }
    }
}

/// The value that the stylesheet resolves for a property of an element, if any.
pub open spec fn cascade(
    groups: Seq<DeclarationGroupView>,
    element: ElementModel,
    property: MapCssDeclarationProperty,
) -> Option<MapCssDeclarationValueView> {
    resolve_in_types(groups, element, property, applicable_types(element))
}

/// The resolved value, or `default` where nothing is resolved.
pub open spec fn cascade_or(
    groups: Seq<DeclarationGroupView>,
    element: ElementModel,
    property: MapCssDeclarationProperty,
    default: MapCssDeclarationValueView,
) -> MapCssDeclarationValueView {
    match cascade(groups, element, property) {
        Some(value) => value,
        None => default,
    }
}

/// The kinds of unsupported condition met when the conditions of all groups of
/// one selector type are evaluated.
pub open spec fn unsupported_under_type(
    groups: Seq<DeclarationGroupView>,
    element: ElementModel,
    selector_type: SelectorType,
) -> RenderSession
    decreases groups.len(),
{
    if groups.len() == 0 {
        RenderSession::quiet()
    } else {
        let before = unsupported_under_type(groups.drop_last(), element, selector_type);
        if groups.last().selector_type == selector_type {
            before.join(unsupported_in(element, groups.last().condition))
        } else {
            before
        }
    }
}

/// The kinds of unsupported condition met when the groups of each of the
/// selector types are evaluated.
pub open spec fn unsupported_under_types(
    groups: Seq<DeclarationGroupView>,
    element: ElementModel,
    selector_types: Seq<SelectorType>,
) -> RenderSession
    decreases selector_types.len(),
{
    if selector_types.len() == 0 {
        RenderSession::quiet()
    } else {
        unsupported_under_types(groups, element, selector_types.drop_last()).join(
            unsupported_under_type(groups, element, selector_types.last()),
        )
    }
}

/// The kinds of unsupported condition that resolving any property of `element`
/// meets: every rule of an applicable selector type has its condition evaluated.
pub open spec fn unsupported_for(
    groups: Seq<DeclarationGroupView>,
    element: ElementModel,
) -> RenderSession {
    unsupported_under_types(groups, element, applicable_types(element))
}

/// The selector types that apply to an element, from the least to the most
/// specific.
pub fn applicable_selector_types<E: ElementData>(element: &E) -> (types: Vec<SelectorType>)
    ensures
        types@ == applicable_types(element.model()),
{
    let mut types: Vec<SelectorType> = Vec::new();
    types.push(SelectorType::Any);
    match element.id() {
        ElementID::Canvas => {
            types.push(SelectorType::Canvas);
        },
        ElementID::Node(_) => {
            types.push(SelectorType::Node);
        },
        ElementID::Relation(_) => {
            types.push(SelectorType::Relation);
        },
        ElementID::Way(_) => {
            types.push(SelectorType::Way);
            if element.has_closed_path() {
                types.push(SelectorType::Area);
            } else {
                types.push(SelectorType::Line);
            }
        },
    }
    assert(types@ =~= applicable_types(element.model()));
    types
}

/// The value of the last declaration of `property` among `declarations`.
pub fn scan_declarations<'a>(
    declarations: &'a Vec<MapCssDeclaration>,
    property: &MapCssDeclarationProperty,
) -> (found: Option<&'a MapCssDeclarationValueType>)
    ensures
        match found {
            Some(value) => last_value(declaration_views(declarations@), *property) == Some(value@),
            None => last_value(declaration_views(declarations@), *property) is None,
        },
{
    let mut found: Option<&'a MapCssDeclarationValueType> = None;
    let mut i: usize = 0;
    while i < declarations.len()
        invariant
            i <= declarations.len(),
            match found {
                Some(value) => last_value(
                    declaration_views(declarations@).take(i as int),
                    *property,
                ) == Some(value@),
                None => last_value(declaration_views(declarations@).take(i as int), *property) is None,
            },
        decreases declarations.len() - i,
    {
        proof {
            let views = declaration_views(declarations@);
            let longer = views.take(i + 1);
            assert(longer.drop_last() =~= views.take(i as int));
            assert(longer.last() == views[i as int]);
        }
        if declarations[i].0 == *property {
            found = Some(&declarations[i].1);
        }
        i = i + 1;
    }
    assert(declaration_views(declarations@).take(declarations@.len() as int) =~= declaration_views(
        declarations@,
    ));
    found
}

impl View for MapCssDeclarationList {
    type V = Seq<DeclarationGroupView>;

    closed spec fn view(&self) -> Seq<DeclarationGroupView> {
        Seq::new(self.groups@.len(), |i: int| self.groups@[i]@)
    }
}

impl MapCssDeclarationList {
    /// A stylesheet without rules.
    pub fn new() -> (list: MapCssDeclarationList)
        ensures
            list@ == Seq::<DeclarationGroupView>::empty(),
    {
        let list = MapCssDeclarationList { groups: Vec::new() };
        assert(list@ =~= Seq::<DeclarationGroupView>::empty());
        list
    }

    pub fn is_empty(&self) -> (empty: bool)
        ensures
            empty == (self@.len() == 0),
    {
        self.groups.len() == 0
    }

    /// Registers the declarations of a rule under its selector type and
    /// condition. Declarations registered under one key stay in the order in
    /// which they were registered.
    pub fn register(
        &mut self,
        selector_type: SelectorType,
        condition: SelectorCondition,
        declarations: Vec<MapCssDeclaration>,
    )
        ensures
            final(self)@ == registered(
                old(self)@,
                selector_type,
                condition@,
                declaration_views(declarations@),
            ),
            distinct_keys(old(self)@) ==> distinct_keys(final(self)@),
    {
        let ghost before = self@;
        let ghost added = declaration_views(declarations@);
        let mut pending = declarations;
        let mut i: usize = 0;
        while i < self.groups.len()
            invariant
                i <= self.groups.len(),
                self@ == before,
                before == old(self)@,
                added == declaration_views(declarations@),
                declaration_views(pending@) == added,
                forall|j: int| 0 <= j < i ==> !has_key(#[trigger] before[j], selector_type, condition@),
            decreases self.groups.len() - i,
        {
            if self.groups[i].selector_type == selector_type && same_condition(
                &self.groups[i].condition,
                &condition,
            ) {
                assert(first_with_key(before, selector_type, condition@, i as int));
                let ghost chosen = choose|k: int|
                    first_with_key(before, selector_type, condition@, k);
                assert(chosen == i) by {
                    if chosen < i {
                        assert(!has_key(before[chosen], selector_type, condition@));
                    } else if chosen > i {
                        assert(has_key(before[i as int], selector_type, condition@));
                    }
                }
                let mut group = self.groups.remove(i);
                let ghost kept = group.declarations@;
                let ghost joined = pending@;
                group.declarations.append(&mut pending);
                assert(declaration_views(kept + joined) =~= declaration_views(kept) + added);
                self.groups.insert(i, group);
                assert(self@ =~= registered(before, selector_type, condition@, added));
                proof {
                    let after = self@;
                    if distinct_keys(before) {
                        assert forall|a: int, b: int| 0 <= a < b < after.len() implies !has_key(
                            #[trigger] after[b],
                            (#[trigger] after[a]).selector_type,
                            after[a].condition,
                        ) by {
                            assert(has_key(after[b], after[a].selector_type, after[a].condition)
                                == has_key(
                                before[b],
                                before[a].selector_type,
                                before[a].condition,
                            ));
                        }
                    }
                }
                return ;
            }
            i = i + 1;
        }
        self.groups.push(DeclarationGroup { selector_type, condition, declarations: pending });
        assert(self@ =~= registered(before, selector_type, condition@, added));
        proof {
            let after = self@;
            assert forall|a: int, b: int|
                distinct_keys(before) && 0 <= a < b < after.len() implies !has_key(
                #[trigger] after[b],
                (#[trigger] after[a]).selector_type,
                after[a].condition,
            ) by {
                if b < before.len() {
                    assert(after[b] == before[b] && after[a] == before[a]);
                } else {
                    assert(after[a] == before[a]);
                    assert(!has_key(before[a], selector_type, condition@));
                }
            }
        }
    }

    /// Resolves `property` among the rules of one selector type.
    fn search_in_type<'a, E: ElementData>(
        &'a self,
        element: &E,
        property: &MapCssDeclarationProperty,
        selector_type: SelectorType,
        session: &mut RenderSession,
    ) -> (found: Option<&'a MapCssDeclarationValueType>)
        ensures
            match found {
                Some(value) => resolve_in_type(self@, element.model(), *property, selector_type)
                    == Some(value@),
                None => resolve_in_type(self@, element.model(), *property, selector_type) is None,
            },
            *final(session) == old(session).join(
                unsupported_under_type(self@, element.model(), selector_type),
            ),
    {
        let mut found: Option<&'a MapCssDeclarationValueType> = None;
        let mut i: usize = 0;
        while i < self.groups.len()
            invariant
                i <= self.groups.len(),
                match found {
                    Some(value) => resolve_in_type(
                        self@.take(i as int),
                        element.model(),
                        *property,
                        selector_type,
                    ) == Some(value@),
                    None => resolve_in_type(
                        self@.take(i as int),
                        element.model(),
                        *property,
                        selector_type,
                    ) is None,
                },
                *session == old(session).join(
                    unsupported_under_type(self@.take(i as int), element.model(), selector_type),
                ),
            decreases self.groups.len() - i,
        {
            proof {
                let longer = self@.take(i + 1);
                assert(longer.drop_last() =~= self@.take(i as int));
                assert(longer.last() == self.groups@[i as int]@);
            }
            let group = &self.groups[i];
            if group.selector_type == selector_type {
                if check_conditions(element, &group.condition, session) {
                    // the rule applies: look for declarations of the property
                    match scan_declarations(&group.declarations, property) {
                        Some(value) => {
                            found = Some(value);
                        },
                        None => {},
                    }
                }
            }
            i = i + 1;
        }
        assert(self@.take(self@.len() as int) =~= self@);
        found
    }

    /// Resolves `property` for `element`: the value of the last matching rule
    /// of the most specific selector type that sets it.
    pub fn search_cascading<'a, E: ElementData>(
        &'a self,
        element: &E,
        property: &MapCssDeclarationProperty,
        session: &mut RenderSession,
    ) -> (found: Option<&'a MapCssDeclarationValueType>)
        ensures
            match found {
                Some(value) => cascade(self@, element.model(), *property) == Some(value@),
                None => cascade(self@, element.model(), *property) is None,
            },
            *final(session) == old(session).join(unsupported_for(self@, element.model())),
    {
        // ordered from the least specific selector (*) to the most specific one
        let selectors = applicable_selector_types(element);
        let mut found: Option<&'a MapCssDeclarationValueType> = None;
        let mut i: usize = 0;
        while i < selectors.len()
            invariant
                i <= selectors.len(),
                selectors@ == applicable_types(element.model()),
                match found {
                    Some(value) => resolve_in_types(
                        self@,
                        element.model(),
                        *property,
                        selectors@.take(i as int),
                    ) == Some(value@),
                    None => resolve_in_types(
                        self@,
                        element.model(),
                        *property,
                        selectors@.take(i as int),
                    ) is None,
                },
                *session == old(session).join(
                    unsupported_under_types(self@, element.model(), selectors@.take(i as int)),
                ),
            decreases selectors.len() - i,
        {
            proof {
                let longer = selectors@.take(i + 1);
                assert(longer.drop_last() =~= selectors@.take(i as int));
                assert(longer.last() == selectors@[i as int]);
            }
            match self.search_in_type(element, property, selectors[i], session) {
                Some(value) => {
                    found = Some(value);
                },
                None => {},
            }
            i = i + 1;
        }
        assert(selectors@.take(selectors@.len() as int) =~= selectors@);
        found
    }

    /// Resolves a property that must be set. Where no applicable rule sets it,
    /// the lookup fails with `MissingDeclaration`.
    pub fn search_cascading_or_panic<'a, E: ElementData>(
        &'a self,
        element: &E,
        property: &MapCssDeclarationProperty,
        session: &mut RenderSession,
    ) -> (found: Result<&'a MapCssDeclarationValueType, MapCssError>)
        ensures
            match found {
                Ok(value) => cascade(self@, element.model(), *property) == Some(value@),
                Err(error) => cascade(self@, element.model(), *property) is None
                    && error == MapCssError::MissingDeclaration(*property),
            },
            *final(session) == old(session).join(unsupported_for(self@, element.model())),
    {
        match self.search_cascading(element, property, session) {
            Some(value) => Ok(value),
            None => Err(MapCssError::MissingDeclaration(*property)),
        }
    }

    /// Resolves a property, falling back to `default` where no applicable rule
    /// sets it.
    pub fn search_or_default<'a, E: ElementData>(
        &'a self,
        element: &E,
        property: &MapCssDeclarationProperty,
        default: &'a MapCssDeclarationValueType,
        session: &mut RenderSession,
    ) -> (value: &'a MapCssDeclarationValueType)
        ensures
            value@ == cascade_or(self@, element.model(), *property, default@),
            *final(session) == old(session).join(unsupported_for(self@, element.model())),
    {
        match self.search_cascading(element, property, session) {
            Some(value) => value,
            None => default,
        }
    }
}

/// The whole part of a number of thousandths, rounded towards zero.
pub open spec fn whole_part(thousandths: int) -> int {
    if thousandths >= 0 {
        thousandths / 1000
    } else {
        -((-thousandths) / 1000)
    }
}

/// `value` limited to the range of `IntSize`.
pub open spec fn clamped(value: int) -> IntSize {
    if value < IntSize::MIN {
        IntSize::MIN
    } else if value > IntSize::MAX {
        IntSize::MAX
    } else {
        value as IntSize
    }
}

impl MapCssDeclarationValueView {
    /// The color that the value holds, if it is a color.
    pub open spec fn color_value(self) -> Option<RGBA> {
        match self {
            MapCssDeclarationValueView::Color(color) => Some(color),
            _ => None,
        }
    }

    /// The truth value that the value holds, if it is one.
    pub open spec fn boolean_value(self) -> Option<bool> {
        match self {
            MapCssDeclarationValueView::Boolean(boolean) => Some(boolean),
            _ => None,
        }
    }

    /// The value as an integer, if it is a number: a decimal number gives its
    /// whole part, limited to the range of `IntSize`.
    pub open spec fn integer_value(self) -> Option<IntSize> {
        match self {
            MapCssDeclarationValueView::Integer(integer) => Some(integer),
            MapCssDeclarationValueView::Float(float) => Some(
                clamped(whole_part(float.thousandths as int)),
            ),
            _ => None,
        }
    }

    /// The value as a decimal number, if it is a number.
    pub open spec fn float_value(self) -> Option<FloatSize> {
        match self {
            MapCssDeclarationValueView::Float(float) => Some(float),
            MapCssDeclarationValueView::Integer(integer) => Some(
                FloatSize { thousandths: (integer * 1000) as i64 },
            ),
            _ => None,
        }
    }
}

impl MapCssDeclarationValueType {
    pub fn as_color(&self) -> (color: Option<RGBA>)
        ensures
            color == self@.color_value(),
    {
        match self {
            MapCssDeclarationValueType::Color(color) => Some(*color),
            _ => None,
        }
    }

    pub fn as_bool(&self) -> (boolean: Option<bool>)
        ensures
            boolean == self@.boolean_value(),
    {
        match self {
            MapCssDeclarationValueType::Boolean(boolean) => Some(*boolean),
            _ => None,
        }
    }

    pub fn as_integer(&self) -> (integer: Option<IntSize>)
        ensures
            integer == self@.integer_value(),
    {
        match self {
            MapCssDeclarationValueType::Integer(integer) => Some(*integer),
            MapCssDeclarationValueType::Float(float) => {
                let thousandths = float.thousandths;
                let whole: i64 = if thousandths >= 0 {
                    thousandths / 1000
                } else if thousandths == i64::MIN {
                    -9_223_372_036_854_775
                } else {
                    -((-thousandths) / 1000)
                };
                if whole < -2_147_483_648 {
                    Some(IntSize::MIN)
                } else if whole > 2_147_483_647 {
                    Some(IntSize::MAX)
                } else {
                    Some(whole as IntSize)
                }
            },
            _ => None,
        }
    }

    pub fn as_float(&self) -> (float: Option<FloatSize>)
        ensures
            float == self@.float_value(),
    {
        match self {
            MapCssDeclarationValueType::Float(float) => Some(*float),
            MapCssDeclarationValueType::Integer(integer) => {
                let wide: i64 = *integer as i64;
                Some(FloatSize { thousandths: wide * 1000 })
            },
            _ => None,
        }
    }
}

pub trait ToFloatValue {
    /// The decimal number that the value converts to, if any.
    spec fn float(&self) -> Option<FloatSize>;

    fn to_float(&self) -> (float: FloatSize)
        requires
            self.float() is Some,
        ensures
            Some(float) == self.float(),
    ;
}

pub trait ToIntegerValue {
    /// The integer that the value converts to, if any.
    spec fn integer(&self) -> Option<IntSize>;

    fn to_integer(&self) -> (integer: IntSize)
        requires
            self.integer() is Some,
        ensures
            Some(integer) == self.integer(),
    ;
}

pub trait ToColorValue {
    /// The color that the value converts to, if any.
    spec fn color(&self) -> Option<RGBA>;

    fn to_color(&self) -> (color: RGBA)
        requires
            self.color() is Some,
        ensures
            Some(color) == self.color(),
    ;
}

pub trait ToBooleanValue {
    /// The truth value that the value converts to, if any.
    spec fn boolean(&self) -> Option<bool>;

    fn to_bool(&self) -> (boolean: bool)
        requires
            self.boolean() is Some,
        ensures
            Some(boolean) == self.boolean(),
    ;
}

impl ToFloatValue for MapCssDeclarationValueType {
    open spec fn float(&self) -> Option<FloatSize> {
        self@.float_value()
    }

    fn to_float(&self) -> (float: FloatSize) {
        match self.as_float() {
            Some(float) => float,
            None => FloatSize { thousandths: 0 },
        }
    }
}

impl ToIntegerValue for MapCssDeclarationValueType {
    open spec fn integer(&self) -> Option<IntSize> {
        self@.integer_value()
    }

    fn to_integer(&self) -> (integer: IntSize) {
        match self.as_integer() {
            Some(integer) => integer,
            None => 0,
        }
    }
}

impl ToColorValue for MapCssDeclarationValueType {
    open spec fn color(&self) -> Option<RGBA> {
        self@.color_value()
    }

    fn to_color(&self) -> (color: RGBA) {
        match self.as_color() {
            Some(color) => color,
            None => RGBA { red: 0, green: 0, blue: 0, alpha: 255 },
        }
    }
}

impl ToBooleanValue for MapCssDeclarationValueType {
    open spec fn boolean(&self) -> Option<bool> {
        self@.boolean_value()
    }

    fn to_bool(&self) -> (boolean: bool) {
        match self.as_bool() {
            Some(boolean) => boolean,
            None => false,
        }
    }
}

/// The text of a list of integers from index `from` on: the integers in base
/// ten, each but the first after a comma and a blank.
pub open spec fn integers_text(integers: Seq<IntSize>, from: int) -> Seq<char>
    decreases integers.len() - from,
{
    if 0 <= from < integers.len() {
        (if from > 0 {
            seq![',', ' ']
        } else {
            Seq::<char>::empty()
        }) + integer_text(integers[from] as int) + integers_text(integers, from + 1)
    } else {
        Seq::empty()
    }
}

/// The digits after the decimal point for a number of thousandths below one:
/// up to three digits, without zeros at the end.
pub open spec fn fraction_text(thousandths: int) -> Seq<char> {
    let first = seq![digit_char(thousandths / 100)];
    let second = seq![digit_char(thousandths / 10 % 10)];
    let third = seq![digit_char(thousandths % 10)];
    if thousandths % 10 != 0 {
        first + second + third
    } else if thousandths / 10 % 10 != 0 {
        first + second
    } else {
        first
    }
}

/// A decimal number as text: a minus sign for a negative number, the whole
/// part, and, unless it is zero, a point and the fraction.
pub open spec fn decimal_text(number: FloatSize) -> Seq<char> {
    let magnitude = if number.thousandths < 0 {
        -number.thousandths
    } else {
        number.thousandths as int
    };
    (if number.thousandths < 0 {
        seq!['-']
    } else {
        Seq::<char>::empty()
    }) + natural_text((magnitude / 1000) as nat) + (if magnitude % 1000 != 0 {
        seq!['.'] + fraction_text(magnitude % 1000)
    } else {
        Seq::<char>::empty()
    })
}

/// A value as text, as a stylesheet would show it.
pub open spec fn value_text(value: MapCssDeclarationValueView) -> Seq<char> {
    match value {
        MapCssDeclarationValueView::Boolean(boolean) => if boolean {
            "true"@
        } else {
            "false"@
        },
        MapCssDeclarationValueView::String(string) => string,
        MapCssDeclarationValueView::Color(color) => color_text(color),
        MapCssDeclarationValueView::LinecapDeclarationVariant(linecap) => linecap.text(),
        MapCssDeclarationValueView::LinejoinDeclarationVariant(linejoin) => linejoin.text(),
        MapCssDeclarationValueView::TextPositionDeclarationVariant(position) => position.text(),
        MapCssDeclarationValueView::IntegerArray(integers) => seq!['['] + integers_text(
            integers,
            0,
        ) + seq![']'],
        MapCssDeclarationValueView::Integer(integer) => integer_text(integer as int),
        MapCssDeclarationValueView::Float(float) => decimal_text(float),
    }
}

impl LinecapDeclarationVariant {
    pub open spec fn text(self) -> Seq<char> {
        match self {
            LinecapDeclarationVariant::NoCap => "none"@,
            LinecapDeclarationVariant::Round => "round"@,
            LinecapDeclarationVariant::Square => "square"@,
        }
    }

    /// The variant as a stylesheet names it.
    pub fn as_str(&self) -> (text: &'static str)
        ensures
            text@ == self.text(),
    {
        match self {
            LinecapDeclarationVariant::NoCap => "none",
            LinecapDeclarationVariant::Round => "round",
            LinecapDeclarationVariant::Square => "square",
        }
    }
}

impl LinejoinDeclarationVariant {
    pub open spec fn text(self) -> Seq<char> {
        match self {
            LinejoinDeclarationVariant::Round => "round"@,
            LinejoinDeclarationVariant::Miter => "miter"@,
            LinejoinDeclarationVariant::Bevel => "bevel"@,
        }
    }

    /// The variant as a stylesheet names it.
    pub fn as_str(&self) -> (text: &'static str)
        ensures
            text@ == self.text(),
    {
        match self {
            LinejoinDeclarationVariant::Round => "round",
            LinejoinDeclarationVariant::Miter => "miter",
            LinejoinDeclarationVariant::Bevel => "bevel",
        }
    }
}

impl TextPositionDeclarationVariant {
    pub open spec fn text(self) -> Seq<char> {
        match self {
            TextPositionDeclarationVariant::Center => "center"@,
            TextPositionDeclarationVariant::Line => "line"@,
        }
    }

    /// The variant as a stylesheet names it.
    pub fn as_str(&self) -> (text: &'static str)
        ensures
            text@ == self.text(),
    {
        match self {
            TextPositionDeclarationVariant::Center => "center",
            TextPositionDeclarationVariant::Line => "line",
        }
    }
}

fn append_fraction(text: &mut String, thousandths: u64)
    requires
        0 < thousandths < 1000,
    ensures
        final(text)@ == old(text)@ + fraction_text(thousandths as int),
{
    let first = thousandths / 100;
    let second = thousandths / 10 % 10;
    let third = thousandths % 10;
    proof {
        assert(natural_text(first as nat) =~= seq![digit_char(first as int)]);
        assert(natural_text(second as nat) =~= seq![digit_char(second as int)]);
        assert(natural_text(third as nat) =~= seq![digit_char(third as int)]);
    }
    append_natural(text, first);
    if third != 0 {
        append_natural(text, second);
        append_natural(text, third);
    } else if second != 0 {
        append_natural(text, second);
    }
    assert(final(text)@ =~= old(text)@ + fraction_text(thousandths as int));
}

impl MapCssDeclarationValueType {
    /// The value as text, as a stylesheet would show it.
    pub fn to_string(&self) -> (text: String)
        ensures
            text@ == value_text(self@),
    {
        match self {
            MapCssDeclarationValueType::Boolean(boolean) => if *boolean {
                "true".to_owned()
            } else {
                "false".to_owned()
            },
            MapCssDeclarationValueType::String(string) => string.clone(),
            MapCssDeclarationValueType::Color(color) => color.to_string(),
            MapCssDeclarationValueType::LinecapDeclarationVariant(linecap) => {
                linecap.as_str().to_owned()
            },
            MapCssDeclarationValueType::LinejoinDeclarationVariant(linejoin) => {
                linejoin.as_str().to_owned()
            },
            MapCssDeclarationValueType::TextPositionDeclarationVariant(position) => {
                position.as_str().to_owned()
            },
            MapCssDeclarationValueType::IntegerArray(integers) => {
                proof {
                    reveal_strlit("[");
                    reveal_strlit("]");
                    reveal_strlit(", ");
                }
                let mut text = "[".to_owned();
                let mut i: usize = 0;
                assert(text@ =~= seq!['[']);
                while i < integers.len()
                    invariant
                        i <= integers.len(),
                        text@ + integers_text(integers@, i as int) == seq!['['] + integers_text(
                            integers@,
                            0,
                        ),
                    decreases integers.len() - i,
                {
                    let ghost before = text@;
                    let ghost rest = integers_text(integers@, i + 1);
                    if i > 0 {
                        proof {
                            reveal_strlit(", ");
                        }
                        text.append(", ");
                        assert(", "@ =~= seq![',', ' ']);
                    }
                    append_integer(&mut text, integers[i] as i64);
                    assert(text@ + rest =~= before + integers_text(integers@, i as int));
                    i = i + 1;
                }
                assert(integers_text(integers@, i as int) =~= Seq::<char>::empty());
                text.append("]");
                assert(text@ =~= value_text(self@));
                text
            },
            MapCssDeclarationValueType::Integer(integer) => {
                let mut text = String::new();
                append_integer(&mut text, *integer as i64);
                assert(text@ =~= value_text(self@));
                text
            },
            MapCssDeclarationValueType::Float(float) => {
                proof {
                    reveal_strlit("-");
                    reveal_strlit(".");
                }
                let mut text = String::new();
                let magnitude: u64 = if float.thousandths < 0 {
                    text.append("-");
                    if float.thousandths == i64::MIN {
                        0x8000_0000_0000_0000
                    } else {
                        (-float.thousandths) as u64
                    }
                } else {
                    float.thousandths as u64
                };
                append_natural(&mut text, magnitude / 1000);
                if magnitude % 1000 != 0 {
                    text.append(".");
                    append_fraction(&mut text, magnitude % 1000);
                }
                assert(text@ =~= value_text(self@));
                text
            },
        }
    }
}

impl Clone for MapCssDeclarationValueType {
    fn clone(&self) -> (copy: Self)
        ensures
            copy@ == self@,
    {
        match self {
            MapCssDeclarationValueType::Boolean(boolean) => MapCssDeclarationValueType::Boolean(
                *boolean,
            ),
            MapCssDeclarationValueType::String(string) => MapCssDeclarationValueType::String(
                string.clone(),
            ),
            MapCssDeclarationValueType::Color(color) => MapCssDeclarationValueType::Color(*color),
            MapCssDeclarationValueType::LinecapDeclarationVariant(
                linecap,
            ) => MapCssDeclarationValueType::LinecapDeclarationVariant(*linecap),
            MapCssDeclarationValueType::LinejoinDeclarationVariant(
                linejoin,
            ) => MapCssDeclarationValueType::LinejoinDeclarationVariant(*linejoin),
            MapCssDeclarationValueType::TextPositionDeclarationVariant(
                position,
            ) => MapCssDeclarationValueType::TextPositionDeclarationVariant(*position),
            MapCssDeclarationValueType::IntegerArray(integers) => {
                let mut copy: Vec<IntSize> = Vec::new();
                let mut i: usize = 0;
                while i < integers.len()
                    invariant
                        i <= integers.len(),
                        copy@ == integers@.take(i as int),
                    decreases integers.len() - i,
                {
                    copy.push(integers[i]);
                    assert(integers@.take(i + 1) =~= integers@.take(i as int).push(
                        integers@[i as int],
                    ));
                    i = i + 1;
                }
                assert(integers@.take(integers@.len() as int) =~= integers@);
                MapCssDeclarationValueType::IntegerArray(copy)
            },
            MapCssDeclarationValueType::Integer(integer) => MapCssDeclarationValueType::Integer(
                *integer,
            ),
            MapCssDeclarationValueType::Float(float) => MapCssDeclarationValueType::Float(*float),
        }
    }
}

/// A copy of the declarations.
pub fn clone_declarations(declarations: &Vec<MapCssDeclaration>) -> (copy: Vec<MapCssDeclaration>)
    ensures
        declaration_views(copy@) == declaration_views(declarations@),
{
    let mut copy: Vec<MapCssDeclaration> = Vec::new();
    let mut i: usize = 0;
    while i < declarations.len()
        invariant
            i <= declarations.len(),
            copy@.len() == i,
            forall|k: int|
                0 <= k < i ==> (#[trigger] copy@[k]).0 == declarations@[k].0 && copy@[k].1@
                    == declarations@[k].1@,
        decreases declarations.len() - i,
    {
        copy.push((declarations[i].0, declarations[i].1.clone()));
        i = i + 1;
    }
    assert(declaration_views(copy@) =~= declaration_views(declarations@));
    copy
}

} // verus!
