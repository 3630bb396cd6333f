//! From the syntax tree of a stylesheet to selectors and declarations.

use crate::mapcss::declaration::color::{ascii_lower, lowered, parse_color, RGBA};
use crate::mapcss::declaration::{
    clone_declarations, declaration_views, registered, DeclarationGroupView, FloatSize, IntSize,
    LinecapDeclarationVariant, LinejoinDeclarationVariant, MapCssDeclaration,
    MapCssDeclarationList, MapCssDeclarationProperty, MapCssDeclarationValueType,
    MapCssDeclarationValueView, MapCssDeclarationView, TextPositionDeclarationVariant,
};
use crate::mapcss::error::MapCssError;
use crate::mapcss::selectors::{
    condition_views, lemma_condition_views, merged_conditions, Selector, SelectorCondition,
    SelectorConditionView, SelectorType, SelectorView,
};
use crate::mapcss::{declared_text, MapCssAcknowledgement, MapCssParseError};
use crate::text::{
    all_digits, chars_of, decimal_i64, digit_value, digits_value, find_char, find_last_char,
    first_index_of, last_index_of, only_digits, parse_digits, parse_integer, slice_chars, spells,
    strip_ends, stripped,
};
use std::rc::Rc;
use vstd::prelude::*;

verus! {

/// The kinds of node in the syntax tree of a stylesheet.
#[derive(Debug, Clone, Copy, PartialEq, Eq, Structural)]
pub enum Rule {
    RuleList,
    Rule,
    Comment,
    RuleSelector,
    RuleDeclaration,
    Selector,
    RuleDescendant,
    SelectorTests,
    TagValue,
    Comparison,
    SelectorTestZoomLevel,
    SelectorTestZoomLevelExact,
    SelectorTestZoomLevelClosedRange,
    SelectorTestZoomLevelOpenRightRange,
    SelectorPseudoClasses,
    ClosedPseudoClass,
    GenericPseudoClass,
    NotPseudoClass,
    DeclarationName,
    DoubleQuotedString,
    SingleQuotedString,
    Float,
    Int,
    Url,
    EndOfInput,
    Other,
}

/// A node of the syntax tree: its kind, the text it spans, the text that its
/// children span together, and its children.
#[derive(Debug)]
pub struct SyntaxNode {
    pub rule: Rule,
    pub text: String,
    pub inner_text: String,
    pub children: Vec<SyntaxNode>,
}

/// The selector type that a stylesheet names so.
pub open spec fn selector_type_named(name: Seq<char>) -> Option<SelectorType> {
    if name == "*"@ {
        Some(SelectorType::Any)
    } else if name == "area"@ {
        Some(SelectorType::Area)
    } else if name == "canvas"@ {
        Some(SelectorType::Canvas)
    } else if name == "line"@ {
        Some(SelectorType::Line)
    } else if name == "meta"@ {
        Some(SelectorType::Meta)
    } else if name == "node"@ {
        Some(SelectorType::Node)
    } else if name == "relation"@ {
        Some(SelectorType::Relation)
    } else if name == "way"@ {
        Some(SelectorType::Way)
    } else {
        None
    }
}

/// Builds the selector for the name of a selector type; a name that is none
/// gives `InvalidSelector`.
pub fn selector_span_to_type(span: &str, selector_conditions: SelectorCondition) -> (selector:
    Result<Selector, MapCssParseError>)
    ensures
        match selector {
            Ok(selector) => selector_type_named(span@) == Some(selector@.selector_type)
                && selector@.conditions == selector_conditions@,
            Err(error) => selector_type_named(span@) is None && error is InvalidSelector,
        },
{
    let name = chars_of(span);
    let selector_type = if spells(&name, "*") {
        SelectorType::Any
    } else if spells(&name, "area") {
        SelectorType::Area
    } else if spells(&name, "canvas") {
        SelectorType::Canvas
    } else if spells(&name, "line") {
        SelectorType::Line
    } else if spells(&name, "meta") {
        SelectorType::Meta
    } else if spells(&name, "node") {
        SelectorType::Node
    } else if spells(&name, "relation") {
        SelectorType::Relation
    } else if spells(&name, "way") {
        SelectorType::Way
    } else {
        return Err(MapCssParseError::InvalidSelector);
    };
    Ok(Selector::new(selector_type, selector_conditions))
}

/// The integer that a text denotes, if it fits `isize`.
pub open spec fn decimal_isize(text: Seq<char>) -> Option<isize> {
    match decimal_i64(text) {
        Some(value) => if isize::MIN <= value <= isize::MAX {
            Some(value as isize)
        } else {
            None
        },
        None => None,
    }
}

/// What a comparison in a selector comes to.
pub ghost enum Comparison {
    /// The operator is none that a selector may hold.
    Invalid,
    /// The comparison adds no condition: it compares with something that is
    /// no number.
    Nothing,
    Condition(SelectorConditionView),
}

/// The condition for a comparison of the tag `target` with `expected`.
pub open spec fn comparison_condition(
    operator: Seq<char>,
    target: Seq<char>,
    expected: Seq<char>,
) -> Comparison {
    if operator == "="@ {
        Comparison::Condition(SelectorConditionView::HasExactTagValue(target, expected))
    } else if operator == "!="@ {
        Comparison::Condition(SelectorConditionView::HasNotTagValue(target, expected))
    } else if operator == ">"@ || operator == ">="@ || operator == "<"@ || operator == "<="@ {
        match decimal_isize(expected) {
            Some(number) => Comparison::Condition(
                if operator == ">"@ {
                    SelectorConditionView::ValueGreaterThan(target, number as int)
                } else if operator == ">="@ {
                    SelectorConditionView::ValueGreaterThanEqual(target, number as int)
                } else if operator == "<"@ {
                    SelectorConditionView::ValueLessThan(target, number as int)
                } else {
                    SelectorConditionView::ValueLessThanEqual(target, number as int)
                },
            ),
            None => Comparison::Nothing,
        }
    } else {
        Comparison::Invalid
    }
}

fn read_isize(text: &str) -> (number: Option<isize>)
    ensures
        number == decimal_isize(text@),
{
    match parse_integer(&chars_of(text)) {
        Some(value) => if isize::MIN as i64 <= value && value <= isize::MAX as i64 {
            Some(value as isize)
        } else {
            None
        },
        None => None,
    }
}

/// Adds the condition for a comparison to `condition_list`. A numeric
/// comparison with something that is no number adds nothing. An operator that
/// is none gives `InvalidSelector`.
pub fn operator_to_condition(
    operator: &str,
    target: &str,
    expected: &str,
    condition_list: &mut Vec<SelectorCondition>,
) -> (added: Result<(), MapCssParseError>)
    ensures
        ({
            let before = old(condition_list)@;
            let after = final(condition_list)@;
            match comparison_condition(operator@, target@, expected@) {
                Comparison::Invalid => added matches Err(error) && error is InvalidSelector
                    && after == before,
                Comparison::Nothing => added is Ok && after == before,
                Comparison::Condition(condition) => added is Ok && after.len() == before.len() + 1
                    && after.drop_last() == before && after.last()@ == condition,
            }
        }),
{
    let symbol = chars_of(operator);
    let condition = if spells(&symbol, "=") {
        SelectorCondition::HasExactTagValue(target.to_owned(), expected.to_owned())
    } else if spells(&symbol, "!=") {
        SelectorCondition::HasNotTagValue(target.to_owned(), expected.to_owned())
    } else if spells(&symbol, ">") {
        match read_isize(expected) {
            Some(number) => SelectorCondition::ValueGreaterThan(target.to_owned(), number),
            None => {
                return Ok(());
            },
        }
    } else if spells(&symbol, ">=") {
        match read_isize(expected) {
            Some(number) => SelectorCondition::ValueGreaterThanEqual(target.to_owned(), number),
            None => {
                return Ok(());
            },
        }
    } else if spells(&symbol, "<") {
        match read_isize(expected) {
            Some(number) => SelectorCondition::ValueLessThan(target.to_owned(), number),
            None => {
                return Ok(());
            },
        }
    } else if spells(&symbol, "<=") {
        match read_isize(expected) {
            Some(number) => SelectorCondition::ValueLessThanEqual(target.to_owned(), number),
            None => {
                return Ok(());
            },
        }
    } else {
        return Err(MapCssParseError::InvalidSelector);
    };
    condition_list.push(condition);
    assert(final(condition_list)@.drop_last() =~= old(condition_list)@);
    Ok(())
}

/// The form of value that a property takes.
#[derive(Debug, Clone, Copy, PartialEq, Eq, Structural)]
pub enum ValueKind {
    Text,
    Boolean,
    Color,
    Integer,
    Float,
    Dashes,
    TextPosition,
    Linecap,
    Linejoin,
    UrlOrText,
}

/// The property that a stylesheet names so, in small letters, and the form of
/// value it takes.
pub open spec fn property_named(name: Seq<char>) -> Option<(MapCssDeclarationProperty, ValueKind)> {
    if name == "title"@ {
        Some((MapCssDeclarationProperty::Title, ValueKind::Text))
    } else if name == "version"@ {
        Some((MapCssDeclarationProperty::Version, ValueKind::Text))
    } else if name == "description"@ {
        Some((MapCssDeclarationProperty::Description, ValueKind::Text))
    } else if name == "acknowledgement"@ {
        Some((MapCssDeclarationProperty::Acknowledgement, ValueKind::Text))
    } else if name == "allow_overlap"@ {
        Some((MapCssDeclarationProperty::AllowOverlap, ValueKind::Boolean))
    } else if name == "dashes"@ {
        Some((MapCssDeclarationProperty::Dashes, ValueKind::Dashes))
    } else if name == "default-lines"@ {
        Some((MapCssDeclarationProperty::DefaultLines, ValueKind::Boolean))
    } else if name == "default-points"@ {
        Some((MapCssDeclarationProperty::DefaultPoints, ValueKind::Boolean))
    } else if name == "text"@ {
        Some((MapCssDeclarationProperty::Text, ValueKind::Text))
    } else if name == "text-color"@ {
        Some((MapCssDeclarationProperty::TextColor, ValueKind::Color))
    } else if name == "text-position"@ {
        Some((MapCssDeclarationProperty::TextPosition, ValueKind::TextPosition))
    } else if name == "text-spacing"@ {
        Some((MapCssDeclarationProperty::TextSpacing, ValueKind::Integer))
    } else if name == "text-halo-color"@ {
        Some((MapCssDeclarationProperty::TextHaloColor, ValueKind::Color))
    } else if name == "text-halo-radius"@ {
        Some((MapCssDeclarationProperty::TextHaloRadius, ValueKind::Integer))
    } else if name == "text-wrap-width"@ {
        Some((MapCssDeclarationProperty::TextWrapWidth, ValueKind::Integer))
    } else if name == "background-color"@ {
        Some((MapCssDeclarationProperty::BackgroundColor, ValueKind::Color))
    } else if name == "color"@ {
        Some((MapCssDeclarationProperty::Color, ValueKind::Color))
    } else if name == "fill-color"@ {
        Some((MapCssDeclarationProperty::FillColor, ValueKind::Color))
    } else if name == "font-size"@ {
        Some((MapCssDeclarationProperty::FontSize, ValueKind::Integer))
    } else if name == "font-color"@ {
        Some((MapCssDeclarationProperty::FontColor, ValueKind::Color))
    } else if name == "font-family"@ {
        Some((MapCssDeclarationProperty::FontFamily, ValueKind::Text))
    } else if name == "linecap"@ {
        Some((MapCssDeclarationProperty::Linecap, ValueKind::Linecap))
    } else if name == "linejoin"@ {
        Some((MapCssDeclarationProperty::Linejoin, ValueKind::Linejoin))
    } else if name == "fill-opacity"@ {
        Some((MapCssDeclarationProperty::FillOpacity, ValueKind::Float))
    } else if name == "fill-image"@ {
        Some((MapCssDeclarationProperty::FillImage, ValueKind::UrlOrText))
    } else if name == "icon-image"@ {
        Some((MapCssDeclarationProperty::IconImage, ValueKind::UrlOrText))
    } else if name == "pattern-image"@ {
        Some((MapCssDeclarationProperty::PatternImage, ValueKind::UrlOrText))
    } else if name == "opacity"@ {
        Some((MapCssDeclarationProperty::Opacity, ValueKind::Float))
    } else if name == "width"@ {
        Some((MapCssDeclarationProperty::Width, ValueKind::Float))
    } else if name == "z-index"@ {
        Some((MapCssDeclarationProperty::ZIndex, ValueKind::Float))
    } else {
        None
    }
}

fn lookup_property(name: &Vec<char>) -> (property: Option<(MapCssDeclarationProperty, ValueKind)>)
    ensures
        property == property_named(name@),
{
    if spells(name, "title") {
        Some((MapCssDeclarationProperty::Title, ValueKind::Text))
    } else if spells(name, "version") {
        Some((MapCssDeclarationProperty::Version, ValueKind::Text))
    } else if spells(name, "description") {
        Some((MapCssDeclarationProperty::Description, ValueKind::Text))
    } else if spells(name, "acknowledgement") {
        Some((MapCssDeclarationProperty::Acknowledgement, ValueKind::Text))
    } else if spells(name, "allow_overlap") {
        Some((MapCssDeclarationProperty::AllowOverlap, ValueKind::Boolean))
    } else if spells(name, "dashes") {
        Some((MapCssDeclarationProperty::Dashes, ValueKind::Dashes))
    } else if spells(name, "default-lines") {
        Some((MapCssDeclarationProperty::DefaultLines, ValueKind::Boolean))
    } else if spells(name, "default-points") {
        Some((MapCssDeclarationProperty::DefaultPoints, ValueKind::Boolean))
    } else if spells(name, "text") {
        Some((MapCssDeclarationProperty::Text, ValueKind::Text))
    } else if spells(name, "text-color") {
        Some((MapCssDeclarationProperty::TextColor, ValueKind::Color))
    } else if spells(name, "text-position") {
        Some((MapCssDeclarationProperty::TextPosition, ValueKind::TextPosition))
    } else if spells(name, "text-spacing") {
        Some((MapCssDeclarationProperty::TextSpacing, ValueKind::Integer))
    } else if spells(name, "text-halo-color") {
        Some((MapCssDeclarationProperty::TextHaloColor, ValueKind::Color))
    } else if spells(name, "text-halo-radius") {
        Some((MapCssDeclarationProperty::TextHaloRadius, ValueKind::Integer))
    } else if spells(name, "text-wrap-width") {
        Some((MapCssDeclarationProperty::TextWrapWidth, ValueKind::Integer))
    } else if spells(name, "background-color") {
        Some((MapCssDeclarationProperty::BackgroundColor, ValueKind::Color))
    } else if spells(name, "color") {
        Some((MapCssDeclarationProperty::Color, ValueKind::Color))
    } else if spells(name, "fill-color") {
        Some((MapCssDeclarationProperty::FillColor, ValueKind::Color))
    } else if spells(name, "font-size") {
        Some((MapCssDeclarationProperty::FontSize, ValueKind::Integer))
    } else if spells(name, "font-color") {
        Some((MapCssDeclarationProperty::FontColor, ValueKind::Color))
    } else if spells(name, "font-family") {
        Some((MapCssDeclarationProperty::FontFamily, ValueKind::Text))
    } else if spells(name, "linecap") {
        Some((MapCssDeclarationProperty::Linecap, ValueKind::Linecap))
    } else if spells(name, "linejoin") {
        Some((MapCssDeclarationProperty::Linejoin, ValueKind::Linejoin))
    } else if spells(name, "fill-opacity") {
        Some((MapCssDeclarationProperty::FillOpacity, ValueKind::Float))
    } else if spells(name, "fill-image") {
        Some((MapCssDeclarationProperty::FillImage, ValueKind::UrlOrText))
    } else if spells(name, "icon-image") {
        Some((MapCssDeclarationProperty::IconImage, ValueKind::UrlOrText))
    } else if spells(name, "pattern-image") {
        Some((MapCssDeclarationProperty::PatternImage, ValueKind::UrlOrText))
    } else if spells(name, "opacity") {
        Some((MapCssDeclarationProperty::Opacity, ValueKind::Float))
    } else if spells(name, "width") {
        Some((MapCssDeclarationProperty::Width, ValueKind::Float))
    } else if spells(name, "z-index") {
        Some((MapCssDeclarationProperty::ZIndex, ValueKind::Float))
    } else {
        None
    }
}

/// The integer that a text denotes, if it fits `IntSize`.
pub open spec fn decimal_i32(text: Seq<char>) -> Option<IntSize> {
    match decimal_i64(text) {
        Some(value) => if IntSize::MIN <= value <= IntSize::MAX {
            Some(value as IntSize)
        } else {
            None
        },
        None => None,
    }
}

/// The value of digit `i` of a fraction; zero where the fraction is shorter.
pub open spec fn fraction_digit(fraction: Seq<char>, i: int) -> int {
    if i < fraction.len() {
        digit_value(fraction[i])
    } else {
        0
    }
}

/// The decimal number that a text denotes, in thousandths: an optional sign,
/// digits, and optionally a point and more digits, with one digit at least.
/// Digits after the third behind the point are cut off. `None` for other
/// text and for a number beyond the 64-bit range.
pub open spec fn decimal_number(text: Seq<char>) -> Option<FloatSize> {
    let signed = text.len() > 0 && (text[0] == '-' || text[0] == '+');
    let body = if signed {
        text.skip(1)
    } else {
        text
    };
    let point = first_index_of(body, '.');
    let whole = body.take(point);
    let fraction = if point < body.len() {
        body.skip(point + 1)
    } else {
        Seq::empty()
    };
    let magnitude = digits_value(whole) * 1000 + fraction_digit(fraction, 0) * 100 + fraction_digit(
        fraction,
        1,
    ) * 10 + fraction_digit(fraction, 2);
    if all_digits(whole) && all_digits(fraction) && whole.len() + fraction.len() > 0 && magnitude
        <= i64::MAX {
        Some(
            FloatSize {
                thousandths: (if signed && text[0] == '-' {
                    -magnitude
                } else {
                    magnitude
                }) as i64,
            },
        )
    } else {
        None
    }
}

/// The integers of a list from index `from` of the text on: decimal integers
/// with a comma between one and the next, and nothing else.
pub open spec fn dash_list(text: Seq<char>, from: int) -> Option<Seq<IntSize>>
    decreases text.len() - from,
{
    let end = from + first_index_of(text.skip(from), ',');
    if 0 <= from <= end <= text.len() {
        match decimal_i32(text.subrange(from, end)) {
            None => None,
            Some(value) => if end == text.len() {
                Some(seq![value])
            } else {
                match dash_list(text, end + 1) {
                    Some(rest) => Some(seq![value] + rest),
                    None => None,
                }
            },
        }
    } else {
        None
    }
}

/// The text of a value without its quotes, if it is a quoted string; else
/// the text as it is.
pub open spec fn unquoted(rule: Rule, text: Seq<char>) -> Option<Seq<char>> {
    if rule == Rule::DoubleQuotedString || rule == Rule::SingleQuotedString {
        stripped(text)
    } else {
        Some(text)
    }
}

/// The value that a declaration gives to a property taking values of `kind`:
/// `rule` is the kind of the value's node, `text` the text it spans and
/// `inner_text` the text its children span. `None` where the text is no
/// value of that kind.
pub open spec fn declared_value(
    kind: ValueKind,
    rule: Rule,
    text: Seq<char>,
    inner_text: Seq<char>,
) -> Option<MapCssDeclarationValueView> {
    match kind {
        ValueKind::Text => match unquoted(rule, text) {
            Some(string) => Some(MapCssDeclarationValueView::String(string)),
            None => None,
        },
        ValueKind::Boolean => if text == "true"@ || text == "1"@ {
            Some(MapCssDeclarationValueView::Boolean(true))
        } else if text == "false"@ || text == "0"@ {
            Some(MapCssDeclarationValueView::Boolean(false))
        } else {
            None
        },
        ValueKind::Color => match parse_color(text) {
            Ok(color) => Some(MapCssDeclarationValueView::Color(color)),
            Err(_) => None,
        },
        ValueKind::Integer => match decimal_i32(text) {
            Some(integer) => Some(MapCssDeclarationValueView::Integer(integer)),
            None => None,
        },
        ValueKind::Float => if rule == Rule::Float || rule == Rule::Int {
            match decimal_number(text) {
                Some(float) => Some(MapCssDeclarationValueView::Float(float)),
                None => None,
            }
        } else {
            None
        },
        ValueKind::Dashes => match dash_list(text, 0) {
            Some(integers) => Some(MapCssDeclarationValueView::IntegerArray(integers)),
            None => None,
        },
        ValueKind::TextPosition => if text == "center"@ {
            Some(
                MapCssDeclarationValueView::TextPositionDeclarationVariant(
                    TextPositionDeclarationVariant::Center,
                ),
            )
        } else if text == "line"@ {
            Some(
                MapCssDeclarationValueView::TextPositionDeclarationVariant(
                    TextPositionDeclarationVariant::Line,
                ),
            )
        } else {
            None
        },
        ValueKind::Linecap => if text == "none"@ {
            Some(
                MapCssDeclarationValueView::LinecapDeclarationVariant(
                    LinecapDeclarationVariant::NoCap,
                ),
            )
        } else if text == "round"@ {
            Some(
                MapCssDeclarationValueView::LinecapDeclarationVariant(
                    LinecapDeclarationVariant::Round,
                ),
            )
        } else if text == "square"@ {
            Some(
                MapCssDeclarationValueView::LinecapDeclarationVariant(
                    LinecapDeclarationVariant::Square,
                ),
            )
        } else {
            None
        },
        ValueKind::Linejoin => if text == "round"@ {
            Some(
                MapCssDeclarationValueView::LinejoinDeclarationVariant(
                    LinejoinDeclarationVariant::Round,
                ),
            )
        } else if text == "miter"@ {
            Some(
                MapCssDeclarationValueView::LinejoinDeclarationVariant(
                    LinejoinDeclarationVariant::Miter,
                ),
            )
        } else if text == "bevel"@ {
            Some(
                MapCssDeclarationValueView::LinejoinDeclarationVariant(
                    LinejoinDeclarationVariant::Bevel,
                ),
            )
        } else {
            None
        },
        ValueKind::UrlOrText => match (if rule == Rule::Url {
            stripped(inner_text)
        } else {
            unquoted(rule, text)
        }) {
            Some(string) => Some(MapCssDeclarationValueView::String(string)),
            None => None,
        },
    }
}

fn read_i32(chars: &Vec<char>) -> (number: Option<IntSize>)
    ensures
        number == decimal_i32(chars@),
{
    match parse_integer(chars) {
        Some(value) => if -2_147_483_648 <= value && value <= 2_147_483_647 {
            Some(value as IntSize)
        } else {
            None
        },
        None => None,
    }
}

fn read_fraction_digit(
    chars: &Vec<char>,
    first: usize,
    i: usize,
    Ghost(fraction): Ghost<Seq<char>>,
) -> (digit: u64)
    requires
        first <= chars.len(),
        i < 3,
        fraction == chars@.subrange(first as int, chars@.len() as int),
        all_digits(fraction),
    ensures
        digit == fraction_digit(fraction, i as int),
        digit <= 9,
{
    if i < chars.len() - first {
        let c = chars[first + i];
        assert(fraction[i as int] == c);
        (c as u8 - '0' as u8) as u64
    } else {
        0
    }
}

/// Reads a decimal number.
pub fn read_decimal(chars: &Vec<char>) -> (number: Option<FloatSize>)
    ensures
        number == decimal_number(chars@),
{
    let length = chars.len();
    let signed = length > 0 && (chars[0] == '-' || chars[0] == '+');
    let start: usize = if signed {
        1
    } else {
        0
    };
    let ghost body = chars@.skip(start as int);
    let point = find_char(chars, start, '.');
    let ghost whole = body.take(point - start);
    let fraction_start: usize = if point < length {
        point + 1
    } else {
        length
    };
    let ghost fraction = chars@.subrange(fraction_start as int, length as int);
    proof {
        assert(start == 0 ==> body =~= chars@);
        assert(whole =~= chars@.subrange(start as int, point as int));
        if point < length {
            assert(body.skip(point - start + 1) =~= fraction);
        } else {
            assert(fraction =~= Seq::<char>::empty());
        }
    }
    if !only_digits(chars, fraction_start, length) {
        return None;
    }
    if (point - start) + (length - fraction_start) == 0 {
        return None;
    }
    let whole_value = match parse_digits(chars, start, point) {
        Some(value) => value,
        None => {
            return None;
        },
    };
    if whole_value > 9_223_372_036_854_775 {
        return None;
    }
    let first = read_fraction_digit(chars, fraction_start, 0, Ghost(fraction));
    let second = read_fraction_digit(chars, fraction_start, 1, Ghost(fraction));
    let third = read_fraction_digit(chars, fraction_start, 2, Ghost(fraction));
    let magnitude: u64 = whole_value * 1000 + first * 100 + second * 10 + third;
    if magnitude > 0x7fff_ffff_ffff_ffff {
        return None;
    }
    if signed && chars[0] == '-' {
        Some(FloatSize { thousandths: -(magnitude as i64) })
    } else {
        Some(FloatSize { thousandths: magnitude as i64 })
    }
}

/// Reads a list of integers with commas between them.
pub fn read_dashes(chars: &Vec<char>) -> (integers: Option<Vec<IntSize>>)
    ensures
        match integers {
            Some(integers) => dash_list(chars@, 0) == Some(integers@),
            None => dash_list(chars@, 0) is None,
        },
{
    let mut integers: Vec<IntSize> = Vec::new();
    let mut from: usize = 0;
    loop
        invariant
            from <= chars.len(),
            dash_list(chars@, 0) == (match dash_list(chars@, from as int) {
                Some(rest) => Some(integers@ + rest),
                None => None,
            }),
        decreases chars.len() - from,
    {
        let end = find_char(chars, from, ',');
        let part = slice_chars(chars, from, end);
        let ghost before = integers@;
        match read_i32(&part) {
            Some(value) => {
                integers.push(value);
                if end == chars.len() {
                    assert(before + seq![value] =~= integers@);
                    return Some(integers);
                }
                proof {
                    match dash_list(chars@, end + 1) {
                        Some(rest) => {
                            assert(before + (seq![value] + rest) =~= integers@ + rest);
                        },
                        None => {},
                    }
                }
                from = end + 1;
            },
            None => {
                return None;
            },
        }
    }
}

fn read_text(rule: Rule, text: &str) -> (string: Option<String>)
    ensures
        match string {
            Some(string) => unquoted(rule, text@) == Some(string@),
            None => unquoted(rule, text@) is None,
        },
{
    // remove quotations
    if rule == Rule::DoubleQuotedString || rule == Rule::SingleQuotedString {
        strip_ends(text)
    } else {
        Some(text.to_owned())
    }
}

/// Reads the value of a declaration for a property that takes values of
/// `kind`.
pub fn read_value(kind: ValueKind, rule: Rule, text: &str, inner_text: &str) -> (value: Option<
    MapCssDeclarationValueType,
>)
    ensures
        match value {
            Some(value) => declared_value(kind, rule, text@, inner_text@) == Some(value@),
            None => declared_value(kind, rule, text@, inner_text@) is None,
        },
{
    match kind {
        ValueKind::Text => match read_text(rule, text) {
            Some(string) => Some(MapCssDeclarationValueType::String(string)),
            None => None,
        },
        ValueKind::Boolean => {
            let chars = chars_of(text);
            if spells(&chars, "true") || spells(&chars, "1") {
                Some(MapCssDeclarationValueType::Boolean(true))
            } else if spells(&chars, "false") || spells(&chars, "0") {
                Some(MapCssDeclarationValueType::Boolean(false))
            } else {
                None
            }
        },
        ValueKind::Color => match RGBA::parse(text) {
            Ok(color) => Some(MapCssDeclarationValueType::Color(color)),
            Err(_) => None,
        },
        ValueKind::Integer => match read_i32(&chars_of(text)) {
            Some(integer) => Some(MapCssDeclarationValueType::Integer(integer)),
            None => None,
        },
        ValueKind::Float => if rule == Rule::Float || rule == Rule::Int {
            match read_decimal(&chars_of(text)) {
                Some(float) => Some(MapCssDeclarationValueType::Float(float)),
                None => None,
            }
        } else {
            None
        },
        ValueKind::Dashes => match read_dashes(&chars_of(text)) {
            Some(integers) => Some(MapCssDeclarationValueType::IntegerArray(integers)),
            None => None,
        },
        ValueKind::TextPosition => {
            let chars = chars_of(text);
            if spells(&chars, "center") {
                Some(
                    MapCssDeclarationValueType::TextPositionDeclarationVariant(
                        TextPositionDeclarationVariant::Center,
                    ),
                )
            } else if spells(&chars, "line") {
                Some(
                    MapCssDeclarationValueType::TextPositionDeclarationVariant(
                        TextPositionDeclarationVariant::Line,
                    ),
                )
            } else {
                None
            }
        },
        ValueKind::Linecap => {
            let chars = chars_of(text);
            if spells(&chars, "none") {
                Some(
                    MapCssDeclarationValueType::LinecapDeclarationVariant(
                        LinecapDeclarationVariant::NoCap,
                    ),
                )
            } else if spells(&chars, "round") {
                Some(
                    MapCssDeclarationValueType::LinecapDeclarationVariant(
                        LinecapDeclarationVariant::Round,
                    ),
                )
            } else if spells(&chars, "square") {
                Some(
                    MapCssDeclarationValueType::LinecapDeclarationVariant(
                        LinecapDeclarationVariant::Square,
                    ),
                )
            } else {
                None
            }
        },
        ValueKind::Linejoin => {
            let chars = chars_of(text);
            if spells(&chars, "round") {
                Some(
                    MapCssDeclarationValueType::LinejoinDeclarationVariant(
                        LinejoinDeclarationVariant::Round,
                    ),
                )
            } else if spells(&chars, "miter") {
                Some(
                    MapCssDeclarationValueType::LinejoinDeclarationVariant(
                        LinejoinDeclarationVariant::Miter,
                    ),
                )
            } else if spells(&chars, "bevel") {
                Some(
                    MapCssDeclarationValueType::LinejoinDeclarationVariant(
                        LinejoinDeclarationVariant::Bevel,
                    ),
                )
            } else {
                None
            }
        },
        ValueKind::UrlOrText => {
            let string = if rule == Rule::Url {
                strip_ends(inner_text)
            } else {
                read_text(rule, text)
            };
            match string {
                Some(string) => Some(MapCssDeclarationValueType::String(string)),
                None => None,
            }
        },
    }
}

/// What a declaration node comes to.
pub ghost enum DeclarationReading {
    /// The node is no declaration of a name and a value; holds its text.
    Malformed(Seq<char>),
    /// The name is that of no property.
    Unknown(Seq<char>),
    /// The value is none that the property takes.
    Invalid(Seq<char>),
    Declared(MapCssDeclarationProperty, MapCssDeclarationValueView),
}

/// The declaration that a node of the syntax tree holds: its first child is
/// the name, its second the value. Names are read in any mix of cases.
pub open spec fn declaration_of(declaration: SyntaxNode) -> DeclarationReading {
    if declaration.rule != Rule::RuleDeclaration || declaration.children@.len() < 2 {
        DeclarationReading::Malformed(declaration.text@)
    } else {
        let name = declaration.children@[0].text@;
        let value = declaration.children@[1];
        match property_named(ascii_lower(name)) {
            None => DeclarationReading::Unknown(name),
            Some((property, kind)) => match declared_value(
                kind,
                value.rule,
                value.text@,
                value.inner_text@,
            ) {
                Some(value) => DeclarationReading::Declared(property, value),
                None => DeclarationReading::Invalid(name),
            },
        }
    }
}

/// Whether `error` is the error for a declaration that reads as `reading`: the
/// unknown name, or the name of the declaration whose value is invalid, or
/// the text of the node that is no declaration.
pub open spec fn reports(error: MapCssError, reading: DeclarationReading) -> bool {
    match reading {
        DeclarationReading::Malformed(text) => error matches MapCssError::InvalidDeclarationValue(
            name,
        ) && name@ == text,
        DeclarationReading::Unknown(unknown) => error matches MapCssError::UnknownDeclarationName(
            name,
        ) && name@ == unknown,
        DeclarationReading::Invalid(invalid) => error matches MapCssError::InvalidDeclarationValue(
            name,
        ) && name@ == invalid,
        DeclarationReading::Declared(_, _) => false,
    }
}

/// Whether the errors are those of the readings, one for one.
pub open spec fn report_all(errors: Seq<MapCssError>, readings: Seq<DeclarationReading>) -> bool {
    &&& errors.len() == readings.len()
    &&& forall|i: int| 0 <= i < errors.len() ==> reports(#[trigger] errors[i], readings[i])
}

/// Reads a declaration from its node.
pub fn handle_declaration(declaration: &SyntaxNode) -> (read: Result<MapCssDeclaration, MapCssError>)
    ensures
        match read {
            Ok(declared) => declaration_of(*declaration) == DeclarationReading::Declared(
                declared.0,
                declared.1@,
            ),
            Err(error) => reports(error, declaration_of(*declaration)),
        },
{
    if declaration.rule != Rule::RuleDeclaration || declaration.children.len() < 2 {
        return Err(MapCssError::InvalidDeclarationValue(declaration.text.clone()));
    }
    let declaration_name = &declaration.children[0].text;
    let inner = &declaration.children[1];
    let lower = lowered(&chars_of(declaration_name.as_str()));
    match lookup_property(&lower) {
        Some((property, kind)) => match read_value(
            kind,
            inner.rule,
            inner.text.as_str(),
            inner.inner_text.as_str(),
        ) {
            Some(value) => Ok((property, value)),
            None => Err(MapCssError::InvalidDeclarationValue(declaration_name.clone())),
        },
        None => Err(MapCssError::UnknownDeclarationName(declaration_name.clone())),
    }
}

/// The zoom level that a text denotes: digits only, and no more than 255.
pub open spec fn decimal_u8(text: Seq<char>) -> Option<u8> {
    if text.len() > 0 && all_digits(text) && digits_value(text) <= 255 {
        Some(digits_value(text) as u8)
    } else {
        None
    }
}

/// The condition of a zoom level test: `text` is the test with its two
/// leading characters, as in `|z8`, `|z10-12` and `|z14-`.
pub open spec fn zoom_condition(rule: Rule, text: Seq<char>) -> Option<SelectorConditionView> {
    let minus = last_index_of(text, '-');
    match rule {
        Rule::SelectorTestZoomLevelExact => if text.len() >= 2 {
            match decimal_u8(text.subrange(2, text.len() as int)) {
                Some(level) => Some(SelectorConditionView::ExactZoomLevel(level)),
                None => None,
            }
        } else {
            None
        },
        Rule::SelectorTestZoomLevelClosedRange => if minus >= 2 {
            match (
                decimal_u8(text.subrange(2, minus)),
                decimal_u8(text.subrange(minus + 1, text.len() as int)),
            ) {
                (Some(min), Some(max)) => Some(SelectorConditionView::RangeZoomLevel(min, max)),
                _ => None,
            }
        } else {
            None
        },
        Rule::SelectorTestZoomLevelOpenRightRange => if minus >= 2 {
            match decimal_u8(text.subrange(2, minus)) {
                Some(level) => Some(SelectorConditionView::MinZoomLevel(level)),
                None => None,
            }
        } else {
            None
        },
        _ => None,
    }
}

/// The conditions that a node of selector tests adds: a tag alone asks for the
/// tag, a tag with a comparison for what the comparison says, a zoom level test
/// for the zoom level.
pub open spec fn test_conditions(tests: SyntaxNode) -> Option<Seq<SelectorConditionView>> {
    let children = tests.children@;
    if children.len() == 0 {
        Some(Seq::empty())
    } else if children[0].rule == Rule::TagValue {
        if children.len() == 1 {
            Some(seq![SelectorConditionView::HasTag(children[0].text@)])
        } else if children[1].rule == Rule::Comparison && children.len() >= 3 {
            match comparison_condition(children[1].text@, children[0].text@, children[2].text@) {
                Comparison::Invalid => None,
                Comparison::Nothing => Some(Seq::empty()),
                Comparison::Condition(condition) => Some(seq![condition]),
            }
        } else {
            None
        }
    } else if children[0].rule == Rule::SelectorTestZoomLevel && children[0].children@.len() > 0 {
        match zoom_condition(children[0].children@[0].rule, children[0].children@[0].text@) {
            Some(condition) => Some(seq![condition]),
            None => None,
        }
    } else {
        None
    }
}

/// The conditions that a node of pseudo classes adds.
pub open spec fn pseudo_class_conditions(classes: SyntaxNode) -> Option<Seq<SelectorConditionView>>
    decreases classes, 0nat,
{
    let children = classes.children@;
    if children.len() == 0 {
        None
    } else {
        let pseudo_class = children[0];
        match pseudo_class.rule {
            Rule::ClosedPseudoClass => Some(seq![SelectorConditionView::ClosedPath]),
            Rule::GenericPseudoClass => if pseudo_class.children@.len() == 0 {
                None
            } else {
                let inner = pseudo_class.children@[0];
                // the `*` subclass makes no difference
                if inner.rule == Rule::Selector && inner.text@ == "*"@ {
                    Some(Seq::empty())
                } else {
                    Some(seq![SelectorConditionView::GenericPseudoClass(inner.text@)])
                }
            },
            Rule::NotPseudoClass => match selector_of(pseudo_class) {
                Some(selector) => Some(seq![SelectorConditionView::Not(Box::new(selector))]),
                None => None,
            },
            _ => None,
        }
    }
}

/// The conditions that one node after the main selector adds.
pub open spec fn node_conditions(node: SyntaxNode) -> Option<Seq<SelectorConditionView>>
    decreases node, 1nat,
{
    match node.rule {
        Rule::RuleDescendant => Some(Seq::empty()),
        Rule::SelectorTests => test_conditions(node),
        Rule::SelectorPseudoClasses => pseudo_class_conditions(node),
        _ => None,
    }
}

/// The conditions that the nodes from index `from` on add, in order.
pub open spec fn conditions_from(nodes: Seq<SyntaxNode>, from: int) -> Option<
    Seq<SelectorConditionView>,
>
    decreases nodes, nodes.len() - from,
{
    if 0 <= from < nodes.len() {
        match (node_conditions(nodes[from]), conditions_from(nodes, from + 1)) {
            (Some(first), Some(rest)) => Some(first + rest),
            _ => None,
        }
    } else {
        Some(Seq::empty())
    }
}

/// A list of conditions as one condition.
pub open spec fn collapsed(conditions: Seq<SelectorConditionView>) -> SelectorConditionView {
    if conditions.len() == 0 {
        SelectorConditionView::No
    } else if conditions.len() == 1 {
        conditions[0]
    } else {
        SelectorConditionView::List(conditions)
    }
}

/// `conditions` with a descendant condition merged in for each descendant node
/// among the nodes from index `from` on.
pub open spec fn descendants_added(
    conditions: SelectorConditionView,
    nodes: Seq<SyntaxNode>,
    from: int,
) -> Option<SelectorConditionView>
    decreases nodes, nodes.len() - from,
{
    if 0 <= from < nodes.len() {
        if nodes[from].rule == Rule::RuleDescendant {
            if nodes[from].children@.len() == 0 {
                None
            } else {
                match selector_of(nodes[from].children@[0]) {
                    Some(descendant) => descendants_added(
                        merged_conditions(
                            conditions,
                            SelectorConditionView::HasDescendant(Box::new(descendant)),
                        ),
                        nodes,
                        from + 1,
                    ),
                    None => None,
                }
            }
        } else {
            descendants_added(conditions, nodes, from + 1)
        }
    } else {
        Some(conditions)
    }
}

/// The selector that a node holds: its first child names the selector type,
/// the children after it give the conditions. `None` for a node of another
/// shape.
pub open spec fn selector_of(node: SyntaxNode) -> Option<SelectorView>
    decreases node, 2nat,
{
    let children = node.children@;
    if children.len() == 0 || children[0].rule != Rule::Selector {
        None
    } else {
        match (selector_type_named(children[0].text@), conditions_from(children, 1)) {
            (Some(selector_type), Some(conditions)) => match descendants_added(
                collapsed(conditions),
                children,
                1,
            ) {
                Some(conditions) => Some(SelectorView { selector_type, conditions }),
                None => None,
            },
            _ => None,
        }
    }
}

fn read_u8(chars: &Vec<char>, from: usize, to: usize) -> (level: Option<u8>)
    requires
        from <= to <= chars.len(),
    ensures
        level == decimal_u8(chars@.subrange(from as int, to as int)),
{
    if from == to {
        return None;
    }
    match parse_digits(chars, from, to) {
        Some(value) => if value <= 255 {
            Some(value as u8)
        } else {
            None
        },
        None => None,
    }
}

/// Reads the condition of a zoom level test.
pub fn read_zoom_condition(rule: Rule, text: &str) -> (condition: Option<SelectorCondition>)
    ensures
        match condition {
            Some(condition) => zoom_condition(rule, text@) == Some(condition@),
            None => zoom_condition(rule, text@) is None,
        },
{
    let span = chars_of(text);
    let length = span.len();
    match rule {
        Rule::SelectorTestZoomLevelExact => {
            // "|z8"
            if length < 2 {
                return None;
            }
            match read_u8(&span, 2, length) {
                Some(level) => Some(SelectorCondition::ExactZoomLevel(level)),
                None => None,
            }
        },
        Rule::SelectorTestZoomLevelClosedRange => {
            // "|z10-12"
            match find_last_char(&span, '-') {
                Some(minus) => {
                    if minus < 2 {
                        return None;
                    }
                    let min_level = read_u8(&span, 2, minus);
                    // skip the minus itself
                    let max_level = read_u8(&span, minus + 1, length);
                    match (min_level, max_level) {
                        (Some(min), Some(max)) => Some(SelectorCondition::RangeZoomLevel(min, max)),
                        _ => None,
                    }
                },
                None => None,
            }
        },
        Rule::SelectorTestZoomLevelOpenRightRange => {
            // "|z14-" or "|z4-"
            match find_last_char(&span, '-') {
                Some(minus) => {
                    if minus < 2 {
                        return None;
                    }
                    match read_u8(&span, 2, minus) {
                        Some(level) => Some(SelectorCondition::MinZoomLevel(level)),
                        None => None,
                    }
                },
                None => None,
            }
        },
        _ => None,
    }
}

/// Adds the conditions of a node of selector tests to `conditions`.
fn add_test_conditions(tests: &SyntaxNode, conditions: &mut Vec<SelectorCondition>) -> (added: bool)
    ensures
        match test_conditions(*tests) {
            Some(more) => added && condition_views(final(conditions)@) == condition_views(
                old(conditions)@,
            ) + more,
            None => !added,
        },
{
    let ghost before = conditions@;
    proof {
        lemma_condition_views(before);
        assert(condition_views(before) + Seq::<SelectorConditionView>::empty() =~= condition_views(
            before,
        ));
    }
    let children = &tests.children;
    if children.len() == 0 {
        return true;
    }
    let first = &children[0];
    if first.rule == Rule::TagValue {
        if children.len() == 1 {
            conditions.push(SelectorCondition::HasTag(first.text.clone()));
            proof {
                lemma_pushed_view(before, conditions@);
            }
            true
        } else if children[1].rule == Rule::Comparison && children.len() >= 3 {
            match operator_to_condition(
                children[1].text.as_str(),
                first.text.as_str(),
                children[2].text.as_str(),
                conditions,
            ) {
                Ok(()) => {
                    proof {
                        if conditions@.len() > before.len() {
                            lemma_pushed_view(before, conditions@);
                        }
                    }
                    true
                },
                Err(_) => false,
            }
        } else {
            false
        }
    } else if first.rule == Rule::SelectorTestZoomLevel && first.children.len() > 0 {
        let selector_test = &first.children[0];
        match read_zoom_condition(selector_test.rule, selector_test.text.as_str()) {
            Some(condition) => {
                conditions.push(condition);
                proof {
                    lemma_pushed_view(before, conditions@);
                }
                true
            },
            None => false,
        }
    } else {
        false
    }
}

/// The values of a list with one more condition are the values of the list
/// with the value of that condition.
proof fn lemma_pushed_view(before: Seq<SelectorCondition>, after: Seq<SelectorCondition>)
    requires
        after.len() == before.len() + 1,
        forall|i: int| 0 <= i < before.len() ==> after[i] == before[i],
    ensures
        condition_views(after) == condition_views(before) + seq![after.last()@],
{
    lemma_condition_views(before);
    lemma_condition_views(after);
    assert(condition_views(after) =~= condition_views(before) + seq![after.last()@]);
}

/// Adds the conditions of a node of pseudo classes to `conditions`.
fn add_pseudo_class_conditions(classes: &SyntaxNode, conditions: &mut Vec<SelectorCondition>) -> (added:
    bool)
    ensures
        match pseudo_class_conditions(*classes) {
            Some(more) => added && condition_views(final(conditions)@) == condition_views(
                old(conditions)@,
            ) + more,
            None => !added,
        },
    decreases classes, 0nat,
{
    let ghost before = conditions@;
    proof {
        assert(condition_views(before) + Seq::<SelectorConditionView>::empty() =~= condition_views(
            before,
        ));
    }
    if classes.children.len() == 0 {
        return false;
    }
    let pseudo_class = &classes.children[0];
    match pseudo_class.rule {
        Rule::ClosedPseudoClass => {
            conditions.push(SelectorCondition::ClosedPath);
            proof {
                lemma_pushed_view(before, conditions@);
            }
            true
        },
        Rule::GenericPseudoClass => {
            if pseudo_class.children.len() == 0 {
                return false;
            }
            let inner = &pseudo_class.children[0];
            // we can ignore the `*` subclass, as it does not make any difference
            if inner.rule == Rule::Selector && spells(&chars_of(inner.text.as_str()), "*") {
                true
            } else {
                conditions.push(SelectorCondition::GenericPseudoClass(inner.text.clone()));
                proof {
                    lemma_pushed_view(before, conditions@);
                }
                true
            }
        },
        Rule::NotPseudoClass => {
            assert(decreases_to!(classes.children => classes.children[0]));
            match handle_selector(pseudo_class) {
                Ok(selector) => {
                    conditions.push(SelectorCondition::Not(Rc::new(selector)));
                    proof {
                        lemma_pushed_view(before, conditions@);
                    }
                    true
                },
                Err(_) => false,
            }
        },
        _ => false,
    }
}

/// Collects the conditions that the nodes from index `from` on add to a
/// selector. A node of a shape that no condition has gives `InvalidSelector`.
pub fn selector_condition_from_rule_selectors(rules: &Vec<SyntaxNode>, from: usize) -> (condition:
    Result<SelectorCondition, MapCssParseError>)
    ensures
        match conditions_from(rules@, from as int) {
            Some(conditions) => condition matches Ok(condition) && condition@ == collapsed(
                conditions,
            ),
            None => condition matches Err(error) && error is InvalidSelector,
        },
    decreases rules, rules.len() - from,
{
    let mut selector_conditions: Vec<SelectorCondition> = Vec::new();
    let mut i: usize = from;
    proof {
        lemma_condition_views(selector_conditions@);
    }
    while i < rules.len()
        invariant
            from <= i,
            conditions_from(rules@, from as int) == (match conditions_from(rules@, i as int) {
                Some(rest) => Some(condition_views(selector_conditions@) + rest),
                None => None,
            }),
        decreases rules.len() - i,
    {
        let rule = &rules[i];
        let ghost before = condition_views(selector_conditions@);
        let added = match rule.rule {
            Rule::RuleDescendant => {
                proof {
                    assert(before + Seq::<SelectorConditionView>::empty() =~= before);
                }
                true
            },
            Rule::SelectorTests => add_test_conditions(rule, &mut selector_conditions),
            Rule::SelectorPseudoClasses => {
                assert(decreases_to!(rules => rules[i as int]));
                add_pseudo_class_conditions(rule, &mut selector_conditions)
            },
            _ => false,
        };
        if !added {
            return Err(MapCssParseError::InvalidSelector);
        }
        proof {
            match (node_conditions(rules@[i as int]), conditions_from(rules@, i + 1)) {
                (Some(first), Some(rest)) => {
                    assert(before + (first + rest) =~= (before + first) + rest);
                },
                _ => {},
            }
        }
        i = i + 1;
    }
    proof {
        lemma_condition_views(selector_conditions@);
        assert(condition_views(selector_conditions@) + Seq::<SelectorConditionView>::empty()
            =~= condition_views(selector_conditions@));
    }
    if selector_conditions.len() == 0 {
        Ok(SelectorCondition::No)
    } else if selector_conditions.len() == 1 {
        match selector_conditions.pop() {
            Some(condition) => Ok(condition),
            None => Ok(SelectorCondition::No),
        }
    } else {
        Ok(SelectorCondition::List(selector_conditions))
    }
}

/// Reads the selector that a node holds. A node of another shape gives
/// `InvalidSelector`.
pub fn handle_selector(selectors: &SyntaxNode) -> (selector: Result<Selector, MapCssParseError>)
    ensures
        match selector_of(*selectors) {
            Some(view) => selector matches Ok(selector) && selector@ == view,
            None => selector matches Err(error) && error is InvalidSelector,
        },
    decreases selectors, 2nat,
{
    let children = &selectors.children;
    if children.len() == 0 || children[0].rule != Rule::Selector {
        return Err(MapCssParseError::InvalidSelector);
    }
    let conditions = match selector_condition_from_rule_selectors(children, 1) {
        Ok(conditions) => conditions,
        Err(error) => {
            return Err(error);
        },
    };
    let mut main_selector = match selector_span_to_type(children[0].text.as_str(), conditions) {
        Ok(selector) => selector,
        Err(error) => {
            return Err(error);
        },
    };
    let mut main_selector_conditions = main_selector.conditions().clone();
    let mut i: usize = 1;
    while i < children.len()
        invariant
            1 <= i,
            children == &selectors.children,
            selector_of(*selectors) == (match descendants_added(
                main_selector_conditions@,
                children@,
                i as int,
            ) {
                Some(conditions) => Some(
                    SelectorView { selector_type: main_selector@.selector_type, conditions },
                ),
                None => None,
            }),
        decreases children.len() - i,
    {
        if children[i].rule == Rule::RuleDescendant {
            if children[i].children.len() == 0 {
                return Err(MapCssParseError::InvalidSelector);
            }
            assert(decreases_to!(children => children[i as int]));
            assert(decreases_to!(children[i as int].children => children[i as int].children[0]));
            let descendant_selector = match handle_selector(&children[i].children[0]) {
                Ok(selector) => selector,
                Err(error) => {
                    return Err(error);
                },
            };
            main_selector_conditions =
            main_selector_conditions.add_condition(
                SelectorCondition::HasDescendant(Rc::new(descendant_selector)),
            );
        }
        i = i + 1;
    }
    main_selector.set_conditions(main_selector_conditions);
    Ok(main_selector)
}

/// The declarations that the children of a rule from index `from` on hold, in
/// order. A declaration that cannot be read is left out.
pub open spec fn rule_declarations(children: Seq<SyntaxNode>, from: int) -> Seq<
    MapCssDeclarationView,
>
    decreases children.len() - from,
{
    if 0 <= from < children.len() {
        (match declaration_of(children[from]) {
            DeclarationReading::Declared(property, value) => if children[from].rule
                == Rule::RuleDeclaration {
                seq![(property, value)]
            } else {
                Seq::empty()
            },
            _ => Seq::empty(),
        }) + rule_declarations(children, from + 1)
    } else {
        Seq::empty()
    }
}

/// What the declarations among the children of a rule from index `from` on
/// that cannot be read come to, in order.
pub open spec fn dropped_declarations(children: Seq<SyntaxNode>, from: int) -> Seq<
    DeclarationReading,
>
    decreases children.len() - from,
{
    if 0 <= from < children.len() {
        (if children[from].rule == Rule::RuleDeclaration && !(declaration_of(
            children[from],
        ) is Declared) {
            seq![declaration_of(children[from])]
        } else {
            Seq::empty()
        }) + dropped_declarations(children, from + 1)
    } else {
        Seq::empty()
    }
}

/// The selectors that the children of a rule from index `from` on hold, in
/// order. `None` where a selector cannot be read, and where a child is
/// neither selector nor declaration nor comment.
pub open spec fn rule_selectors(children: Seq<SyntaxNode>, from: int) -> Option<Seq<SelectorView>>
    decreases children.len() - from,
{
    if 0 <= from < children.len() {
        match rule_selectors(children, from + 1) {
            None => None,
            Some(rest) => match children[from].rule {
                Rule::RuleSelector => match selector_of(children[from]) {
                    Some(selector) => Some(seq![selector] + rest),
                    None => None,
                },
                Rule::RuleDeclaration | Rule::Comment => Some(rest),
                _ => None,
            },
        }
    } else {
        Some(Seq::empty())
    }
}

/// A stylesheet while it is put together: the groups of declarations, and the
/// declarations of its `meta` block where one was met.
pub ghost struct StylesheetModel {
    pub groups: Seq<DeclarationGroupView>,
    pub meta: Option<Seq<MapCssDeclarationView>>,
    /// The declarations that were dropped, as what they read as.
    pub dropped: Seq<DeclarationReading>,
}

/// The stylesheet after the declarations of a rule were registered under its
/// selectors from index `from` on. A `meta` selector without conditions makes
/// the declarations those of the meta block and ends the rule; one with
/// conditions is passed over.
pub open spec fn rule_applied(
    stylesheet: StylesheetModel,
    selectors: Seq<SelectorView>,
    declarations: Seq<MapCssDeclarationView>,
    from: int,
) -> StylesheetModel
    decreases selectors.len() - from,
{
    if 0 <= from < selectors.len() {
        let selector = selectors[from];
        if selector.selector_type == SelectorType::Meta {
            if selector.conditions is No {
                StylesheetModel { meta: Some(declarations), ..stylesheet }
            } else {
                rule_applied(stylesheet, selectors, declarations, from + 1)
            }
        } else {
            rule_applied(
                StylesheetModel {
                    groups: registered(
                        stylesheet.groups,
                        selector.selector_type,
                        selector.conditions,
                        declarations,
                    ),
                    ..stylesheet
                },
                selectors,
                declarations,
                from + 1,
            )
        }
    } else {
        stylesheet
    }
}

/// The stylesheet that the top-level nodes from index `from` on add up to,
/// starting from `stylesheet`. Comments are passed over and the end of input
/// ends the reading. `None` where a rule cannot be read.
pub open spec fn stylesheet_of(rules: Seq<SyntaxNode>, from: int, stylesheet: StylesheetModel) -> Option<
    StylesheetModel,
>
    decreases rules.len() - from,
{
    if 0 <= from < rules.len() {
        match rules[from].rule {
            Rule::Comment => stylesheet_of(rules, from + 1, stylesheet),
            Rule::EndOfInput => Some(stylesheet),
            Rule::Rule => match rule_selectors(rules[from].children@, 0) {
                Some(selectors) => stylesheet_of(
                    rules,
                    from + 1,
                    rule_applied(
                        StylesheetModel {
                            dropped: stylesheet.dropped + dropped_declarations(
                                rules[from].children@,
                                0,
                            ),
                            ..stylesheet
                        },
                        selectors,
                        rule_declarations(rules[from].children@, 0),
                        0,
                    ),
                ),
                None => None,
            },
            _ => None,
        }
    } else {
        Some(stylesheet)
    }
}

/// Whether an acknowledgement holds what the declarations of a meta block say.
pub open spec fn acknowledges(
    acknowledgement: Option<MapCssAcknowledgement>,
    meta: Option<Seq<MapCssDeclarationView>>,
) -> bool {
    match meta {
        None => acknowledgement is None,
        Some(declarations) => acknowledgement matches Some(a) && {
            &&& a.title@ == declared_text(declarations, MapCssDeclarationProperty::Title)
            &&& a.version@ == declared_text(declarations, MapCssDeclarationProperty::Version)
            &&& a.description@ == declared_text(
                declarations,
                MapCssDeclarationProperty::Description,
            )
            &&& a.acknowledgement@ == declared_text(
                declarations,
                MapCssDeclarationProperty::Acknowledgement,
            )
        },
    }
}

/// A stylesheet as read from its syntax tree.
pub struct ParsedStylesheet {
    pub acknowledgement: Option<MapCssAcknowledgement>,
    pub declarations: MapCssDeclarationList,
    /// The declarations that were dropped because they could not be read.
    pub dropped: Vec<MapCssError>,
}

pub struct MapCssParser;

/// The selectors and declarations of one rule.
struct RuleContents {
    selectors: Vec<Selector>,
    declarations: Vec<MapCssDeclaration>,
}

/// The values of a list of selectors, one for one.
pub open spec fn selector_views(selectors: Seq<Selector>) -> Seq<SelectorView> {
    Seq::new(selectors.len(), |i: int| selectors[i]@)
}

fn read_rule(rule: &SyntaxNode, dropped: &mut Vec<MapCssError>) -> (contents: Option<RuleContents>)
    ensures
        match rule_selectors(rule.children@, 0) {
            Some(selectors) => contents matches Some(contents) && selector_views(
                contents.selectors@,
            ) == selectors && declaration_views(contents.declarations@) == rule_declarations(
                rule.children@,
                0,
            ) && exists|more: Seq<MapCssError>|
                #![trigger old(dropped)@ + more]
                final(dropped)@ == old(dropped)@ + more && report_all(
                    more,
                    dropped_declarations(rule.children@, 0),
                ),
            None => contents is None,
        },
{
    let children = &rule.children;
    let mut selectors: Vec<Selector> = Vec::new();
    let mut declarations: Vec<MapCssDeclaration> = Vec::new();
    let ghost mut added: Seq<MapCssError> = Seq::empty();
    let ghost mut readings: Seq<DeclarationReading> = Seq::empty();
    let mut i: usize = 0;
    proof {
        assert(dropped@ =~= old(dropped)@ + added);
        assert(readings + dropped_declarations(children@, 0) =~= dropped_declarations(
            children@,
            0,
        ));
        assert(selector_views(selectors@) =~= Seq::<SelectorView>::empty());
        assert(declaration_views(declarations@) =~= Seq::<MapCssDeclarationView>::empty());
        assert(Seq::<SelectorView>::empty() + rule_selectors(children@, 0)->0 =~= rule_selectors(
            children@,
            0,
        )->0);
        assert(Seq::<MapCssDeclarationView>::empty() + rule_declarations(children@, 0)
            =~= rule_declarations(children@, 0));
    }
    while i < children.len()
        invariant
            i <= children.len(),
            children == &rule.children,
            rule_selectors(children@, 0) == (match rule_selectors(children@, i as int) {
                Some(rest) => Some(selector_views(selectors@) + rest),
                None => None,
            }),
            rule_declarations(children@, 0) == declaration_views(declarations@) + rule_declarations(
                children@,
                i as int,
            ),
            dropped@ == old(dropped)@ + added,
            dropped_declarations(children@, 0) == readings + dropped_declarations(
                children@,
                i as int,
            ),
            report_all(added, readings),
        decreases children.len() - i,
    {
        let child = &children[i];
        let ghost selectors_before = selector_views(selectors@);
        let ghost declarations_before = declaration_views(declarations@);
        let ghost dropped_rest = dropped_declarations(children@, i + 1);
        proof {
            if !(child.rule == Rule::RuleDeclaration && !(declaration_of(*child) is Declared)) {
                assert(readings + (Seq::<DeclarationReading>::empty() + dropped_rest) =~= readings
                    + dropped_rest);
            }
        }
        match child.rule {
            Rule::RuleSelector => {
                match handle_selector(child) {
                    Ok(selector) => {
                        selectors.push(selector);
                        proof {
                            assert(selector_views(selectors@) =~= selectors_before + seq![
                                selector@,
                            ]);
                            match rule_selectors(children@, i + 1) {
                                Some(rest) => {
                                    assert(selectors_before + (seq![selector@] + rest) =~= (
                                    selectors_before + seq![selector@]) + rest);
                                },
                                None => {},
                            }
                        }
                    },
                    Err(_) => {
                        return None;
                    },
                }
                proof {
                    assert(Seq::<MapCssDeclarationView>::empty() + rule_declarations(
                        children@,
                        i + 1,
                    ) =~= rule_declarations(children@, i + 1));
                }
            },
            Rule::RuleDeclaration => match handle_declaration(child) {
                Ok(declaration) => {
                    let ghost view = (declaration.0, declaration.1@);
                    declarations.push(declaration);
                    proof {
                        assert(declaration_views(declarations@) =~= declarations_before + seq![
                            view,
                        ]);
                        assert(declarations_before + (seq![view] + rule_declarations(
                            children@,
                            i + 1,
                        )) =~= (declarations_before + seq![view]) + rule_declarations(
                            children@,
                            i + 1,
                        ));
                    }
                },
                Err(error) => {
                    let ghost reading = declaration_of(*child);
                    proof {
                        assert(readings + (seq![reading] + dropped_rest) =~= readings.push(reading)
                            + dropped_rest);
                        assert(old(dropped)@ + added.push(error) =~= (old(dropped)@ + added).push(
                            error,
                        ));
                        added = added.push(error);
                        readings = readings.push(reading);
                        assert(Seq::<MapCssDeclarationView>::empty() + rule_declarations(
                            children@,
                            i + 1,
                        ) =~= rule_declarations(children@, i + 1));
                    }
                    dropped.push(error);
                },
            },
            Rule::Comment => {
                proof {
                    assert(Seq::<MapCssDeclarationView>::empty() + rule_declarations(
                        children@,
                        i + 1,
                    ) =~= rule_declarations(children@, i + 1));
                }
            },
            _ => {
                return None;
            },
        }
        i = i + 1;
    }
    proof {
        assert(selector_views(selectors@) + Seq::<SelectorView>::empty() =~= selector_views(
            selectors@,
        ));
        assert(declaration_views(declarations@) + Seq::<MapCssDeclarationView>::empty()
            =~= declaration_views(declarations@));
        assert(readings + Seq::<DeclarationReading>::empty() =~= readings);
        assert(dropped@ == old(dropped)@ + added);
    }
    Some(RuleContents { selectors, declarations })
}

impl MapCssParser {
    /// Puts a stylesheet together from the top-level nodes of its syntax
    /// tree: the declarations of each rule are registered under each of its
    /// selectors, and the `meta` block gives the acknowledgement. A
    /// declaration that cannot be read is dropped and kept as an error; a rule
    /// that cannot be read gives `InvalidSelector`.
    pub fn parse_mapcss(rules: &Vec<SyntaxNode>) -> (parsed: Result<
        ParsedStylesheet,
        MapCssParseError,
    >)
        ensures
            match stylesheet_of(
                rules@,
                0,
                StylesheetModel { groups: Seq::empty(), meta: None, dropped: Seq::empty() },
            ) {
                Some(stylesheet) => parsed matches Ok(parsed) && parsed.declarations@
                    == stylesheet.groups && acknowledges(parsed.acknowledgement, stylesheet.meta)
                    && report_all(parsed.dropped@, stylesheet.dropped),
                None => parsed matches Err(error) && error is InvalidSelector,
            },
    {
        let mut selector_to_declaration_list = MapCssDeclarationList::new();
        let mut acknowledgement: Option<MapCssAcknowledgement> = None;
        let mut dropped: Vec<MapCssError> = Vec::new();
        let ghost start = StylesheetModel { groups: Seq::empty(), meta: None, dropped: Seq::empty() };
        let ghost mut model = start;
        let mut i: usize = 0;
        while i < rules.len()
            invariant
                i <= rules.len(),
                start == (StylesheetModel { groups: Seq::empty(), meta: None, dropped: Seq::empty() }),
                stylesheet_of(rules@, 0, start) == stylesheet_of(rules@, i as int, model),
                model.groups == selector_to_declaration_list@,
                acknowledges(acknowledgement, model.meta),
                report_all(dropped@, model.dropped),
            ensures
                i == rules.len() || rules@[i as int].rule == Rule::EndOfInput,
            decreases rules.len() - i,
        {
            let rule = &rules[i];
            match rule.rule {
                Rule::Comment => {
                    // ignore comments
                },
                Rule::Rule => {
                    let ghost dropped_before = dropped@;
                    let contents = match read_rule(rule, &mut dropped) {
                        Some(contents) => contents,
                        None => {
                            return Err(MapCssParseError::InvalidSelector);
                        },
                    };
                    let ghost selectors = selector_views(contents.selectors@);
                    let ghost declarations = declaration_views(contents.declarations@);
                    proof {
                        let more = choose|more: Seq<MapCssError>|
                            #![trigger dropped_before + more]
                            dropped@ == dropped_before + more && report_all(
                                more,
                                dropped_declarations(rule.children@, 0),
                            );
                        model =
                        StylesheetModel {
                            dropped: model.dropped + dropped_declarations(rule.children@, 0),
                            ..model
                        };
                    }
                    let ghost goal = rule_applied(model, selectors, declarations, 0);
                    let mut k: usize = 0;
                    while k < contents.selectors.len()
                        invariant_except_break
                            goal == rule_applied(model, selectors, declarations, k as int),
                        invariant
                            k <= contents.selectors.len(),
                            selectors == selector_views(contents.selectors@),
                            declarations == declaration_views(contents.declarations@),
                            model.groups == selector_to_declaration_list@,
                            acknowledges(acknowledgement, model.meta),
                            report_all(dropped@, model.dropped),
                        ensures
                            model == goal,
                        decreases contents.selectors.len() - k,
                    {
                        let selector = &contents.selectors[k];
                        assert(selectors[k as int] == selector@);
                        let selector_type = selector.selector_type();
                        if selector_type == SelectorType::Meta {
                            if let SelectorCondition::No = selector.conditions() {
                                acknowledgement =
                                match MapCssAcknowledgement::from_declarations(
                                    clone_declarations(&contents.declarations),
                                ) {
                                    Ok(acknowledgement) => Some(acknowledgement),
                                    Err(_) => None,
                                };
                                proof {
                                    model = StylesheetModel { meta: Some(declarations), ..model };
                                }
                                break ;
                            }
                        } else {
                            selector_to_declaration_list.register(
                                selector_type,
                                selector.conditions().clone(),
                                clone_declarations(&contents.declarations),
                            );
                            proof {
                                model =
                                StylesheetModel {
                                    groups: selector_to_declaration_list@,
                                    ..model
                                };
                            }
                        }
                        k = k + 1;
                    }
                    assert(model == goal);
                },
                Rule::EndOfInput => {
                    break ;
                },
                _ => {
                    return Err(MapCssParseError::InvalidSelector);
                },
            }
            i = i + 1;
        }
        Ok(ParsedStylesheet { acknowledgement, declarations: selector_to_declaration_list, dropped })
    }
}

} // verus!
