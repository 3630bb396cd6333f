use osm_renderer::mapcss::declaration::{
    FloatSize, LinecapDeclarationVariant, LinejoinDeclarationVariant, MapCssDeclarationProperty,
    MapCssDeclarationValueType, RenderSession, TextPositionDeclarationVariant, RGBA,
};
use osm_renderer::mapcss::declaration::MapCssDeclarationProperty as Property;
use osm_renderer::mapcss::declaration::MapCssDeclarationValueType as Value;
use osm_renderer::mapcss::error::MapCssError;
use osm_renderer::mapcss::parser::{
    handle_declaration, handle_selector, operator_to_condition, read_decimal, read_dashes,
    read_value, read_zoom_condition, selector_condition_from_rule_selectors,
    selector_span_to_type, MapCssParser, Rule, SyntaxNode, ValueKind,
};
use osm_renderer::mapcss::selectors::{Selector, SelectorCondition, SelectorType};
use osm_renderer::mapcss::MapCssParseError;
use osm_renderer::data::WayData;
use std::rc::Rc;

fn leaf(rule: Rule, text: &str) -> SyntaxNode {
    SyntaxNode { rule, text: text.to_string(), inner_text: String::new(), children: vec![] }
}

fn node(rule: Rule, children: Vec<SyntaxNode>) -> SyntaxNode {
    let inner_text: String = children.iter().map(|child| child.text.as_str()).collect();
    SyntaxNode { rule, text: inner_text.clone(), inner_text, children }
}

fn declaration(name: &str, value: SyntaxNode) -> SyntaxNode {
    node(Rule::RuleDeclaration, vec![leaf(Rule::DeclarationName, name), value])
}

fn plain(name: &str, value: &str) -> SyntaxNode {
    declaration(name, leaf(Rule::Other, value))
}

fn tests(children: Vec<SyntaxNode>) -> SyntaxNode {
    node(Rule::SelectorTests, children)
}

fn has_tag(key: &str) -> SyntaxNode {
    tests(vec![leaf(Rule::TagValue, key)])
}

fn compare(key: &str, operator: &str, value: &str) -> SyntaxNode {
    tests(vec![
        leaf(Rule::TagValue, key),
        leaf(Rule::Comparison, operator),
        leaf(Rule::TagValue, value),
    ])
}

fn selector(name: &str, mut rest: Vec<SyntaxNode>) -> SyntaxNode {
    let mut children = vec![leaf(Rule::Selector, name)];
    children.append(&mut rest);
    node(Rule::RuleSelector, children)
}

fn chars(text: &str) -> Vec<char> {
    text.chars().collect()
}

#[test]
fn selector_types_by_name() {
    for (name, selector_type) in [
        ("*", SelectorType::Any),
        ("area", SelectorType::Area),
        ("canvas", SelectorType::Canvas),
        ("line", SelectorType::Line),
        ("meta", SelectorType::Meta),
        ("node", SelectorType::Node),
        ("relation", SelectorType::Relation),
        ("way", SelectorType::Way),
    ] {
        let selector = selector_span_to_type(name, SelectorCondition::ClosedPath).unwrap();
        assert_eq!(selector, Selector::new(selector_type, SelectorCondition::ClosedPath));
    }
    for name in ["", "Way", "ways", " way", "**"] {
        assert!(matches!(
            selector_span_to_type(name, SelectorCondition::No),
            Err(MapCssParseError::InvalidSelector)
        ));
    }
}

#[test]
fn operators_make_conditions() {
    let mut list = vec![SelectorCondition::ClosedPath];
    assert!(operator_to_condition("=", "highway", "motorway", &mut list).is_ok());
    assert!(operator_to_condition("!=", "highway", "motorway", &mut list).is_ok());
    assert!(operator_to_condition(">", "lanes", "3", &mut list).is_ok());
    assert!(operator_to_condition(">=", "lanes", "-3", &mut list).is_ok());
    assert!(operator_to_condition("<", "lanes", "+3", &mut list).is_ok());
    assert!(operator_to_condition("<=", "lanes", "0", &mut list).is_ok());
    assert_eq!(
        list,
        vec![
            SelectorCondition::ClosedPath,
            SelectorCondition::HasExactTagValue("highway".into(), "motorway".into()),
            SelectorCondition::HasNotTagValue("highway".into(), "motorway".into()),
            SelectorCondition::ValueGreaterThan("lanes".into(), 3),
            SelectorCondition::ValueGreaterThanEqual("lanes".into(), -3),
            SelectorCondition::ValueLessThan("lanes".into(), 3),
            SelectorCondition::ValueLessThanEqual("lanes".into(), 0),
        ]
    );
    // a numeric comparison with no number adds nothing
    for expected in ["many", "", "3.5", "3 ", "99999999999999999999"] {
        assert!(operator_to_condition("<", "lanes", expected, &mut list).is_ok());
    }
    assert_eq!(list.len(), 7);
    for operator in ["", "==", "=~", "<>", " <"] {
        assert!(matches!(
            operator_to_condition(operator, "lanes", "3", &mut list),
            Err(MapCssParseError::InvalidSelector)
        ));
    }
    assert_eq!(list.len(), 7);
}

#[test]
fn zoom_level_tests() {
    assert_eq!(read_zoom_condition(Rule::SelectorTestZoomLevelExact, "|z8"), Some(SelectorCondition::ExactZoomLevel(8)));
    assert_eq!(read_zoom_condition(Rule::SelectorTestZoomLevelExact, "|z255"), Some(SelectorCondition::ExactZoomLevel(255)));
    assert_eq!(read_zoom_condition(Rule::SelectorTestZoomLevelExact, "|z007"), Some(SelectorCondition::ExactZoomLevel(7)));
    assert_eq!(read_zoom_condition(Rule::SelectorTestZoomLevelExact, "|z256"), None);
    assert_eq!(read_zoom_condition(Rule::SelectorTestZoomLevelExact, "|z"), None);
    assert_eq!(read_zoom_condition(Rule::SelectorTestZoomLevelExact, "|"), None);
    assert_eq!(read_zoom_condition(Rule::SelectorTestZoomLevelExact, "|z-8"), None);
    assert_eq!(
        read_zoom_condition(Rule::SelectorTestZoomLevelClosedRange, "|z10-12"),
        Some(SelectorCondition::RangeZoomLevel(10, 12))
    );
    assert_eq!(read_zoom_condition(Rule::SelectorTestZoomLevelClosedRange, "|z10-"), None);
    assert_eq!(read_zoom_condition(Rule::SelectorTestZoomLevelClosedRange, "|z-12"), None);
    assert_eq!(read_zoom_condition(Rule::SelectorTestZoomLevelClosedRange, "|z1012"), None);
    assert_eq!(read_zoom_condition(Rule::SelectorTestZoomLevelClosedRange, "|z10-12-14"), None);
    assert_eq!(
        read_zoom_condition(Rule::SelectorTestZoomLevelOpenRightRange, "|z14-"),
        Some(SelectorCondition::MinZoomLevel(14))
    );
    assert_eq!(
        read_zoom_condition(Rule::SelectorTestZoomLevelOpenRightRange, "|z4-"),
        Some(SelectorCondition::MinZoomLevel(4))
    );
    assert_eq!(read_zoom_condition(Rule::SelectorTestZoomLevelOpenRightRange, "|z4"), None);
    assert_eq!(read_zoom_condition(Rule::SelectorTestZoomLevelOpenRightRange, "-"), None);
    assert_eq!(read_zoom_condition(Rule::Other, "|z8"), None);
}

#[test]
fn decimals_are_read_in_thousandths() {
    for (text, thousandths) in [
        ("0", 0),
        ("1", 1000),
        ("1.5", 1500),
        ("-1.5", -1500),
        ("+1.5", 1500),
        ("0.25", 250),
        (".5", 500),
        ("5.", 5000),
        ("3.14159", 3141),
        ("0.0009", 0),
        ("-0.001", -1),
        ("007.070", 7070),
        ("9223372036854775.807", i64::MAX),
        ("-9223372036854775.807", -i64::MAX),
    ] {
        assert_eq!(read_decimal(&chars(text)), Some(FloatSize { thousandths }), "{}", text);
    }
    for text in ["", ".", "-", "+", "-.", "1.2.3", "1e3", "1,5", " 1", "1 ", "--1", "0x10", "9223372036854775.808", "9223372036854776"] {
        assert_eq!(read_decimal(&chars(text)), None, "{:?}", text);
    }
}

#[test]
fn dashes_are_integers_between_commas() {
    assert_eq!(read_dashes(&chars("4")), Some(vec![4]));
    assert_eq!(read_dashes(&chars("4,2")), Some(vec![4, 2]));
    assert_eq!(read_dashes(&chars("10,-2,+3,0")), Some(vec![10, -2, 3, 0]));
    assert_eq!(read_dashes(&chars("2147483647,-2147483648")), Some(vec![i32::MAX, i32::MIN]));
    for text in ["", ",", "4,", ",4", "4,,2", "4, 2", "4;2", "2147483648", "a"] {
        assert_eq!(read_dashes(&chars(text)), None, "{:?}", text);
    }
}

#[test]
fn values_by_kind() {
    let text = |s: &str| Some(Value::String(s.to_string()));
    assert_eq!(read_value(ValueKind::Text, Rule::Other, "plain text", ""), text("plain text"));
    assert_eq!(read_value(ValueKind::Text, Rule::DoubleQuotedString, "\"quoted\"", ""), text("quoted"));
    assert_eq!(read_value(ValueKind::Text, Rule::SingleQuotedString, "'süß'", ""), text("süß"));
    assert_eq!(read_value(ValueKind::Text, Rule::SingleQuotedString, "''", ""), text(""));
    assert_eq!(read_value(ValueKind::Text, Rule::SingleQuotedString, "'", ""), None);
    assert_eq!(read_value(ValueKind::Text, Rule::Other, "'", ""), text("'"));

    for (value, expected) in [("true", true), ("1", true), ("false", false), ("0", false)] {
        assert_eq!(read_value(ValueKind::Boolean, Rule::Other, value, ""), Some(Value::Boolean(expected)));
    }
    assert_eq!(read_value(ValueKind::Boolean, Rule::Other, "yes", ""), None);
    assert_eq!(read_value(ValueKind::Boolean, Rule::Other, "True", ""), None);

    assert_eq!(
        read_value(ValueKind::Color, Rule::Other, "#f1eee8", ""),
        Some(Value::Color(RGBA { red: 241, green: 238, blue: 232, alpha: 255 }))
    );
    assert_eq!(
        read_value(ValueKind::Color, Rule::Other, "Red", ""),
        Some(Value::Color(RGBA { red: 255, green: 0, blue: 0, alpha: 255 }))
    );
    assert_eq!(read_value(ValueKind::Color, Rule::Other, "reddish", ""), None);

    assert_eq!(read_value(ValueKind::Integer, Rule::Int, "-12", ""), Some(Value::Integer(-12)));
    assert_eq!(read_value(ValueKind::Integer, Rule::Int, "2147483647", ""), Some(Value::Integer(i32::MAX)));
    assert_eq!(read_value(ValueKind::Integer, Rule::Int, "2147483648", ""), None);
    assert_eq!(read_value(ValueKind::Integer, Rule::Int, "1.5", ""), None);

    assert_eq!(
        read_value(ValueKind::Float, Rule::Float, "1.5", ""),
        Some(Value::Float(FloatSize { thousandths: 1500 }))
    );
    assert_eq!(
        read_value(ValueKind::Float, Rule::Int, "3", ""),
        Some(Value::Float(FloatSize { thousandths: 3000 }))
    );
    assert_eq!(read_value(ValueKind::Float, Rule::Other, "3", ""), None);
    assert_eq!(read_value(ValueKind::Float, Rule::Float, "three", ""), None);

    assert_eq!(read_value(ValueKind::Dashes, Rule::Other, "4,2", ""), Some(Value::IntegerArray(vec![4, 2])));
    assert_eq!(read_value(ValueKind::Dashes, Rule::Other, "4 2", ""), None);

    assert_eq!(
        read_value(ValueKind::TextPosition, Rule::Other, "center", ""),
        Some(Value::TextPositionDeclarationVariant(TextPositionDeclarationVariant::Center))
    );
    assert_eq!(
        read_value(ValueKind::TextPosition, Rule::Other, "line", ""),
        Some(Value::TextPositionDeclarationVariant(TextPositionDeclarationVariant::Line))
    );
    assert_eq!(read_value(ValueKind::TextPosition, Rule::Other, "left", ""), None);
    for (value, expected) in [
        ("none", LinecapDeclarationVariant::NoCap),
        ("round", LinecapDeclarationVariant::Round),
        ("square", LinecapDeclarationVariant::Square),
    ] {
        assert_eq!(
            read_value(ValueKind::Linecap, Rule::Other, value, ""),
            Some(Value::LinecapDeclarationVariant(expected))
        );
    }
    assert_eq!(read_value(ValueKind::Linecap, Rule::Other, "miter", ""), None);
    for (value, expected) in [
        ("round", LinejoinDeclarationVariant::Round),
        ("miter", LinejoinDeclarationVariant::Miter),
        ("bevel", LinejoinDeclarationVariant::Bevel),
    ] {
        assert_eq!(
            read_value(ValueKind::Linejoin, Rule::Other, value, ""),
            Some(Value::LinejoinDeclarationVariant(expected))
        );
    }
    assert_eq!(read_value(ValueKind::Linejoin, Rule::Other, "square", ""), None);

    assert_eq!(read_value(ValueKind::UrlOrText, Rule::Url, "url('a.png')", "'a.png'"), text("a.png"));
    assert_eq!(read_value(ValueKind::UrlOrText, Rule::Url, "url()", ""), None);
    assert_eq!(read_value(ValueKind::UrlOrText, Rule::DoubleQuotedString, "\"a.png\"", "x"), text("a.png"));
    assert_eq!(read_value(ValueKind::UrlOrText, Rule::Other, "a.png", "x"), text("a.png"));
}

#[test]
fn declarations_by_name() {
    let gray = Value::Color(RGBA { red: 128, green: 128, blue: 128, alpha: 255 });
    let cases: Vec<(SyntaxNode, Property, Value)> = vec![
        (plain("title", "My Style"), Property::Title, Value::String("My Style".into())),
        (declaration("version", leaf(Rule::DoubleQuotedString, "\"1.0\"")), Property::Version, Value::String("1.0".into())),
        (plain("description", "d"), Property::Description, Value::String("d".into())),
        (plain("acknowledgement", "a"), Property::Acknowledgement, Value::String("a".into())),
        (plain("allow_overlap", "true"), Property::AllowOverlap, Value::Boolean(true)),
        (plain("dashes", "4,2"), Property::Dashes, Value::IntegerArray(vec![4, 2])),
        (plain("default-lines", "0"), Property::DefaultLines, Value::Boolean(false)),
        (plain("default-points", "1"), Property::DefaultPoints, Value::Boolean(true)),
        (plain("text", "name"), Property::Text, Value::String("name".into())),
        (plain("text-color", "gray"), Property::TextColor, gray.clone()),
        (plain("text-position", "line"), Property::TextPosition, Value::TextPositionDeclarationVariant(TextPositionDeclarationVariant::Line)),
        (plain("text-spacing", "3"), Property::TextSpacing, Value::Integer(3)),
        (plain("text-halo-color", "gray"), Property::TextHaloColor, gray.clone()),
        (plain("text-halo-radius", "2"), Property::TextHaloRadius, Value::Integer(2)),
        (plain("text-wrap-width", "40"), Property::TextWrapWidth, Value::Integer(40)),
        (plain("background-color", "gray"), Property::BackgroundColor, gray.clone()),
        (plain("color", "gray"), Property::Color, gray.clone()),
        (plain("fill-color", "gray"), Property::FillColor, gray.clone()),
        (plain("font-size", "12"), Property::FontSize, Value::Integer(12)),
        (plain("font-color", "gray"), Property::FontColor, gray.clone()),
        (plain("font-family", "serif"), Property::FontFamily, Value::String("serif".into())),
        (plain("linecap", "round"), Property::Linecap, Value::LinecapDeclarationVariant(LinecapDeclarationVariant::Round)),
        (plain("linejoin", "bevel"), Property::Linejoin, Value::LinejoinDeclarationVariant(LinejoinDeclarationVariant::Bevel)),
        (declaration("fill-opacity", leaf(Rule::Float, "0.5")), Property::FillOpacity, Value::Float(FloatSize { thousandths: 500 })),
        (declaration("fill-image", SyntaxNode { rule: Rule::Url, text: "url(\"f.png\")".into(), inner_text: "\"f.png\"".into(), children: vec![] }), Property::FillImage, Value::String("f.png".into())),
        (plain("icon-image", "i.png"), Property::IconImage, Value::String("i.png".into())),
        (declaration("pattern-image", leaf(Rule::SingleQuotedString, "'p.png'")), Property::PatternImage, Value::String("p.png".into())),
        (declaration("opacity", leaf(Rule::Int, "1")), Property::Opacity, Value::Float(FloatSize { thousandths: 1000 })),
        (declaration("width", leaf(Rule::Float, "2.5")), Property::Width, Value::Float(FloatSize { thousandths: 2500 })),
        (declaration("z-index", leaf(Rule::Float, "-1.0")), Property::ZIndex, Value::Float(FloatSize { thousandths: -1000 })),
        (declaration("Z-INDEX", leaf(Rule::Int, "7")), Property::ZIndex, Value::Float(FloatSize { thousandths: 7000 })),
    ];
    for (node, property, value) in cases {
        assert_eq!(handle_declaration(&node).unwrap(), (property, value));
    }
}

#[test]
fn declarations_that_cannot_be_read() {
    assert!(matches!(
        handle_declaration(&plain("frobnicate", "1")),
        Err(MapCssError::UnknownDeclarationName(name)) if name == "frobnicate"
    ));
    assert!(matches!(
        handle_declaration(&plain("Colour", "red")),
        Err(MapCssError::UnknownDeclarationName(name)) if name == "Colour"
    ));
    assert!(matches!(
        handle_declaration(&plain("color", "reddish")),
        Err(MapCssError::InvalidDeclarationValue(name)) if name == "color"
    ));
    // a width must be a number node
    assert!(matches!(
        handle_declaration(&plain("width", "3")),
        Err(MapCssError::InvalidDeclarationValue(name)) if name == "width"
    ));
    assert!(matches!(
        handle_declaration(&node(Rule::RuleDeclaration, vec![leaf(Rule::DeclarationName, "color")])),
        Err(MapCssError::InvalidDeclarationValue(_))
    ));
    assert!(matches!(
        handle_declaration(&node(Rule::Rule, vec![leaf(Rule::DeclarationName, "color"), leaf(Rule::Other, "red")])),
        Err(MapCssError::InvalidDeclarationValue(_))
    ));
}

#[test]
fn conditions_from_selector_nodes() {
    assert_eq!(selector_condition_from_rule_selectors(&vec![], 0).unwrap(), SelectorCondition::No);
    let one = vec![has_tag("highway")];
    assert_eq!(
        selector_condition_from_rule_selectors(&one, 0).unwrap(),
        SelectorCondition::HasTag("highway".into())
    );
    assert_eq!(selector_condition_from_rule_selectors(&one, 1).unwrap(), SelectorCondition::No);
    assert_eq!(selector_condition_from_rule_selectors(&one, 5).unwrap(), SelectorCondition::No);

    let zoom = |rule: Rule, text: &str| tests(vec![node(Rule::SelectorTestZoomLevel, vec![leaf(rule, text)])]);
    let pseudo = |inner: SyntaxNode| node(Rule::SelectorPseudoClasses, vec![inner]);
    let nodes = vec![
        compare("highway", "=", "motorway"),
        node(Rule::RuleDescendant, vec![]),
        compare("lanes", ">", "many"),
        compare("lanes", ">=", "2"),
        tests(vec![]),
        zoom(Rule::SelectorTestZoomLevelClosedRange, "|z10-12"),
        pseudo(leaf(Rule::ClosedPseudoClass, ":closed")),
        pseudo(node(Rule::GenericPseudoClass, vec![leaf(Rule::Selector, "*")])),
        pseudo(node(Rule::GenericPseudoClass, vec![leaf(Rule::Selector, "way")])),
        pseudo(node(Rule::GenericPseudoClass, vec![leaf(Rule::Other, "hover")])),
        pseudo(node(Rule::NotPseudoClass, vec![leaf(Rule::Selector, "canvas"), has_tag("x")])),
    ];
    assert_eq!(
        selector_condition_from_rule_selectors(&nodes, 0).unwrap(),
        SelectorCondition::List(vec![
            SelectorCondition::HasExactTagValue("highway".into(), "motorway".into()),
            SelectorCondition::ValueGreaterThanEqual("lanes".into(), 2),
            SelectorCondition::RangeZoomLevel(10, 12),
            SelectorCondition::ClosedPath,
            SelectorCondition::GenericPseudoClass("way".into()),
            SelectorCondition::GenericPseudoClass("hover".into()),
            SelectorCondition::Not(Rc::new(Selector::new(
                SelectorType::Canvas,
                SelectorCondition::HasTag("x".into())
            ))),
        ])
    );
    assert_eq!(
        selector_condition_from_rule_selectors(&nodes, 9).unwrap(),
        SelectorCondition::List(vec![
            SelectorCondition::GenericPseudoClass("hover".into()),
            SelectorCondition::Not(Rc::new(Selector::new(
                SelectorType::Canvas,
                SelectorCondition::HasTag("x".into())
            ))),
        ])
    );

    for broken in [
        leaf(Rule::Comment, "/* */"),
        tests(vec![leaf(Rule::Comparison, "=")]),
        tests(vec![leaf(Rule::TagValue, "a"), leaf(Rule::Comparison, "=")]),
        tests(vec![leaf(Rule::TagValue, "a"), leaf(Rule::TagValue, "b")]),
        compare("a", "~", "b"),
        zoom(Rule::SelectorTestZoomLevelExact, "|z999"),
        tests(vec![node(Rule::SelectorTestZoomLevel, vec![])]),
        node(Rule::SelectorPseudoClasses, vec![]),
        pseudo(leaf(Rule::Other, "x")),
        pseudo(node(Rule::GenericPseudoClass, vec![])),
        pseudo(node(Rule::NotPseudoClass, vec![leaf(Rule::Selector, "street")])),
        pseudo(node(Rule::NotPseudoClass, vec![])),
    ] {
        assert!(matches!(
            selector_condition_from_rule_selectors(&vec![has_tag("fine"), broken], 0),
            Err(MapCssParseError::InvalidSelector)
        ));
    }
}

#[test]
fn selectors_with_descendants() {
    assert_eq!(
        handle_selector(&selector("way", vec![])).unwrap(),
        Selector::new(SelectorType::Way, SelectorCondition::No)
    );
    let descendant = |inner: SyntaxNode| node(Rule::RuleDescendant, vec![inner]);
    let parsed = handle_selector(&selector(
        "relation",
        vec![
            descendant(selector("way", vec![has_tag("highway")])),
            has_tag("route"),
            descendant(selector("node", vec![])),
        ],
    ))
    .unwrap();
    assert_eq!(
        parsed,
        Selector::new(
            SelectorType::Relation,
            SelectorCondition::List(vec![
                SelectorCondition::HasTag("route".into()),
                SelectorCondition::HasDescendant(Rc::new(Selector::new(
                    SelectorType::Way,
                    SelectorCondition::HasTag("highway".into())
                ))),
                SelectorCondition::HasDescendant(Rc::new(Selector::new(
                    SelectorType::Node,
                    SelectorCondition::No
                ))),
            ])
        )
    );
    let only_descendant = handle_selector(&selector("area", vec![descendant(selector("node", vec![]))])).unwrap();
    assert_eq!(
        only_descendant,
        Selector::new(
            SelectorType::Area,
            SelectorCondition::HasDescendant(Rc::new(Selector::new(SelectorType::Node, SelectorCondition::No)))
        )
    );
    for broken in [
        node(Rule::RuleSelector, vec![]),
        node(Rule::RuleSelector, vec![has_tag("x")]),
        selector("street", vec![]),
        selector("way", vec![node(Rule::RuleDescendant, vec![])]),
        selector("way", vec![descendant(selector("street", vec![]))]),
        selector("way", vec![leaf(Rule::Other, "?")]),
    ] {
        assert!(matches!(handle_selector(&broken), Err(MapCssParseError::InvalidSelector)));
    }
}

#[test]
fn stylesheet_from_its_syntax_tree() {
    let rules = vec![
        leaf(Rule::Comment, "/* style */"),
        node(
            Rule::Rule,
            vec![
                selector("meta", vec![]),
                plain("title", "Test"),
                plain("version", "0.1"),
                plain("title", "Test Style"),
            ],
        ),
        node(
            Rule::Rule,
            vec![
                selector("way", vec![compare("highway", "=", "motorway")]),
                leaf(Rule::Comment, "/* two selectors share the declarations */"),
                selector("area", vec![]),
                plain("color", "red"),
                plain("colour", "red"),
                declaration("width", leaf(Rule::Int, "3")),
                plain("font-size", "large"),
            ],
        ),
        node(Rule::Rule, vec![selector("meta", vec![has_tag("x")]), plain("title", "Ignored")]),
        node(
            Rule::Rule,
            vec![selector("way", vec![compare("highway", "=", "motorway")]), plain("color", "blue")],
        ),
        leaf(Rule::EndOfInput, ""),
        leaf(Rule::Other, "never looked at"),
    ];
    let parsed = MapCssParser::parse_mapcss(&rules).unwrap();

    let acknowledgement = parsed.acknowledgement.unwrap();
    assert_eq!(acknowledgement.title(), "Test Style");
    assert_eq!(acknowledgement.version, "0.1");
    assert_eq!(acknowledgement.description, "");
    assert_eq!(acknowledgement.acknowledgement, "");

    assert_eq!(parsed.dropped.len(), 2);
    assert!(matches!(&parsed.dropped[0], MapCssError::UnknownDeclarationName(name) if name == "colour"));
    assert!(matches!(&parsed.dropped[1], MapCssError::InvalidDeclarationValue(name) if name == "font-size"));

    let list = parsed.declarations;
    let mut session = RenderSession::new();
    let motorway = WayData::new(1, vec![("highway".into(), "motorway".into())], vec![1, 2]).unwrap();
    let blue = MapCssDeclarationValueType::Color(RGBA { red: 0, green: 0, blue: 255, alpha: 255 });
    let red = MapCssDeclarationValueType::Color(RGBA { red: 255, green: 0, blue: 0, alpha: 255 });
    let three = MapCssDeclarationValueType::Float(FloatSize { thousandths: 3000 });
    assert_eq!(list.search_cascading(&motorway, &MapCssDeclarationProperty::Color, &mut session), Some(&blue));
    assert_eq!(list.search_cascading(&motorway, &MapCssDeclarationProperty::Width, &mut session), Some(&three));
    assert_eq!(list.search_cascading(&motorway, &MapCssDeclarationProperty::Title, &mut session), None);
    let pond = WayData::new(2, vec![], vec![1, 2, 1]).unwrap();
    assert_eq!(list.search_cascading(&pond, &MapCssDeclarationProperty::Color, &mut session), Some(&red));
}

#[test]
fn stylesheet_without_meta_block_or_with_broken_rules() {
    let parsed = MapCssParser::parse_mapcss(&vec![]).unwrap();
    assert!(parsed.acknowledgement.is_none());
    assert!(parsed.declarations.is_empty());
    assert!(parsed.dropped.is_empty());

    // a meta selector without conditions ends its rule
    let rules = vec![node(
        Rule::Rule,
        vec![selector("way", vec![]), selector("meta", vec![]), selector("area", vec![]), plain("title", "T")],
    )];
    let parsed = MapCssParser::parse_mapcss(&rules).unwrap();
    assert_eq!(parsed.acknowledgement.unwrap().title, "T");
    let mut session = RenderSession::new();
    let pond = WayData::new(2, vec![], vec![1, 2, 1]).unwrap();
    let title = MapCssDeclarationValueType::String("T".into());
    assert_eq!(
        parsed.declarations.search_cascading(&pond, &MapCssDeclarationProperty::Title, &mut session),
        Some(&title)
    );

    for broken in [
        leaf(Rule::Selector, "way"),
        node(Rule::Rule, vec![selector("street", vec![])]),
        node(Rule::Rule, vec![selector("way", vec![]), leaf(Rule::Other, "?")]),
    ] {
        assert!(matches!(
            MapCssParser::parse_mapcss(&vec![broken]),
            Err(MapCssParseError::InvalidSelector)
        ));
    }
}
