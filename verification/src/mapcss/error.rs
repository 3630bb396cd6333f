//! What can go wrong with a stylesheet.

use crate::mapcss::declaration::MapCssDeclarationProperty;
use vstd::prelude::*;
use vstd::string::StringExecFns;

verus! {

#[derive(Debug)]
pub enum MapCssError {
    UnknownDeclarationName(String),
    IllegalDeclaration { declaration_name: String, illegal_context: &'static str },
    /// The value of a declaration is not of the form that its property takes.
    InvalidDeclarationValue(String),
    /// A property that must be set is set by no rule that applies.
    MissingDeclaration(MapCssDeclarationProperty),
}

/// The name of a property, as it is written in this library.
pub open spec fn property_name(property: MapCssDeclarationProperty) -> Seq<char> {
    match property {
        MapCssDeclarationProperty::Title => "Title"@,
        MapCssDeclarationProperty::Version => "Version"@,
        MapCssDeclarationProperty::Description => "Description"@,
        MapCssDeclarationProperty::Acknowledgement => "Acknowledgement"@,
        MapCssDeclarationProperty::DefaultLines => "DefaultLines"@,
        MapCssDeclarationProperty::DefaultPoints => "DefaultPoints"@,
        MapCssDeclarationProperty::Linecap => "Linecap"@,
        MapCssDeclarationProperty::Linejoin => "Linejoin"@,
        MapCssDeclarationProperty::AllowOverlap => "AllowOverlap"@,
        MapCssDeclarationProperty::Dashes => "Dashes"@,
        MapCssDeclarationProperty::Text => "Text"@,
        MapCssDeclarationProperty::TextColor => "TextColor"@,
        MapCssDeclarationProperty::TextPosition => "TextPosition"@,
        MapCssDeclarationProperty::TextHaloColor => "TextHaloColor"@,
        MapCssDeclarationProperty::TextHaloRadius => "TextHaloRadius"@,
        MapCssDeclarationProperty::TextWrapWidth => "TextWrapWidth"@,
        MapCssDeclarationProperty::TextSpacing => "TextSpacing"@,
        MapCssDeclarationProperty::BackgroundColor => "BackgroundColor"@,
        MapCssDeclarationProperty::Color => "Color"@,
        MapCssDeclarationProperty::FontSize => "FontSize"@,
        MapCssDeclarationProperty::FontColor => "FontColor"@,
        MapCssDeclarationProperty::FontFamily => "FontFamily"@,
        MapCssDeclarationProperty::IconImage => "IconImage"@,
        MapCssDeclarationProperty::PatternImage => "PatternImage"@,
        MapCssDeclarationProperty::Opacity => "Opacity"@,
        MapCssDeclarationProperty::FillOpacity => "FillOpacity"@,
        MapCssDeclarationProperty::FillColor => "FillColor"@,
        MapCssDeclarationProperty::FillImage => "FillImage"@,
        MapCssDeclarationProperty::Width => "Width"@,
        MapCssDeclarationProperty::ZIndex => "ZIndex"@,
    }
}

/// The message of an error.
pub open spec fn error_text(error: MapCssError) -> Seq<char> {
    match error {
        MapCssError::UnknownDeclarationName(name) => "Dropped unknown declaration name \""@ + name@
            + "\"."@,
        MapCssError::IllegalDeclaration { declaration_name, illegal_context } => "Declaration "@
            + declaration_name@ + " must not appear in "@ + illegal_context@
            + " block! Block dropped."@,
        MapCssError::InvalidDeclarationValue(name) => "Dropped declaration \""@ + name@
            + "\": its value cannot be read."@,
        MapCssError::MissingDeclaration(property) => "Could not find required MapCSS declaration "@
            + property_name(property) + " item."@,
    }
}

fn name_of(property: MapCssDeclarationProperty) -> (name: &'static str)
    ensures
        name@ == property_name(property),
{
    match property {
        MapCssDeclarationProperty::Title => "Title",
        MapCssDeclarationProperty::Version => "Version",
        MapCssDeclarationProperty::Description => "Description",
        MapCssDeclarationProperty::Acknowledgement => "Acknowledgement",
        MapCssDeclarationProperty::DefaultLines => "DefaultLines",
        MapCssDeclarationProperty::DefaultPoints => "DefaultPoints",
        MapCssDeclarationProperty::Linecap => "Linecap",
        MapCssDeclarationProperty::Linejoin => "Linejoin",
        MapCssDeclarationProperty::AllowOverlap => "AllowOverlap",
        MapCssDeclarationProperty::Dashes => "Dashes",
        MapCssDeclarationProperty::Text => "Text",
        MapCssDeclarationProperty::TextColor => "TextColor",
        MapCssDeclarationProperty::TextPosition => "TextPosition",
        MapCssDeclarationProperty::TextHaloColor => "TextHaloColor",
        MapCssDeclarationProperty::TextHaloRadius => "TextHaloRadius",
        MapCssDeclarationProperty::TextWrapWidth => "TextWrapWidth",
        MapCssDeclarationProperty::TextSpacing => "TextSpacing",
        MapCssDeclarationProperty::BackgroundColor => "BackgroundColor",
        MapCssDeclarationProperty::Color => "Color",
        MapCssDeclarationProperty::FontSize => "FontSize",
        MapCssDeclarationProperty::FontColor => "FontColor",
        MapCssDeclarationProperty::FontFamily => "FontFamily",
        MapCssDeclarationProperty::IconImage => "IconImage",
        MapCssDeclarationProperty::PatternImage => "PatternImage",
        MapCssDeclarationProperty::Opacity => "Opacity",
        MapCssDeclarationProperty::FillOpacity => "FillOpacity",
        MapCssDeclarationProperty::FillColor => "FillColor",
        MapCssDeclarationProperty::FillImage => "FillImage",
        MapCssDeclarationProperty::Width => "Width",
        MapCssDeclarationProperty::ZIndex => "ZIndex",
    }
}

impl MapCssError {
    /// The message of the error.
    pub fn to_string(&self) -> (text: String)
        ensures
            text@ == error_text(*self),
    {
        match self {
            MapCssError::UnknownDeclarationName(declaration_name) => {
                let mut text = "Dropped unknown declaration name \"".to_owned();
                text.append(declaration_name.as_str());
                text.append("\".");
                text
            },
            MapCssError::IllegalDeclaration { declaration_name, illegal_context } => {
                let mut text = "Declaration ".to_owned();
                text.append(declaration_name.as_str());
                text.append(" must not appear in ");
                text.append(illegal_context);
                text.append(" block! Block dropped.");
                text
            },
            MapCssError::InvalidDeclarationValue(declaration_name) => {
                let mut text = "Dropped declaration \"".to_owned();
                text.append(declaration_name.as_str());
                text.append("\": its value cannot be read.");
                text
            },
            MapCssError::MissingDeclaration(property) => {
                let mut text = "Could not find required MapCSS declaration ".to_owned();
                text.append(name_of(*property));
                text.append(" item.");
                text
            },
        }
    }
}

} // verus!
