//! The stylesheet: selectors, declarations and how they cascade.

use crate::mapcss::declaration::{
    declaration_views, last_value, scan_declarations, value_text, MapCssDeclaration,
    MapCssDeclarationProperty, MapCssDeclarationView,
};
use vstd::prelude::*;

pub mod declaration;
pub mod error;
pub mod parser;
pub mod rule;
pub mod selectors;

verus! {

/// What a stylesheet says of itself in its `meta` block.
#[derive(Debug)]
pub struct MapCssAcknowledgement {
    pub title: String,
    pub version: String,
    pub description: String,
    pub acknowledgement: String,
}

#[derive(Debug)]
pub enum MapCssParseError {
    InvalidSelector,
    CurrentColorInColor,
    /// holds the property name that is unknown
    UnknownPropertyName(String),
    /// holds the expected unit
    InvalidUnit(&'static str),
    OutOfRange,
}

/// The text of the value that the declarations give for `property`; empty
/// where they give none.
pub open spec fn declared_text(
    declarations: Seq<MapCssDeclarationView>,
    property: MapCssDeclarationProperty,
) -> Seq<char> {
    match last_value(declarations, property) {
        Some(value) => value_text(value),
        None => Seq::empty(),
    }
}

fn declared<'a>(declarations: &'a Vec<MapCssDeclaration>, property: MapCssDeclarationProperty) -> (text:
    String)
    ensures
        text@ == declared_text(declaration_views(declarations@), property),
{
    match scan_declarations(declarations, &property) {
        Some(value) => value.to_string(),
        None => String::new(),
    }
}

impl Default for MapCssAcknowledgement {
    fn default() -> (acknowledgement: Self)
        ensures
            acknowledgement.title@.len() == 0,
            acknowledgement.version@.len() == 0,
            acknowledgement.description@.len() == 0,
            acknowledgement.acknowledgement@.len() == 0,
    {
        MapCssAcknowledgement {
            title: String::new(),
            version: String::new(),
            description: String::new(),
            acknowledgement: String::new(),
        }
    }
}

impl MapCssAcknowledgement {
    /// Reads the meta fields from the declarations of a `meta` block: for each
    /// field the text of its last declaration, or nothing.
    pub fn from_declarations(declarations: Vec<MapCssDeclaration>) -> (acknowledgement: Result<
        MapCssAcknowledgement,
        MapCssParseError,
    >)
        ensures
            acknowledgement matches Ok(a) && {
                &&& a.title@ == declared_text(
                    declaration_views(declarations@),
                    MapCssDeclarationProperty::Title,
                )
                &&& a.version@ == declared_text(
                    declaration_views(declarations@),
                    MapCssDeclarationProperty::Version,
                )
                &&& a.description@ == declared_text(
                    declaration_views(declarations@),
                    MapCssDeclarationProperty::Description,
                )
                &&& a.acknowledgement@ == declared_text(
                    declaration_views(declarations@),
                    MapCssDeclarationProperty::Acknowledgement,
                )
            },
    {
        Ok(
            MapCssAcknowledgement {
                title: declared(&declarations, MapCssDeclarationProperty::Title),
                version: declared(&declarations, MapCssDeclarationProperty::Version),
                description: declared(&declarations, MapCssDeclarationProperty::Description),
                acknowledgement: declared(
                    &declarations,
                    MapCssDeclarationProperty::Acknowledgement,
                ),
            },
        )
    }

    pub fn title(&self) -> (title: String)
        ensures
            title@ == self.title@,
    {
        self.title.clone()
    }
}

} // verus!
