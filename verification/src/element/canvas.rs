//! The canvas as an element: what stylesheets address as `canvas`.

use crate::data::{ElementData, ElementID, ElementModel};
use crate::mapcss::declaration::{
    cascade, unsupported_for, DeclarationGroupView, MapCssDeclarationList,
    MapCssDeclarationProperty, RenderSession, RGBA,
};
use vstd::prelude::*;

verus! {

#[derive(Debug)]
pub struct CanvasElement {}

/// The canvas as style resolution sees it: no tags, never a closed path.
pub open spec fn canvas_model() -> ElementModel {
    ElementModel { id: ElementID::Canvas, closed: false, tags: Seq::empty() }
}

/// The color of a canvas before anything is drawn: its resolved fill color,
/// or white where none is resolved.
pub open spec fn background_for(groups: Seq<DeclarationGroupView>) -> RGBA {
    match cascade(groups, canvas_model(), MapCssDeclarationProperty::FillColor) {
        Some(value) => match value.color_value() {
            Some(color) => color,
            None => RGBA { red: 255, green: 255, blue: 255, alpha: 255 },
        },
        None => RGBA { red: 255, green: 255, blue: 255, alpha: 255 },
    }
}

impl From<CanvasElement> for ElementID {
    fn from(val: CanvasElement) -> (id: Self) {
        ElementID::Canvas
    }
}

impl vstd::std_specs::convert::FromSpecImpl<CanvasElement> for ElementID {
    open spec fn obeys_from_spec() -> bool {
        true
    }

    open spec fn from_spec(val: CanvasElement) -> Self {
        ElementID::Canvas
    }
}

impl ElementData for CanvasElement {
    open spec fn model(&self) -> ElementModel {
        canvas_model()
    }

    fn tags(&self) -> (tags: &[(String, String)]) {
        let tags: &[(String, String)] = &[];
        assert(crate::data::tag_model(tags@) =~= Seq::empty());
        tags
    }

    fn id(&self) -> (id: ElementID) {
        ElementID::Canvas
    }

    fn has_closed_path(&self) -> (closed: bool) {
        false
    }
}

impl CanvasElement {
    pub fn background_color(
        self,
        mapcss_declarations: &MapCssDeclarationList,
        session: &mut RenderSession,
    ) -> (color: RGBA)
        ensures
            color == background_for(mapcss_declarations@),
            *final(session) == old(session).join(
                unsupported_for(mapcss_declarations@, canvas_model()),
            ),
    {
        let white = RGBA { red: 255, green: 255, blue: 255, alpha: 255 };
        match mapcss_declarations.search_cascading(
            &self,
            &MapCssDeclarationProperty::FillColor,
            session,
        ) {
            Some(value) => match value.as_color() {
                Some(color) => color,
                None => white,
            },
            None => white,
        }
    }
}

} // verus!
