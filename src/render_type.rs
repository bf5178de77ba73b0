//! The kinds of picture that a skin-image request can ask for.
use vstd::prelude::*;

verus! {

/// What to draw from a skin image.
#[derive(Clone, Copy, Debug, PartialEq, Eq, Structural)]
pub enum RenderType {
    Avatar,
    Helm,
    Cube,
    Body,
    Bust,
    Cape,
}

/// The render type that a request names, by its lowercase name.
pub open spec fn render_type_named(s: Seq<char>) -> Option<RenderType> {
    if s == "avatar"@ {
        Some(RenderType::Avatar)
    } else if s == "helm"@ {
        Some(RenderType::Helm)
    } else if s == "cube"@ {
        Some(RenderType::Cube)
    } else if s == "body"@ {
        Some(RenderType::Body)
    } else if s == "bust"@ {
        Some(RenderType::Bust)
    } else if s == "cape"@ {
        Some(RenderType::Cape)
    } else {
        None
    }
}

pub fn what_to_render_type(what: String) -> (r: Option<RenderType>)
    ensures
        r == render_type_named(what@),
{
    let w = what.as_str();
    if crate::text::str_eq(w, "avatar") {
        Some(RenderType::Avatar)
    } else if crate::text::str_eq(w, "helm") {
        Some(RenderType::Helm)
    } else if crate::text::str_eq(w, "cube") {
        Some(RenderType::Cube)
    } else if crate::text::str_eq(w, "body") {
        Some(RenderType::Body)
    } else if crate::text::str_eq(w, "bust") {
        Some(RenderType::Bust)
    } else if crate::text::str_eq(w, "cape") {
        Some(RenderType::Cape)
    } else {
        None
    }
}

} // verus!
