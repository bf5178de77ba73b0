//! Which tint gradient colours which body part, chosen by node name.
use crate::text::{has_substring, has_suffix, lowercase_of, str_contains, str_ends_with, to_lowercase};
use crate::tint::{identity_pixels, TintGradient};
use vstd::prelude::*;

verus! {

/// The tint gradients of one character: skin always, the others when the
/// skin settings ask for them.
#[derive(Clone, Debug)]
pub struct TintConfig {
    pub skin: TintGradient,
    pub eyes: Option<TintGradient>,
    pub hair: Option<TintGradient>,
    /// Used for the underwear parts of the body (`...-Suit` nodes).
    pub underwear: Option<TintGradient>,
    pub cape: Option<TintGradient>,
    pub gloves: Option<TintGradient>,
    pub head_accessories: Option<TintGradient>,
    pub overpants: Option<TintGradient>,
    pub overtop: Option<TintGradient>,
    pub pants: Option<TintGradient>,
    pub shoes: Option<TintGradient>,
    pub undertop: Option<TintGradient>,
}

/// The gradient slot that colours a node.
#[derive(Clone, Copy, Debug, PartialEq, Eq, Structural)]
pub enum TintSlot {
    Skin,
    Eyes,
    Hair,
    Underwear,
    Cape,
}

/// The tint-by-part-name rule. Eye backgrounds and sclera stay untinted (their
/// lowercase name holds `background` or `sclera`); eyes (but not eyelids or
/// eyebrows) take the eye tint, hair and eyebrows the hair tint, `-Suit` parts
/// the underwear tint and capes the cape tint, each when it is set; everything
/// else takes the skin tint.
pub open spec fn tint_slot(cfg: TintConfig, n: Seq<char>) -> Option<TintSlot> {
    let low = lowercase_of(n);
    if has_substring(low, "background"@) || has_substring(low, "sclera"@) {
        None
    } else if has_substring(n, "Eye"@) && !has_substring(n, "Eyelid"@) && !has_substring(
        n,
        "Eyebrow"@,
    ) && cfg.eyes is Some {
        Some(TintSlot::Eyes)
    } else if (has_substring(n, "Hair"@) || has_substring(n, "Eyebrow"@)) && cfg.hair is Some {
        Some(TintSlot::Hair)
    } else if has_suffix(n, "-Suit"@) && cfg.underwear is Some {
        Some(TintSlot::Underwear)
    } else if has_substring(n, "Cape"@) && cfg.cape is Some {
        Some(TintSlot::Cape)
    } else {
        Some(TintSlot::Skin)
    }
}

impl TintConfig {
    /// The gradient in a slot (the slot is set).
    pub open spec fn slot_gradient(&self, s: TintSlot) -> TintGradient {
        match s {
            TintSlot::Skin => self.skin,
            TintSlot::Eyes => self.eyes->0,
            TintSlot::Hair => self.hair->0,
            TintSlot::Underwear => self.underwear->0,
            TintSlot::Cape => self.cape->0,
        }
    }

    /// A configuration with only a skin tint.
    pub fn with_skin(skin: TintGradient) -> (c: TintConfig)
        ensures
            c.skin == skin,
            c.eyes is None && c.hair is None && c.underwear is None && c.cape is None,
            c.gloves is None && c.head_accessories is None && c.overpants is None,
            c.overtop is None && c.pants is None && c.shoes is None && c.undertop is None,
    {
        TintConfig {
            skin,
            eyes: None,
            hair: None,
            underwear: None,
            cape: None,
            gloves: None,
            head_accessories: None,
            overpants: None,
            overtop: None,
            pants: None,
            shoes: None,
            undertop: None,
        }
    }

    /// The gradient that colours the node named `node_name`, if any.
    pub fn get_tint_for_node(&self, node_name: &str) -> (r: Option<&TintGradient>)
        ensures
            r is Some <==> tint_slot(*self, node_name@) is Some,
            r matches Some(g) ==> *g == self.slot_gradient(tint_slot(*self, node_name@)->0),
    {
        let lower = to_lowercase(node_name);
        if str_contains(lower.as_str(), "background") || str_contains(lower.as_str(), "sclera") {
            return None;
        }
        if str_contains(node_name, "Eye") && !str_contains(node_name, "Eyelid") && !str_contains(
            node_name,
            "Eyebrow",
        ) {
            match &self.eyes {
                Some(eyes) => return Some(eyes),
                None => {},
            }
        }
        if str_contains(node_name, "Hair") || str_contains(node_name, "Eyebrow") {
            match &self.hair {
                Some(hair) => return Some(hair),
                None => {},
            }
        }
        if str_ends_with(node_name, "-Suit") {
            match &self.underwear {
                Some(underwear) => return Some(underwear),
                None => {},
            }
        }
        if str_contains(node_name, "Cape") {
            match &self.cape {
                Some(cape) => return Some(cape),
                None => {},
            }
        }
        Some(&self.skin)
    }
}

impl Default for TintConfig {
    /// The identity skin tint and nothing else.
    fn default() -> (c: TintConfig)
        ensures
            c.skin.pixels@ == identity_pixels(),
            !c.skin.inverted,
            c.eyes is None && c.hair is None && c.underwear is None && c.cape is None,
            c.gloves is None && c.head_accessories is None && c.overpants is None,
            c.overtop is None && c.pants is None && c.shoes is None && c.undertop is None,
    {
        TintConfig::with_skin(TintGradient::identity())
    }
}

} // verus!
