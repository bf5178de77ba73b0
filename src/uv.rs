//! The per-angle remap of texture coordinates inside a face's texture
//! rectangle: a quarter-turn rotation about the rectangle's offset.
use crate::models::UvAngle;
use vstd::prelude::*;

verus! {

/// An integer 2x2 matrix taking an offset-relative `(u, v)` to
/// `(uu * u + uv * v, vu * u + vv * v)`.
#[derive(Clone, Copy, Debug, PartialEq, Eq, Structural)]
pub struct UvRotation {
    pub uu: i8,
    pub uv: i8,
    pub vu: i8,
    pub vv: i8,
}

pub open spec fn identity_rotation() -> UvRotation {
    UvRotation { uu: 1, uv: 0, vu: 0, vv: 1 }
}

/// The remap for each angle: 0 degrees keeps the coordinates; 90 swaps the axes,
/// `u` taking `-v` and `v` taking `u`; 180 negates both; 270 undoes 90. Any
/// other angle keeps the coordinates.
pub open spec fn rotation_for(degrees: u32) -> UvRotation {
    if degrees == 90 {
        UvRotation { uu: 0, uv: -1i8, vu: 1, vv: 0 }
    } else if degrees == 180 {
        UvRotation { uu: -1i8, uv: 0, vu: 0, vv: -1i8 }
    } else if degrees == 270 {
        UvRotation { uu: 0, uv: 1, vu: -1i8, vv: 0 }
    } else {
        identity_rotation()
    }
}

/// The remap that a face's texture angle asks for.
pub fn uv_rotation(angle: UvAngle) -> (r: UvRotation)
    ensures
        r == rotation_for(angle.0),
{
    match angle.as_degrees() {
        90 => UvRotation { uu: 0, uv: -1, vu: 1, vv: 0 },
        180 => UvRotation { uu: -1, uv: 0, vu: 0, vv: -1 },
        270 => UvRotation { uu: 0, uv: 1, vu: -1, vv: 0 },
        _ => UvRotation { uu: 1, uv: 0, vu: 0, vv: 1 },
    }
}

/// Applying `b` after `a`.
pub open spec fn compose(b: UvRotation, a: UvRotation) -> (int, int, int, int) {
    (
        b.uu * a.uu + b.uv * a.vu,
        b.uu * a.uv + b.uv * a.vv,
        b.vu * a.uu + b.vv * a.vu,
        b.vu * a.uv + b.vv * a.vv,
    )
}

/// The 270-degree remap undoes the 90-degree one (both ways round), and two
/// 90-degree remaps make the 180-degree one.
pub proof fn lemma_quarter_turns()
    ensures
        compose(rotation_for(270), rotation_for(90)) == (1int, 0int, 0int, 1int),
        compose(rotation_for(90), rotation_for(270)) == (1int, 0int, 0int, 1int),
        compose(rotation_for(90), rotation_for(90)) == ({
            let h = rotation_for(180);
            (h.uu as int, h.uv as int, h.vu as int, h.vv as int)
        }),
{
}

} // verus!
