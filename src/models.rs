//! The plain enumerations and flags of the blocky model format.
use vstd::prelude::*;

verus! {

/// Kind of primitive that a node's shape draws.
#[derive(Clone, Copy, Debug, PartialEq, Eq, Structural)]
pub enum ShapeType {
    Box,
    Quad,
    /// No primitive: the node draws nothing.
    Empty,
}

/// Axis that a quad faces.
#[derive(Clone, Copy, Debug, PartialEq, Eq, Structural)]
pub enum QuadNormal {
    PosX,
    NegX,
    PosY,
    NegY,
    PosZ,
    NegZ,
}

/// Mirroring of a face's texture rectangle, per axis.
#[derive(Clone, Copy, Debug, PartialEq, Eq, Structural)]
pub struct UvMirror {
    pub x: bool,
    pub y: bool,
}

/// Rotation of a face's texture rectangle, in degrees (0, 90, 180 or 270).
#[derive(Clone, Copy, Debug, PartialEq, Eq, Structural)]
pub struct UvAngle(pub u32);

impl UvAngle {
    pub fn as_degrees(&self) -> (d: u32)
        ensures
            d == self.0,
    {
        self.0
    }
}

/// Easing between two keyframes.
#[derive(Clone, Copy, Debug, PartialEq, Eq, Structural)]
pub enum InterpolationType {
    Smooth,
    Linear,
    Step,
}

impl Default for InterpolationType {
    fn default() -> (r: InterpolationType)
        ensures
            r == InterpolationType::Smooth,
    {
        InterpolationType::Smooth
    }
}

/// A keyframe that shows or hides a node from `time` on.
#[derive(Clone, Copy, Debug, PartialEq, Eq, Structural)]
pub struct VisibilityKeyframe {
    pub time: u32,
    pub delta: bool,
    pub interpolation_type: InterpolationType,
}

} // verus!
