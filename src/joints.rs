//! Which parent/child bone pairs form a joint that the spacing correction
//! opens up, when it goes by names.
use crate::text::{has_substring, occurs_at, str_contains, str_starts_with};
use vstd::prelude::*;

verus! {

/// A joint between two leg bones.
#[derive(Clone, Copy, Debug, PartialEq, Eq, Structural)]
pub enum LegJoint {
    PelvisToThigh,
    ThighToCalf,
    CalfToFoot,
}

/// The side of the body a bone name marks with an `R-` or `L-` prefix
/// (`'R'`, `'L'`, or `None` for neither).
pub open spec fn side_of(n: Seq<char>) -> Option<char> {
    if occurs_at(n, "R-"@, 0) {
        Some('R')
    } else if occurs_at(n, "L-"@, 0) {
        Some('L')
    } else {
        None
    }
}

fn side(name: &str) -> (r: Option<char>)
    ensures
        r == side_of(name@),
{
    if str_starts_with(name, "R-") {
        Some('R')
    } else if str_starts_with(name, "L-") {
        Some('L')
    } else {
        None
    }
}

/// The joint that a parent and a child bone form by name: none when both
/// carry a side and the sides differ; else pelvis to thigh, thigh to calf or
/// calf to foot when the names hold those words, checked in that order.
pub open spec fn leg_joint_of(parent: Seq<char>, child: Seq<char>) -> Option<LegJoint> {
    if side_of(parent) is Some && side_of(child) is Some && side_of(parent) != side_of(child) {
        None
    } else if has_substring(parent, "Pelvis"@) && has_substring(child, "Thigh"@) {
        Some(LegJoint::PelvisToThigh)
    } else if has_substring(parent, "Thigh"@) && has_substring(child, "Calf"@) {
        Some(LegJoint::ThighToCalf)
    } else if has_substring(parent, "Calf"@) && has_substring(child, "Foot"@) {
        Some(LegJoint::CalfToFoot)
    } else {
        None
    }
}

/// The joint that two bones form, going by their names.
pub fn leg_joint(parent_name: &str, child_name: &str) -> (r: Option<LegJoint>)
    ensures
        r == leg_joint_of(parent_name@, child_name@),
{
    let ps = side(parent_name);
    let cs = side(child_name);
    if ps.is_some() && cs.is_some() && ps != cs {
        return None;
    }
    if str_contains(parent_name, "Pelvis") && str_contains(child_name, "Thigh") {
        Some(LegJoint::PelvisToThigh)
    } else if str_contains(parent_name, "Thigh") && str_contains(child_name, "Calf") {
        Some(LegJoint::ThighToCalf)
    } else if str_contains(parent_name, "Calf") && str_contains(child_name, "Foot") {
        Some(LegJoint::CalfToFoot)
    } else {
        None
    }
}

/// The key under which a manual spacing for a bone pair is stored:
/// `parent->child`.
pub fn joint_override_key(parent_name: &str, child_name: &str) -> (k: String)
    ensures
        k@ == parent_name@ + "->"@ + child_name@,
{
    String::from_str(parent_name).concat("->").concat(child_name)
}

} // verus!
