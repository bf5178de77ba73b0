use hytale_skin_renderer::uv::{uv_rotation, UvRotation};
use hytale_skin_renderer::joints::{joint_override_key, leg_joint, LegJoint};
use hytale_skin_renderer::clip::{all_outside, clip_planes_in_order, sutherland_hodgman_plan, ClipPlane, ClipStep};
use hytale_skin_renderer::faces::{
    fan_triangles, get_texture_face, is_backfacing, quad_natural_face, quad_texture_face,
    reverse_quad, winding_flipped, FaceDir,
};
use hytale_skin_renderer::models::{InterpolationType, QuadNormal, UvAngle};

#[test]
fn test_face_name_mapping() {
    assert_eq!(get_texture_face("front"), Some("front"));
    assert_eq!(get_texture_face("back"), Some("back"));
    assert_eq!(get_texture_face("left"), Some("left"));
    assert_eq!(get_texture_face("right"), Some("right"));
    assert_eq!(get_texture_face("top"), Some("top"));
    assert_eq!(get_texture_face("bottom"), Some("bottom"));
    assert_eq!(get_texture_face("invalid"), None);
}

#[test]
fn face_names_parse() {
    assert_eq!(FaceDir::from_name("top"), Some(FaceDir::Top));
    assert_eq!(FaceDir::from_name("Front"), None);
    assert_eq!(FaceDir::from_name(""), None);
}

#[test]
fn quad_faces_and_front_fallback() {
    assert_eq!(quad_natural_face(QuadNormal::PosX), FaceDir::Right);
    assert_eq!(quad_natural_face(QuadNormal::NegX), FaceDir::Left);
    assert_eq!(quad_natural_face(QuadNormal::PosY), FaceDir::Top);
    assert_eq!(quad_natural_face(QuadNormal::NegY), FaceDir::Bottom);
    assert_eq!(quad_natural_face(QuadNormal::PosZ), FaceDir::Front);
    assert_eq!(quad_natural_face(QuadNormal::NegZ), FaceDir::Back);
    assert_eq!(quad_texture_face(QuadNormal::PosY, false, true), FaceDir::Front);
    assert_eq!(quad_texture_face(QuadNormal::PosY, true, true), FaceDir::Top);
    assert_eq!(quad_texture_face(QuadNormal::PosY, false, false), FaceDir::Top);
}

#[test]
fn back_copy_vertex_order() {
    assert_eq!(reverse_quad(&vec![10, 11, 12, 13]), vec![11, 10, 13, 12]);
    assert_eq!(reverse_quad(&reverse_quad(&vec![1, 2, 3, 4])), vec![1, 2, 3, 4]);
}

#[test]
fn fan_triangulation() {
    assert!(fan_triangles(2).is_empty());
    assert_eq!(fan_triangles(3), vec![(0, 1, 2)]);
    assert_eq!(fan_triangles(5), vec![(0, 1, 2), (0, 2, 3), (0, 3, 4)]);
}

#[test]
fn clip_order_starts_with_near() {
    assert_eq!(
        clip_planes_in_order(),
        vec![
            ClipPlane::Near,
            ClipPlane::Left,
            ClipPlane::Right,
            ClipPlane::Bottom,
            ClipPlane::Top,
            ClipPlane::Far
        ]
    );
}

#[test]
fn winding_and_backfaces() {
    assert!(!winding_flipped(false, false, false));
    assert!(winding_flipped(true, false, false));
    assert!(!winding_flipped(true, true, false));
    assert!(winding_flipped(true, true, true));
    assert!(is_backfacing(true, false, false));
    assert!(!is_backfacing(false, true, false));
    assert!(is_backfacing(false, true, true));
    assert!(!is_backfacing(false, false, true));
}

#[test]
fn model_flags() {
    assert_eq!(UvAngle(270).as_degrees(), 270);
    assert_eq!(InterpolationType::default(), InterpolationType::Smooth);
}

#[test]
fn clip_plans() {
    assert_eq!(
        sutherland_hodgman_plan(&vec![true, true, true]),
        vec![ClipStep::Keep(1), ClipStep::Keep(2), ClipStep::Keep(0)]
    );
    assert!(sutherland_hodgman_plan(&vec![false, false, false]).is_empty());
    assert!(sutherland_hodgman_plan(&vec![true, true]).is_empty());
    assert_eq!(
        sutherland_hodgman_plan(&vec![true, false, true]),
        vec![
            ClipStep::Cross(0, 1),
            ClipStep::Cross(1, 2),
            ClipStep::Keep(2),
            ClipStep::Keep(0)
        ]
    );
    assert_eq!(
        sutherland_hodgman_plan(&vec![true, false, false, true]),
        vec![
            ClipStep::Cross(0, 1),
            ClipStep::Cross(2, 3),
            ClipStep::Keep(3),
            ClipStep::Keep(0)
        ]
    );
    assert!(all_outside(&vec![false, false, false]));
    assert!(!all_outside(&vec![false, true, false]));
}

#[test]
fn leg_joints_by_name() {
    assert_eq!(leg_joint("Pelvis", "R-Thigh"), Some(LegJoint::PelvisToThigh));
    assert_eq!(leg_joint("R-Thigh", "R-Calf"), Some(LegJoint::ThighToCalf));
    assert_eq!(leg_joint("L-Calf", "L-Foot"), Some(LegJoint::CalfToFoot));
    assert_eq!(leg_joint("R-Thigh", "L-Calf"), None);
    assert_eq!(leg_joint("Chest", "Head"), None);
    assert_eq!(joint_override_key("R-Thigh", "R-Calf"), "R-Thigh->R-Calf");
}

#[test]
fn uv_quarter_turns() {
    let r90 = uv_rotation(UvAngle(90));
    assert_eq!(r90, UvRotation { uu: 0, uv: -1, vu: 1, vv: 0 });
    assert_eq!(uv_rotation(UvAngle(180)), UvRotation { uu: -1, uv: 0, vu: 0, vv: -1 });
    assert_eq!(uv_rotation(UvAngle(270)), UvRotation { uu: 0, uv: 1, vu: -1, vv: 0 });
    assert_eq!(uv_rotation(UvAngle(0)), UvRotation { uu: 1, uv: 0, vu: 0, vv: 1 });
    assert_eq!(uv_rotation(UvAngle(45)), UvRotation { uu: 1, uv: 0, vu: 0, vv: 1 });
    // (rel_u, rel_v) = (-8, -12) under 90 degrees goes to (12, -8)
    let (ru, rv) = (-8i32, -12i32);
    assert_eq!(
        (r90.uu as i32 * ru + r90.uv as i32 * rv, r90.vu as i32 * ru + r90.vv as i32 * rv),
        (12, -8)
    );
}
