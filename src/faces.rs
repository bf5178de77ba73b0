//! Face bookkeeping of the geometry and raster stages: cardinal face names,
//! the texture face a quad uses, the mirrored copy of a double-sided quad,
//! fan triangulation and back-face culling.
use crate::models::QuadNormal;
use vstd::prelude::*;

verus! {

/// The six cardinal faces of a box.
#[derive(Clone, Copy, Debug, PartialEq, Eq, Structural)]
pub enum FaceDir {
    Front,
    Back,
    Left,
    Right,
    Top,
    Bottom,
}

/// The cardinal face names that texture layouts know.
pub open spec fn is_face_name(s: Seq<char>) -> bool {
    s == "front"@ || s == "back"@ || s == "left"@ || s == "right"@ || s == "top"@ || s
        == "bottom"@
}

/// The cardinal face that a name denotes, if any.
pub open spec fn face_dir_of(s: Seq<char>) -> Option<FaceDir> {
    if s == "front"@ {
        Some(FaceDir::Front)
    } else if s == "back"@ {
        Some(FaceDir::Back)
    } else if s == "left"@ {
        Some(FaceDir::Left)
    } else if s == "right"@ {
        Some(FaceDir::Right)
    } else if s == "top"@ {
        Some(FaceDir::Top)
    } else if s == "bottom"@ {
        Some(FaceDir::Bottom)
    } else {
        None
    }
}

/// The texture face for a face name: the name itself when it is one of the six
/// cardinal names, `None` otherwise.
pub fn get_texture_face(face_name: &str) -> (r: Option<&str>)
    ensures
        r is Some <==> is_face_name(face_name@),
        r matches Some(f) ==> f@ == face_name@,
{
    match FaceDir::from_name(face_name) {
        Some(_) => Some(face_name),
        None => None,
    }
}

impl FaceDir {
    /// The cardinal face that a name denotes.
    pub fn from_name(name: &str) -> (r: Option<FaceDir>)
        ensures
            r == face_dir_of(name@),
            r is Some <==> is_face_name(name@),
    {
        if crate::text::str_eq(name, "front") {
            Some(FaceDir::Front)
        } else if crate::text::str_eq(name, "back") {
            Some(FaceDir::Back)
        } else if crate::text::str_eq(name, "left") {
            Some(FaceDir::Left)
        } else if crate::text::str_eq(name, "right") {
            Some(FaceDir::Right)
        } else if crate::text::str_eq(name, "top") {
            Some(FaceDir::Top)
        } else if crate::text::str_eq(name, "bottom") {
            Some(FaceDir::Bottom)
        } else {
            None
        }
    }
}

/// The cardinal face that a quad facing `n` is named after.
pub open spec fn natural_face(n: QuadNormal) -> FaceDir {
    match n {
        QuadNormal::PosX => FaceDir::Right,
        QuadNormal::NegX => FaceDir::Left,
        QuadNormal::PosY => FaceDir::Top,
        QuadNormal::NegY => FaceDir::Bottom,
        QuadNormal::PosZ => FaceDir::Front,
        QuadNormal::NegZ => FaceDir::Back,
    }
}

pub fn quad_natural_face(normal: QuadNormal) -> (f: FaceDir)
    ensures
        f == natural_face(normal),
{
    match normal {
        QuadNormal::PosX => FaceDir::Right,
        QuadNormal::NegX => FaceDir::Left,
        QuadNormal::PosY => FaceDir::Top,
        QuadNormal::NegY => FaceDir::Bottom,
        QuadNormal::PosZ => FaceDir::Front,
        QuadNormal::NegZ => FaceDir::Back,
    }
}

/// The face of the texture layout that a quad samples: its own cardinal face,
/// or `front` when the layout has no entry for its own face but has one for
/// `front`. The quad's geometric normal is not affected.
pub fn quad_texture_face(normal: QuadNormal, has_own_entry: bool, has_front_entry: bool) -> (f:
    FaceDir)
    ensures
        f == (if !has_own_entry && has_front_entry {
            FaceDir::Front
        } else {
            natural_face(normal)
        }),
{
    if !has_own_entry && has_front_entry {
        FaceDir::Front
    } else {
        quad_natural_face(normal)
    }
}

/// The vertices of the back copy of a double-sided quad: the order `[1, 0, 3, 2]`,
/// a horizontal mirror whatever vertex the quad starts at.
pub fn reverse_quad<T: Copy>(v: &Vec<T>) -> (r: Vec<T>)
    requires
        v@.len() == 4,
    ensures
        r@ == seq![v@[1], v@[0], v@[3], v@[2]],
{
    let mut r: Vec<T> = Vec::new();
    r.push(v[1]);
    r.push(v[0]);
    r.push(v[3]);
    r.push(v[2]);
    proof {
        assert(r@ =~= seq![v@[1], v@[0], v@[3], v@[2]]);
    }
    r
}

/// The back copy runs the quad's outline the other way round: read from its
/// second vertex, it visits the quad's vertices `0, 3, 2, 1`.
pub proof fn lemma_back_copy_reverses_winding<T>(s: Seq<T>)
    requires
        s.len() == 4,
    ensures
        ({
            let r = seq![s[1], s[0], s[3], s[2]];
            seq![r[1], r[2], r[3], r[0]] == seq![s[0], s[3], s[2], s[1]]
        }),
{
    let r = seq![s[1], s[0], s[3], s[2]];
    assert(seq![r[1], r[2], r[3], r[0]] =~= seq![s[0], s[3], s[2], s[1]]);
}

/// The triangles of a fan over a convex polygon of `n` vertices:
/// `(0, i, i + 1)` for `i` in `1..n - 1`.
pub open spec fn fan(n: nat) -> Seq<(usize, usize, usize)> {
    if n < 3 {
        Seq::<(usize, usize, usize)>::empty()
    } else {
        Seq::new((n - 2) as nat, |k: int| (0usize, (k + 1) as usize, (k + 2) as usize))
    }
}

/// Triangulate a convex polygon of `n` vertices as a fan from vertex 0.
pub fn fan_triangles(n: usize) -> (r: Vec<(usize, usize, usize)>)
    ensures
        r@ == fan(n as nat),
{
    let mut r: Vec<(usize, usize, usize)> = Vec::new();
    if n < 3 {
        proof {
            assert(r@ =~= fan(n as nat));
        }
        return r;
    }
    let mut i: usize = 1;
    while i < n - 1
        invariant
            n >= 3,
            1 <= i <= n - 1,
            r@ == Seq::new((i - 1) as nat, |k: int| (0usize, (k + 1) as usize, (k + 2) as usize)),
        decreases n - 1 - i,
    {
        r.push((0, i, i + 1));
        i = i + 1;
        proof {
            assert(r@ =~= Seq::new(
                (i - 1) as nat,
                |k: int| (0usize, (k + 1) as usize, (k + 2) as usize),
            ));
        }
    }
    r
}

/// Whether a shape's stretch mirrors its winding: an odd number of negative axes.
pub fn winding_flipped(neg_x: bool, neg_y: bool, neg_z: bool) -> (f: bool)
    ensures
        f == ((neg_x as int + neg_y as int + neg_z as int) % 2 == 1),
{
    let count: u8 = (neg_x as u8) + (neg_y as u8) + (neg_z as u8);
    count % 2 == 1
}

/// Back-face test on the sign of a triangle's screen-space area: a positive area
/// is back-facing, or a negative one when the winding is flipped. A zero area is
/// never back-facing.
pub fn is_backfacing(area_positive: bool, area_negative: bool, flipped: bool) -> (b: bool)
    requires
        !(area_positive && area_negative),
    ensures
        b == (if flipped {
            area_negative
        } else {
            area_positive
        }),
{
    if flipped {
        area_negative
    } else {
        area_positive
    }
}

} // verus!
