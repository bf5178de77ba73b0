//! The combinatorial side of frustum clipping: the order of the planes, and
//! which vertices and edge intersections Sutherland–Hodgman keeps, in order,
//! once it knows which vertices lie inside a plane.
use vstd::prelude::*;

verus! {

/// A plane of the view frustum in clip space.
#[derive(Clone, Copy, Debug, PartialEq, Eq, Structural)]
pub enum ClipPlane {
    Left,
    Right,
    Bottom,
    Top,
    Near,
    Far,
}

/// The order in which a polygon is clipped: the near plane first, so that every
/// later homogeneous divide sees a positive `w`, then left, right, bottom, top, far.
pub open spec fn clip_order() -> Seq<ClipPlane> {
    seq![
        ClipPlane::Near,
        ClipPlane::Left,
        ClipPlane::Right,
        ClipPlane::Bottom,
        ClipPlane::Top,
        ClipPlane::Far,
    ]
}

pub fn clip_planes_in_order() -> (r: Vec<ClipPlane>)
    ensures
        r@ == clip_order(),
{
    let mut r: Vec<ClipPlane> = Vec::new();
    r.push(ClipPlane::Near);
    r.push(ClipPlane::Left);
    r.push(ClipPlane::Right);
    r.push(ClipPlane::Bottom);
    r.push(ClipPlane::Top);
    r.push(ClipPlane::Far);
    proof {
        assert(r@ =~= clip_order());
    }
    r
}

/// One output vertex of clipping a polygon against a plane: an input vertex
/// kept as it is, or the point where edge `(i, j)` crosses the plane.
#[derive(Clone, Copy, Debug, PartialEq, Eq, Structural)]
pub enum ClipStep {
    Keep(usize),
    Cross(usize, usize),
}

/// What edge `i -> i + 1` (cyclically) contributes: the next vertex when both
/// ends are inside, the crossing when leaving, the crossing and then the next
/// vertex when entering, nothing when both are outside.
pub open spec fn edge_steps(inside: Seq<bool>, i: int) -> Seq<ClipStep> {
    let n = inside.len() as int;
    let j = (i + 1) % n;
    if inside[i] && inside[j] {
        seq![ClipStep::Keep(j as usize)]
    } else if inside[i] && !inside[j] {
        seq![ClipStep::Cross(i as usize, j as usize)]
    } else if !inside[i] && inside[j] {
        seq![ClipStep::Cross(i as usize, j as usize), ClipStep::Keep(j as usize)]
    } else {
        Seq::<ClipStep>::empty()
    }
}

/// The steps of the first `k` edges, in edge order.
pub open spec fn clip_steps(inside: Seq<bool>, k: int) -> Seq<ClipStep>
    decreases k,
{
    if k <= 0 {
        Seq::<ClipStep>::empty()
    } else {
        clip_steps(inside, k - 1) + edge_steps(inside, k - 1)
    }
}

/// Sutherland–Hodgman against one plane, given which vertices lie inside it
/// (signed distance at least zero). A polygon of fewer than three vertices
/// clips to nothing.
pub open spec fn clip_plan(inside: Seq<bool>) -> Seq<ClipStep> {
    if inside.len() < 3 {
        Seq::<ClipStep>::empty()
    } else {
        clip_steps(inside, inside.len() as int)
    }
}

/// Plan the clipping of a polygon against one plane.
pub fn sutherland_hodgman_plan(inside: &Vec<bool>) -> (r: Vec<ClipStep>)
    ensures
        r@ == clip_plan(inside@),
{
    let n = inside.len();
    let mut out: Vec<ClipStep> = Vec::new();
    if n < 3 {
        return out;
    }
    let mut i: usize = 0;
    while i < n
        invariant
            n == inside@.len(),
            n >= 3,
            i <= n,
            out@ == clip_steps(inside@, i as int),
        decreases n - i,
    {
        let j: usize = if i + 1 == n {
            0
        } else {
            i + 1
        };
        proof {
            if i + 1 == n {
                vstd::arithmetic::div_mod::lemma_mod_self_0(n as int);
            } else {
                vstd::arithmetic::div_mod::lemma_small_mod((i + 1) as nat, n as nat);
            }
            assert(j as int == (i as int + 1) % (n as int));
        }
        let ci = inside[i];
        let cj = inside[j];
        let ghost before = out@;
        if ci && cj {
            out.push(ClipStep::Keep(j));
        } else if ci && !cj {
            out.push(ClipStep::Cross(i, j));
        } else if !ci && cj {
            out.push(ClipStep::Cross(i, j));
            out.push(ClipStep::Keep(j));
        }
        proof {
            assert(out@ =~= before + edge_steps(inside@, i as int));
        }
        i = i + 1;
    }
    out
}

/// Whether every vertex lies outside a plane: the polygon can be dropped at once.
pub fn all_outside(inside: &Vec<bool>) -> (r: bool)
    ensures
        r == forall|i: int| 0 <= i < inside@.len() ==> !inside@[i],
{
    let mut i: usize = 0;
    while i < inside.len()
        invariant
            i <= inside@.len(),
            forall|k: int| 0 <= k < i ==> !inside@[k],
        decreases inside.len() - i,
    {
        if inside[i] {
            return false;
        }
        i = i + 1;
    }
    true
}

proof fn lemma_steps_all_inside(inside: Seq<bool>, k: int)
    requires
        inside.len() >= 3,
        0 <= k <= inside.len(),
        forall|i: int| 0 <= i < inside.len() ==> inside[i],
    ensures
        clip_steps(inside, k) == Seq::new(
            k as nat,
            |i: int| ClipStep::Keep(((i + 1) % (inside.len() as int)) as usize),
        ),
    decreases k,
{
    if k > 0 {
        lemma_steps_all_inside(inside, k - 1);
        let n = inside.len() as int;
        assert((k - 1 + 1) % n >= 0);
        assert(inside[(k - 1 + 1) % n]);
        assert(clip_steps(inside, k) =~= Seq::new(
            k as nat,
            |i: int| ClipStep::Keep(((i + 1) % n) as usize),
        ));
    }
}

/// A polygon wholly inside a plane keeps all its vertices, in order, starting
/// from its second one.
pub proof fn lemma_inside_polygon_kept(inside: Seq<bool>)
    requires
        inside.len() >= 3,
        forall|i: int| 0 <= i < inside.len() ==> inside[i],
    ensures
        clip_plan(inside) == Seq::new(
            inside.len(),
            |i: int| ClipStep::Keep(((i + 1) % (inside.len() as int)) as usize),
        ),
{
    lemma_steps_all_inside(inside, inside.len() as int);
}

proof fn lemma_steps_all_outside(inside: Seq<bool>, k: int)
    requires
        inside.len() >= 3,
        0 <= k <= inside.len(),
        forall|i: int| 0 <= i < inside.len() ==> !inside[i],
    ensures
        clip_steps(inside, k) == Seq::<ClipStep>::empty(),
    decreases k,
{
    if k > 0 {
        lemma_steps_all_outside(inside, k - 1);
        let n = inside.len() as int;
        assert(!inside[(k - 1 + 1) % n]);
        assert(clip_steps(inside, k) =~= Seq::<ClipStep>::empty());
    }
}

/// A polygon wholly outside a plane clips to nothing.
pub proof fn lemma_outside_polygon_dropped(inside: Seq<bool>)
    requires
        forall|i: int| 0 <= i < inside.len() ==> !inside[i],
    ensures
        clip_plan(inside).len() == 0,
{
    if inside.len() >= 3 {
        lemma_steps_all_outside(inside, inside.len() as int);
    }
}

/// Keeping a triangle's vertices from its second one, once per plane of the
/// frustum, gives the triangle back in its own order.
pub proof fn lemma_inside_triangle_unchanged<T>(t: Seq<T>)
    requires
        t.len() == 3,
    ensures
        ({
            let rot = |s: Seq<T>| seq![s[1], s[2], s[0]];
            rot(rot(rot(rot(rot(rot(t)))))) == t
        }),
{
    let rot = |s: Seq<T>| seq![s[1], s[2], s[0]];
    let a = rot(t);
    let b = rot(a);
    let c = rot(b);
    assert(c =~= t);
    let d = rot(c);
    let e = rot(d);
    let f = rot(e);
    assert(f =~= c);
}

} // verus!
