//! Hair culling under head accessories: which hair faces a covering accessory
//! hides, and their removal from a tracked range of the face list.
use crate::cosmetics::{opt_view, CosmeticDefinition};
use crate::text::{has_substring, str_contains, str_eq};
use vstd::prelude::*;

verus! {

/// How much of the hair a head accessory hides.
#[derive(Clone, Copy, Debug, PartialEq, Eq, Structural)]
pub enum HeadAccessoryCulling {
    /// A simple accessory: all hair stays.
    Simple,
    /// Hair tops go; the base, sides, back and front strands stay.
    HalfCovering,
    /// Only the hair base stays.
    FullyCovering,
    /// All hair goes.
    DisableHair,
}

/// A face of the render list with the name of the node it came from; `face`
/// holds the geometry and shading data.
#[derive(Clone, Debug)]
pub struct TintedFace<G> {
    pub face: G,
    pub node_name: Option<String>,
}

/// The culling mode of a head accessory: `DisableHair` when it hides the
/// `Haircut` category, else as its accessory type says (`FullyCovering`,
/// `HalfCovering`), else `Simple`.
pub open spec fn culling_of(def: CosmeticDefinition) -> HeadAccessoryCulling {
    if opt_view(def.disable_character_part_category) == Some("Haircut"@) {
        HeadAccessoryCulling::DisableHair
    } else if opt_view(def.head_accessory_type) == Some("FullyCovering"@) {
        HeadAccessoryCulling::FullyCovering
    } else if opt_view(def.head_accessory_type) == Some("HalfCovering"@) {
        HeadAccessoryCulling::HalfCovering
    } else {
        HeadAccessoryCulling::Simple
    }
}

fn opt_str_is(o: &Option<String>, s: &str) -> (b: bool)
    ensures
        b == (opt_view(*o) == Some(s@)),
{
    match o {
        Some(v) => str_eq(v.as_str(), s),
        None => false,
    }
}

/// The culling mode that a head accessory asks for.
pub fn culling_for_accessory(def: &CosmeticDefinition) -> (c: HeadAccessoryCulling)
    ensures
        c == culling_of(*def),
{
    if opt_str_is(&def.disable_character_part_category, "Haircut") {
        HeadAccessoryCulling::DisableHair
    } else if opt_str_is(&def.head_accessory_type, "FullyCovering") {
        HeadAccessoryCulling::FullyCovering
    } else if opt_str_is(&def.head_accessory_type, "HalfCovering") {
        HeadAccessoryCulling::HalfCovering
    } else {
        HeadAccessoryCulling::Simple
    }
}

/// Whether a hair part named `n` stays under the given mode.
pub open spec fn keeps_hair_part(n: Seq<char>, mode: HeadAccessoryCulling) -> bool {
    match mode {
        HeadAccessoryCulling::FullyCovering => has_substring(n, "HairBase"@) || n == "Base"@,
        HeadAccessoryCulling::HalfCovering => has_substring(n, "HairBase"@) || n == "Base"@
            || !has_substring(n, "Top"@),
        _ => true,
    }
}

pub fn keep_hair_part(name: &str, mode: HeadAccessoryCulling) -> (b: bool)
    ensures
        b == keeps_hair_part(name@, mode),
{
    match mode {
        HeadAccessoryCulling::FullyCovering => str_contains(name, "HairBase") || str_eq(
            name,
            "Base",
        ),
        HeadAccessoryCulling::HalfCovering => {
            if str_contains(name, "HairBase") || str_eq(name, "Base") {
                return true;
            }
            !str_contains(name, "Top")
        },
        _ => true,
    }
}

/// Faces without a node name always stay.
pub open spec fn keeps_face<G>(f: TintedFace<G>, mode: HeadAccessoryCulling) -> bool {
    match f.node_name {
        Some(n) => keeps_hair_part(n@, mode),
        None => true,
    }
}

/// The faces of `s` that stay under `mode`, in order.
pub open spec fn culled<G>(s: Seq<TintedFace<G>>, mode: HeadAccessoryCulling) -> Seq<TintedFace<G>>
    decreases s.len(),
{
    if s.len() == 0 {
        Seq::<TintedFace<G>>::empty()
    } else {
        let rest = culled(s.skip(1), mode);
        if keeps_face(s[0], mode) {
            seq![s[0]] + rest
        } else {
            rest
        }
    }
}

/// Remove from `faces[start..end]` the hair faces that the mode hides; faces
/// outside the range, and their order, stay as they are.
pub fn apply_hair_culling_to_range<G>(
    faces: &mut Vec<TintedFace<G>>,
    start_index: usize,
    end_index: usize,
    culling_mode: &HeadAccessoryCulling,
)
    requires
        start_index <= end_index <= old(faces)@.len(),
    ensures
        final(faces)@ == old(faces)@.subrange(0, start_index as int) + culled(
            old(faces)@.subrange(start_index as int, end_index as int),
            *culling_mode,
        ) + old(faces)@.subrange(end_index as int, old(faces)@.len() as int),
{
    let ghost orig = faces@;
    let mode = *culling_mode;
    let mut i: usize = end_index;
    proof {
        assert(orig.subrange(end_index as int, end_index as int) =~= Seq::<TintedFace<G>>::empty());
        assert(faces@ =~= orig.subrange(0, i as int) + culled(
            orig.subrange(i as int, end_index as int),
            mode,
        ) + orig.subrange(end_index as int, orig.len() as int));
    }
    while i > start_index
        invariant
            start_index <= i <= end_index <= orig.len(),
            mode == *culling_mode,
            faces@ == orig.subrange(0, i as int) + culled(orig.subrange(i as int, end_index as int), mode)
                + orig.subrange(end_index as int, orig.len() as int),
        decreases i,
    {
        i = i - 1;
        let ghost tail = culled(orig.subrange(i + 1, end_index as int), mode);
        let ghost rest = orig.subrange(end_index as int, orig.len() as int);
        proof {
            let seg = orig.subrange(i as int, end_index as int);
            assert(seg.skip(1) =~= orig.subrange(i + 1, end_index as int));
            assert(seg[0] == orig[i as int]);
            assert(faces@[i as int] == orig[i as int]);
        }
        let remove = match &faces[i].node_name {
            Some(name) => !keep_hair_part(name.as_str(), mode),
            None => false,
        };
        if remove {
            faces.remove(i);
            proof {
                assert(faces@ =~= orig.subrange(0, i as int) + culled(
                    orig.subrange(i as int, end_index as int),
                    mode,
                ) + rest);
            }
        } else {
            proof {
                assert(faces@ =~= orig.subrange(0, i as int) + culled(
                    orig.subrange(i as int, end_index as int),
                    mode,
                ) + rest);
            }
        }
    }
    proof {
        assert(i == start_index);
    }
}

/// Remove `faces[start..end]` altogether.
pub fn remove_range<G>(faces: &mut Vec<TintedFace<G>>, start_index: usize, end_index: usize)
    requires
        start_index <= end_index <= old(faces)@.len(),
    ensures
        final(faces)@ == old(faces)@.subrange(0, start_index as int) + old(faces)@.subrange(
            end_index as int,
            old(faces)@.len() as int,
        ),
{
    let ghost orig = faces@;
    let mut k: usize = start_index;
    proof {
        assert(faces@ =~= orig.subrange(0, start_index as int) + orig.subrange(
            start_index as int,
            orig.len() as int,
        ));
    }
    while k < end_index
        invariant
            start_index <= k <= end_index <= orig.len(),
            faces@ == orig.subrange(0, start_index as int) + orig.subrange(k as int, orig.len() as int),
        decreases end_index - k,
    {
        faces.remove(start_index);
        k = k + 1;
        proof {
            assert(faces@ =~= orig.subrange(0, start_index as int) + orig.subrange(
                k as int,
                orig.len() as int,
            ));
        }
    }
}

/// What a head accessory's culling does to the hair faces `faces[start..end]`:
/// all of them go under `DisableHair`, the hidden parts go under the covering
/// modes, nothing happens for a simple accessory.
pub fn apply_head_accessory_culling<G>(
    faces: &mut Vec<TintedFace<G>>,
    start_index: usize,
    end_index: usize,
    culling_mode: HeadAccessoryCulling,
)
    requires
        start_index <= end_index <= old(faces)@.len(),
    ensures
        final(faces)@ == match culling_mode {
            HeadAccessoryCulling::DisableHair => old(faces)@.subrange(0, start_index as int)
                + old(faces)@.subrange(end_index as int, old(faces)@.len() as int),
            HeadAccessoryCulling::Simple => old(faces)@,
            _ => old(faces)@.subrange(0, start_index as int) + culled(
                old(faces)@.subrange(start_index as int, end_index as int),
                culling_mode,
            ) + old(faces)@.subrange(end_index as int, old(faces)@.len() as int),
        },
{
    match culling_mode {
        HeadAccessoryCulling::DisableHair => remove_range(faces, start_index, end_index),
        HeadAccessoryCulling::FullyCovering | HeadAccessoryCulling::HalfCovering => {
            apply_hair_culling_to_range(faces, start_index, end_index, &culling_mode)
        },
        HeadAccessoryCulling::Simple => {},
    }
}

} // verus!
