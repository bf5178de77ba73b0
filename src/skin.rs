//! A character's skin settings (which item, in which colour, on each body part)
//! and the tint gradient files they resolve to.
use crate::cosmetics::{defs_wf, opt_view, CosmeticDefinition, CosmeticRegistry};
use crate::resolve::or_else;
use crate::table::NamedTable;
use crate::text::{camel_to_snake_case, occurs_at, snake_case_of, split_char, split_on, str_starts_with, views_of};
use vstd::prelude::*;

verus! {

/// The settings of one character, each an id such as `WavyShort.BrownDark`.
#[derive(Clone, Debug)]
pub struct SkinData {
    /// Body and skin tone, such as `Default.10`.
    pub body_characteristic: String,
    pub underwear: Option<String>,
    pub face: Option<String>,
    pub ears: Option<String>,
    pub mouth: Option<String>,
    pub haircut: Option<String>,
    pub facial_hair: Option<String>,
    pub eyebrows: Option<String>,
    pub eyes: Option<String>,
    pub pants: Option<String>,
    pub overpants: Option<String>,
    pub undertop: Option<String>,
    pub overtop: Option<String>,
    pub shoes: Option<String>,
    pub head_accessory: Option<String>,
    pub face_accessory: Option<String>,
    pub ear_accessory: Option<String>,
    pub skin_feature: Option<String>,
    pub gloves: Option<String>,
    pub cape: Option<String>,
}

/// A skin configuration file's content.
#[derive(Clone, Debug)]
pub struct SkinConfig {
    pub skin: SkinData,
}

/// Paths of the tint gradients that a skin configuration asks for.
#[derive(Clone, Debug)]
pub struct ResolvedTints {
    pub base_path: String,
    pub skin_tone: String,
    pub eye_color: Option<String>,
    pub hair_color: Option<String>,
    pub underwear_color: Option<String>,
    pub face_accessory_color: Option<String>,
    pub cape_color: Option<String>,
    pub gloves_color: Option<String>,
    pub head_accessory_color: Option<String>,
    pub overpants_color: Option<String>,
    pub overtop_color: Option<String>,
    pub pants_color: Option<String>,
    pub shoes_color: Option<String>,
    pub undertop_color: Option<String>,
}

/// What `Path::join` gives, as text, for two paths (under the path syntax of
/// the target the library is built for).
pub uninterp spec fn joined_path(base: Seq<char>, child: Seq<char>) -> Seq<char>;

/// What `Path::ends_with` answers (whole trailing components, under the
/// target's path syntax).
pub uninterp spec fn path_ends_with(path: Seq<char>, child: Seq<char>) -> bool;

/// What `Path::parent` gives, as text (under the target's path syntax).
pub uninterp spec fn parent_path(path: Seq<char>) -> Option<Seq<char>>;

/// Relies on `Path::join`: the joined path depends on the two paths alone, and
/// paths made from text stay text.
#[verifier::external_body]
fn path_join(base: &str, child: &str) -> (r: String)
    ensures
        r@ == joined_path(base@, child@),
{
    std::path::Path::new(base).join(child).to_string_lossy().into_owned()
}

/// Relies on `Path::ends_with`: the answer depends on the two paths alone.
#[verifier::external_body]
fn path_has_suffix(path: &str, child: &str) -> (r: bool)
    ensures
        r == path_ends_with(path@, child@),
{
    std::path::Path::new(path).ends_with(child)
}

/// Relies on `Path::parent`: the parent depends on the path alone.
#[verifier::external_body]
fn path_parent(path: &str) -> (r: Option<String>)
    ensures
        opt_view(r) == parent_path(path@),
{
    match std::path::Path::new(path).parent() {
        Some(p) => Some(p.to_string_lossy().into_owned()),
        None => None,
    }
}

/// The gradient file for an item worn as `Item.Colour...`, under `base`: the
/// colour's texture in the item's gradient set (or the default set) when the
/// catalogue lists one, without doubling a `TintGradients` directory; else the
/// file `<set>/<Colour_In_Snake_Case>.png`. `None` for an unknown item or when
/// no gradient set applies.
pub open spec fn tint_path(
    full: Seq<char>,
    map: NamedTable<CosmeticDefinition>,
    default_set: Option<Seq<char>>,
    reg: CosmeticRegistry,
    base: Seq<char>,
) -> Option<Seq<char>> {
    let parts = split_on(full, '.');
    let id = parts[0];
    let color = if parts.len() >= 2 {
        parts[1]
    } else {
        parts[0]
    };
    if !map.has_key(id) {
        None
    } else {
        match or_else(opt_view(map.value_of(id).gradient_set), default_set) {
            None => None,
            Some(sid) => {
                let sets = reg.gradient_sets;
                if sets.has_key(sid) && sets.value_of(sid).gradients.has_key(color)
                    && sets.value_of(sid).gradients.value_of(color).texture is Some {
                    let tp = sets.value_of(sid).gradients.value_of(color).texture->0@;
                    if path_ends_with(base, "TintGradients"@) && occurs_at(tp, "TintGradients"@, 0)
                        && parent_path(base) is Some {
                        Some(joined_path(parent_path(base)->0, tp))
                    } else {
                        Some(joined_path(base, tp))
                    }
                } else {
                    Some(joined_path(joined_path(base, sid), snake_case_of(color) + ".png"@))
                }
            },
        }
    }
}

pub open spec fn opt_tint_path(
    id: Option<String>,
    map: NamedTable<CosmeticDefinition>,
    default_set: Option<Seq<char>>,
    reg: CosmeticRegistry,
    base: Seq<char>,
) -> Option<Seq<char>> {
    match id {
        Some(full) => tint_path(full@, map, default_set, reg, base),
        None => None,
    }
}

fn resolve_gradient_set(
    cosmetic_id: &Option<String>,
    registry_map: &NamedTable<CosmeticDefinition>,
    default_set: Option<&str>,
    registry: &CosmeticRegistry,
    base_path: &str,
) -> (r: Option<String>)
    requires
        defs_wf(*registry_map),
        registry.wf(),
    ensures
        opt_view(r) == opt_tint_path(
            *cosmetic_id,
            *registry_map,
            crate::resolve::opt_str_view(default_set),
            *registry,
            base_path@,
        ),
{
    let full = match cosmetic_id {
        Some(f) => f,
        None => return None,
    };
    let parts = split_char(full.as_str(), '.');
    proof {
        assert(views_of(parts@)[0] == parts@[0]@);
    }
    let id: &String = &parts[0];
    let color: &String = if parts.len() >= 2 {
        proof {
            assert(views_of(parts@)[1] == parts@[1]@);
        }
        &parts[1]
    } else {
        &parts[0]
    };
    let def = match registry_map.get(id.as_str()) {
        Some(d) => d,
        None => return None,
    };
    let set_id: &str = match &def.gradient_set {
        Some(g) => g.as_str(),
        None => match default_set {
            Some(d) => d,
            None => return None,
        },
    };
    let color_file = camel_to_snake_case(color.as_str());
    match registry.gradient_sets.get(set_id) {
        Some(set) => {
            proof {
                let j = registry.gradient_sets.index_of(set_id@);
                assert(registry.gradient_sets.entries@[j].1.wf());
            }
            match set.gradients.get(color.as_str()) {
                Some(grad) => match &grad.texture {
                    Some(tp) => {
                        if path_has_suffix(base_path, "TintGradients") && str_starts_with(
                            tp.as_str(),
                            "TintGradients",
                        ) {
                            match path_parent(base_path) {
                                Some(parent) => {
                                    return Some(path_join(parent.as_str(), tp.as_str()));
                                },
                                None => {},
                            }
                        }
                        return Some(path_join(base_path, tp.as_str()));
                    },
                    None => {},
                },
                None => {},
            }
        },
        None => {},
    }
    let dir = path_join(base_path, set_id);
    let file = color_file.concat(".png");
    Some(path_join(dir.as_str(), file.as_str()))
}

/// The skin-tone file: the last dot-separated part of the body characteristic
/// names it (`Default.10` gives `Skin_Tones/10.png`).
pub open spec fn skin_tone_file(base: Seq<char>, body: Seq<char>) -> Seq<char> {
    joined_path(joined_path(base, "Skin_Tones"@), split_on(body, '.').last() + ".png"@)
}

impl ResolvedTints {
    /// Resolve the gradient files of a skin configuration under `base_path`:
    /// eyes default to the `Eyes` set, haircuts to `Hair`, underwear to
    /// `Colored_Cotton`; the other parts use their item's own set.
    pub fn from_skin_config(
        config: &SkinConfig,
        base_path: &str,
        registry: &CosmeticRegistry,
    ) -> (t: ResolvedTints)
        requires
            registry.wf(),
        ensures
            t.base_path@ == base_path@,
            t.skin_tone@ == skin_tone_file(base_path@, config.skin.body_characteristic@),
            opt_view(t.eye_color) == opt_tint_path(
                config.skin.eyes,
                registry.eyes,
                Some("Eyes"@),
                *registry,
                base_path@,
            ),
            opt_view(t.hair_color) == opt_tint_path(
                config.skin.haircut,
                registry.haircuts,
                Some("Hair"@),
                *registry,
                base_path@,
            ),
            opt_view(t.underwear_color) == opt_tint_path(
                config.skin.underwear,
                registry.underwear,
                Some("Colored_Cotton"@),
                *registry,
                base_path@,
            ),
            opt_view(t.face_accessory_color) == opt_tint_path(
                config.skin.face_accessory,
                registry.face_accessories,
                None,
                *registry,
                base_path@,
            ),
            opt_view(t.cape_color) == opt_tint_path(
                config.skin.cape,
                registry.capes,
                None,
                *registry,
                base_path@,
            ),
            opt_view(t.gloves_color) == opt_tint_path(
                config.skin.gloves,
                registry.gloves,
                None,
                *registry,
                base_path@,
            ),
            opt_view(t.head_accessory_color) == opt_tint_path(
                config.skin.head_accessory,
                registry.head_accessories,
                None,
                *registry,
                base_path@,
            ),
            opt_view(t.overpants_color) == opt_tint_path(
                config.skin.overpants,
                registry.overpants,
                None,
                *registry,
                base_path@,
            ),
            opt_view(t.overtop_color) == opt_tint_path(
                config.skin.overtop,
                registry.overtops,
                None,
                *registry,
                base_path@,
            ),
            opt_view(t.pants_color) == opt_tint_path(
                config.skin.pants,
                registry.pants,
                None,
                *registry,
                base_path@,
            ),
            opt_view(t.shoes_color) == opt_tint_path(
                config.skin.shoes,
                registry.shoes,
                None,
                *registry,
                base_path@,
            ),
            opt_view(t.undertop_color) == opt_tint_path(
                config.skin.undertop,
                registry.undertops,
                None,
                *registry,
                base_path@,
            ),
    {
        let s = &config.skin;
        let parts = split_char(s.body_characteristic.as_str(), '.');
        let n = parts.len();
        proof {
            assert(views_of(parts@)[n - 1] == parts@[n - 1]@);
        }
        let tone_dir = path_join(base_path, "Skin_Tones");
        let tone_file = parts[n - 1].clone().concat(".png");
        let skin_tone = path_join(tone_dir.as_str(), tone_file.as_str());
        ResolvedTints {
            base_path: String::from_str(base_path),
            skin_tone,
            eye_color: resolve_gradient_set(&s.eyes, &registry.eyes, Some("Eyes"), registry, base_path),
            hair_color: resolve_gradient_set(
                &s.haircut,
                &registry.haircuts,
                Some("Hair"),
                registry,
                base_path,
            ),
            underwear_color: resolve_gradient_set(
                &s.underwear,
                &registry.underwear,
                Some("Colored_Cotton"),
                registry,
                base_path,
            ),
            face_accessory_color: resolve_gradient_set(
                &s.face_accessory,
                &registry.face_accessories,
                None,
                registry,
                base_path,
            ),
            cape_color: resolve_gradient_set(&s.cape, &registry.capes, None, registry, base_path),
            gloves_color: resolve_gradient_set(&s.gloves, &registry.gloves, None, registry, base_path),
            head_accessory_color: resolve_gradient_set(
                &s.head_accessory,
                &registry.head_accessories,
                None,
                registry,
                base_path,
            ),
            overpants_color: resolve_gradient_set(
                &s.overpants,
                &registry.overpants,
                None,
                registry,
                base_path,
            ),
            overtop_color: resolve_gradient_set(&s.overtop, &registry.overtops, None, registry, base_path),
            pants_color: resolve_gradient_set(&s.pants, &registry.pants, None, registry, base_path),
            shoes_color: resolve_gradient_set(&s.shoes, &registry.shoes, None, registry, base_path),
            undertop_color: resolve_gradient_set(
                &s.undertop,
                &registry.undertops,
                None,
                registry,
                base_path,
            ),
        }
    }
}

} // verus!
