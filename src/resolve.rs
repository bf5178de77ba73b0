//! From a cosmetic id written `Item.Colour.Variant` to what gets drawn: the
//! variant and colour it names, the model and texture files, and the path of
//! the tint gradient that colours it.
use crate::cosmetics::{
    clone_opt_string, clone_opt_strings, opt_strings, opt_view, CosmeticDefinition, GradientSet,
    TextureVariant,
};
use crate::table::NamedTable;
use crate::text::{camel_to_snake_case, occurs_at, snake_case_of, split_char, split_on, str_eq, str_starts_with, views_of};
use vstd::prelude::*;

verus! {

/// The first of `mods` that is a key of `t`.
pub open spec fn first_key_in<V>(mods: Seq<Seq<char>>, t: NamedTable<V>) -> Option<Seq<char>>
    decreases mods.len(),
{
    if mods.len() == 0 {
        None
    } else if t.has_key(mods[0]) {
        Some(mods[0])
    } else {
        first_key_in(mods.skip(1), t)
    }
}

/// The first of `mods` other than `variant`.
pub open spec fn first_other(mods: Seq<Seq<char>>, variant: Option<Seq<char>>) -> Option<Seq<char>>
    decreases mods.len(),
{
    if mods.len() == 0 {
        None
    } else if Some(mods[0]) != variant {
        Some(mods[0])
    } else {
        first_other(mods.skip(1), variant)
    }
}

/// The variant that the modifiers of an id select: the first one that names a
/// variant of the item.
pub open spec fn selected_variant(def: CosmeticDefinition, mods: Seq<Seq<char>>) -> Option<Seq<char>> {
    match def.variants {
        Some(vs) => first_key_in(mods, vs),
        None => None,
    }
}

/// Split a full cosmetic id at its dots: the item id, then the modifiers
/// (colour and variant names).
pub fn parse_cosmetic_id(id_full: &str) -> (r: (String, Vec<String>))
    ensures
        r.0@ == split_on(id_full@, '.')[0],
        views_of(r.1@) == split_on(id_full@, '.').skip(1),
{
    let mut parts = split_char(id_full, '.');
    let ghost all = parts@;
    let first = parts.remove(0);
    proof {
        assert(views_of(parts@) =~= views_of(all).skip(1));
    }
    (first, parts)
}

/// The variant and the colour that an item's modifiers name: the variant is the
/// first modifier that is one of the item's variants; the colour is the first
/// modifier that is not that variant.
pub fn pick_variant_and_color(def: &CosmeticDefinition, modifiers: &Vec<String>) -> (r: (
    Option<String>,
    Option<String>,
))
    requires
        def.wf(),
    ensures
        opt_view(r.0) == selected_variant(*def, views_of(modifiers@)),
        opt_view(r.1) == first_other(views_of(modifiers@), selected_variant(*def, views_of(modifiers@))),
{
    let ghost mods = views_of(modifiers@);
    proof {
        assert(mods.skip(0) =~= mods);
    }
    let mut variant: Option<String> = None;
    match &def.variants {
        Some(vs) => {
            let mut i: usize = 0;
            let mut found = false;
            while i < modifiers.len() && !found
                invariant
                    vs.wf(),
                    def.variants == Some(*vs),
                    mods == views_of(modifiers@),
                    i <= modifiers@.len(),
                    !found ==> variant is None && first_key_in(mods, *vs) == first_key_in(
                        mods.skip(i as int),
                        *vs,
                    ),
                    found ==> opt_view(variant) == first_key_in(mods, *vs),
                decreases modifiers.len() - i, (if found { 0int } else { 1int }),
            {
                proof {
                    assert(mods.skip(i as int).skip(1) =~= mods.skip(i + 1));
                    assert(mods.skip(i as int)[0] == modifiers@[i as int]@);
                }
                if vs.contains_key(modifiers[i].as_str()) {
                    variant = Some(modifiers[i].clone());
                    found = true;
                } else {
                    i = i + 1;
                }
            }
            proof {
                if !found {
                    assert(mods.skip(i as int).len() == 0);
                }
            }
        },
        None => {},
    }
    let ghost v = selected_variant(*def, mods);
    let mut color: Option<String> = None;
    let mut j: usize = 0;
    let mut found_color = false;
    while j < modifiers.len() && !found_color
        invariant
            mods == views_of(modifiers@),
            opt_view(variant) == v,
            j <= modifiers@.len(),
            !found_color ==> color is None && first_other(mods, v) == first_other(
                mods.skip(j as int),
                v,
            ),
            found_color ==> opt_view(color) == first_other(mods, v),
        decreases modifiers.len() - j, (if found_color { 0int } else { 1int }),
    {
        proof {
            assert(mods.skip(j as int).skip(1) =~= mods.skip(j + 1));
            assert(mods.skip(j as int)[0] == modifiers@[j as int]@);
        }
        let same = match &variant {
            Some(vv) => str_eq(modifiers[j].as_str(), vv.as_str()),
            None => false,
        };
        if !same {
            color = Some(modifiers[j].clone());
            found_color = true;
        } else {
            j = j + 1;
        }
    }
    proof {
        if !found_color {
            assert(mods.skip(j as int).len() == 0);
        }
    }
    (variant, color)
}

pub open spec fn or_else<T>(a: Option<T>, b: Option<T>) -> Option<T> {
    if a is Some {
        a
    } else {
        b
    }
}

/// The model, the colour textures and the greyscale texture of an item, with a
/// selected variant's own values taking precedence over the item's.
pub open spec fn active_parts(def: CosmeticDefinition, variant: Option<Seq<char>>) -> (
    Option<String>,
    Option<NamedTable<TextureVariant>>,
    Option<String>,
) {
    let base = (def.model, def.textures, def.greyscale_texture);
    match (variant, def.variants) {
        (Some(v), Some(vs)) => if vs.has_key(v) {
            let var = vs.value_of(v);
            (
                or_else(var.model, def.model),
                or_else(var.textures, def.textures),
                or_else(var.greyscale_texture, def.greyscale_texture),
            )
        } else {
            base
        },
        _ => base,
    }
}

/// What a colour texture entry gives: its texture and its base colours.
pub open spec fn texture_choice(tv: TextureVariant) -> (Option<Seq<char>>, Option<Seq<String>>) {
    (Some(tv.texture@), opt_strings(tv.base_color))
}

/// The texture to draw and the base colours it was painted from. With a colour:
/// that colour's entry of the texture map, else the greyscale texture. Without:
/// the map's `Black` entry, else its first entry, else the greyscale texture.
pub open spec fn chosen_texture(
    textures: Option<NamedTable<TextureVariant>>,
    greyscale: Option<String>,
    color: Option<Seq<char>>,
) -> (Option<Seq<char>>, Option<Seq<String>>) {
    let fallback = (opt_view(greyscale), None::<Seq<String>>);
    match textures {
        None => fallback,
        Some(map) => match color {
            Some(c) => if map.has_key(c) {
                texture_choice(map.value_of(c))
            } else {
                fallback
            },
            None => if map.has_key("Black"@) {
                texture_choice(map.value_of("Black"@))
            } else if map.entries@.len() > 0 {
                texture_choice(map.entries@[0].1)
            } else {
                fallback
            },
        },
    }
}

/// Model path, texture path and base colours for an item with an optional
/// variant and colour.
pub open spec fn resolved(
    def: CosmeticDefinition,
    variant: Option<Seq<char>>,
    color: Option<Seq<char>>,
) -> (Option<Seq<char>>, Option<Seq<char>>, Option<Seq<String>>) {
    let parts = active_parts(def, variant);
    let tex = chosen_texture(parts.1, parts.2, color);
    (opt_view(parts.0), tex.0, tex.1)
}

pub open spec fn opt_str_view(o: Option<&str>) -> Option<Seq<char>> {
    match o {
        Some(s) => Some(s@),
        None => None,
    }
}

fn pick_texture(tv: &TextureVariant) -> (r: (Option<String>, Option<Vec<String>>))
    ensures
        (opt_view(r.0), opt_strings(r.1)) == texture_choice(*tv),
{
    (Some(tv.texture.clone()), clone_opt_strings(&tv.base_color))
}

/// Decide the model, the texture and its base colours for an item, given the
/// variant and the colour that its id selected.
pub fn resolve_model_and_texture(
    def: &CosmeticDefinition,
    variant_id: Option<&str>,
    color_id: Option<&str>,
) -> (r: (Option<String>, Option<String>, Option<Vec<String>>))
    requires
        def.wf(),
    ensures
        (opt_view(r.0), opt_view(r.1), opt_strings(r.2)) == resolved(
            *def,
            opt_str_view(variant_id),
            opt_str_view(color_id),
        ),
{
    let ghost parts = active_parts(*def, opt_str_view(variant_id));
    let mut model = clone_opt_string(&def.model);
    let mut greyscale = clone_opt_string(&def.greyscale_texture);
    let mut textures: &Option<NamedTable<TextureVariant>> = &def.textures;
    match (variant_id, &def.variants) {
        (Some(vid), Some(vs)) => match vs.get(vid) {
            Some(v) => {
                proof {
                    let k = vs.index_of(vid@);
                    assert(vs.entries@[k].1.wf());
                }
                if v.model.is_some() {
                    model = clone_opt_string(&v.model);
                }
                if v.textures.is_some() {
                    textures = &v.textures;
                }
                if v.greyscale_texture.is_some() {
                    greyscale = clone_opt_string(&v.greyscale_texture);
                }
            },
            None => {},
        },
        _ => {},
    }
    proof {
        assert(model == parts.0);
        assert(*textures == parts.1);
        assert(greyscale == parts.2);
        if variant_id is Some && def.variants is Some {
            let vs = def.variants->0;
            let vid = variant_id->0;
            if vs.has_key(vid@) {
                vs.lemma_index_of(vs.index_of(vid@));
            }
        }
    }
    let ghost want = chosen_texture(parts.1, parts.2, opt_str_view(color_id));
    let tex: (Option<String>, Option<Vec<String>>) = match textures {
        None => (greyscale, None),
        Some(map) => {
            proof {
                assert(map.wf());
            }
            match color_id {
                Some(c) => match map.get(c) {
                    Some(tv) => pick_texture(tv),
                    None => (greyscale, None),
                },
                None => match map.get("Black") {
                    Some(tv) => pick_texture(tv),
                    None => if map.len() > 0 {
                        pick_texture(&map.entries[0].1)
                    } else {
                        (greyscale, None)
                    },
                },
            }
        },
    };
    (model, tex.0, tex.1)
}

/// Path of the gradient image for an item worn as `Item.Colour...`: the
/// colour's texture from the item's gradient set (or the default set) when the
/// catalogue has one, under `TintGradients` of the asset root; otherwise the
/// conventional file `TintGradients/<set>/<Colour_In_Snake_Case>.png`. `None`
/// without an id, for an unknown item, or when neither the item nor the caller
/// names a gradient set.
pub open spec fn gradient_path(
    full: Seq<char>,
    reg: NamedTable<CosmeticDefinition>,
    default_set: Option<Seq<char>>,
    sets: NamedTable<GradientSet>,
    root: Seq<char>,
) -> Option<Seq<char>> {
    let parts = split_on(full, '.');
    let id = parts[0];
    let color = if parts.len() >= 2 {
        parts[1]
    } else {
        parts[0]
    };
    if !reg.has_key(id) {
        None
    } else {
        match or_else(opt_view(reg.value_of(id).gradient_set), default_set) {
            None => None,
            Some(sid) => if sets.has_key(sid) && sets.value_of(sid).gradients.has_key(color)
                && sets.value_of(sid).gradients.value_of(color).texture is Some {
                let tp = sets.value_of(sid).gradients.value_of(color).texture->0@;
                if occurs_at(tp, "TintGradients"@, 0) {
                    Some(root + "/"@ + tp)
                } else {
                    Some(root + "/TintGradients/"@ + tp)
                }
            } else {
                Some(root + "/TintGradients/"@ + sid + "/"@ + snake_case_of(color) + ".png"@)
            },
        }
    }
}

/// Resolve where the gradient image for an item's colour lies under `asset_root`.
pub fn resolve_gradient_texture_path(
    cosmetic_id: Option<&String>,
    registry_map: &NamedTable<CosmeticDefinition>,
    default_set: Option<&str>,
    gradient_sets: &NamedTable<GradientSet>,
    asset_root: &str,
) -> (r: Option<String>)
    requires
        crate::cosmetics::defs_wf(*registry_map),
        crate::cosmetics::sets_wf(*gradient_sets),
    ensures
        opt_view(r) == match cosmetic_id {
            None => None,
            Some(full) => gradient_path(
                full@,
                *registry_map,
                opt_str_view(default_set),
                *gradient_sets,
                asset_root@,
            ),
        },
{
    let full = match cosmetic_id {
        Some(f) => f,
        None => return None,
    };
    let parts = split_char(full.as_str(), '.');
    proof {
        assert(views_of(parts@)[0] == parts@[0]@);
    }
    let id: &String = &parts[0];
    let color: &String = if parts.len() >= 2 {
        proof {
            assert(views_of(parts@)[1] == parts@[1]@);
        }
        &parts[1]
    } else {
        &parts[0]
    };
    let def = match registry_map.get(id.as_str()) {
        Some(d) => d,
        None => return None,
    };
    let set_id: &str = match &def.gradient_set {
        Some(g) => g.as_str(),
        None => match default_set {
            Some(d) => d,
            None => return None,
        },
    };
    match gradient_sets.get(set_id) {
        Some(set) => {
            proof {
                let j = gradient_sets.index_of(set_id@);
                assert(gradient_sets.entries@[j].1.wf());
            }
            match set.gradients.get(color.as_str()) {
                Some(grad) => match &grad.texture {
                    Some(tp) => {
                        let root = String::from_str(asset_root);
                        if str_starts_with(tp.as_str(), "TintGradients") {
                            let p = root.concat("/").concat(tp.as_str());
                            return Some(p);
                        }
                        let p = root.concat("/TintGradients/").concat(tp.as_str());
                        return Some(p);
                    },
                    None => {},
                },
                None => {},
            }
        },
        None => {},
    }
    let file = camel_to_snake_case(color.as_str());
    let p = String::from_str(asset_root).concat("/TintGradients/").concat(set_id).concat("/").concat(
        file.as_str(),
    ).concat(".png");
    Some(p)
}

/// Path of the skin-tone gradient: the last dot-separated part of the body
/// characteristic (`Default.10` gives `10`) names the file.
pub open spec fn skin_tone_path(root: Seq<char>, body: Seq<char>) -> Seq<char> {
    root + "/TintGradients/Skin_Tones/"@ + split_on(body, '.').last() + ".png"@
}

pub fn skin_tone_gradient_path(asset_root: &str, body_characteristic: &str) -> (r: String)
    ensures
        r@ == skin_tone_path(asset_root@, body_characteristic@),
{
    let parts = split_char(body_characteristic, '.');
    let n = parts.len();
    proof {
        assert(views_of(parts@)[n - 1] == parts@[n - 1]@);
    }
    String::from_str(asset_root).concat("/TintGradients/Skin_Tones/").concat(parts[n - 1].as_str()).concat(
        ".png",
    )
}

} // verus!
