use hytale_skin_renderer::assets::{AssetProvider, Error, FileAssetProvider, MemoryAssetProvider};
use hytale_skin_renderer::cosmetics::{
    is_hair_node, is_valid_cosmetic_id, table_from_definitions, table_from_gradient_sets,
    CosmeticDefinition, CosmeticRegistry, CosmeticVariant, GradientDefinition, GradientSet,
    TextureVariant,
};
use hytale_skin_renderer::hair::{
    apply_hair_culling_to_range, apply_head_accessory_culling, culling_for_accessory,
    HeadAccessoryCulling, TintedFace,
};
use hytale_skin_renderer::resolve::{
    parse_cosmetic_id, pick_variant_and_color, resolve_gradient_texture_path,
    resolve_model_and_texture, skin_tone_gradient_path,
};
use hytale_skin_renderer::skin::{ResolvedTints, SkinConfig, SkinData};
use hytale_skin_renderer::table::NamedTable;
use std::path::Path;

fn def(id: &str, gradient_set: Option<&str>) -> CosmeticDefinition {
    CosmeticDefinition {
        hair_type: None,
        requires_generic_haircut: None,
        id: id.to_string(),
        name: None,
        model: None,
        greyscale_texture: None,
        gradient_set: gradient_set.map(|s| s.to_string()),
        variants: None,
        textures: None,
        head_accessory_type: None,
        disable_character_part_category: None,
    }
}

fn mock_registry() -> CosmeticRegistry {
    let mut registry = CosmeticRegistry::new();
    registry.haircuts.insert("WavyShort".to_string(), def("WavyShort", Some("Hair")));
    registry.underwear.insert("Bra".to_string(), def("Bra", Some("Colored_Cotton")));
    registry
        .face_accessories
        .insert("Goggles".to_string(), def("Goggles", Some("Faded_Leather")));
    registry.eyes.insert("Plain_Eyes".to_string(), def("Plain_Eyes", Some("Eyes")));
    registry
}

fn skin(body: &str) -> SkinData {
    SkinData {
        body_characteristic: body.to_string(),
        underwear: None,
        face: None,
        ears: None,
        mouth: None,
        haircut: None,
        facial_hair: None,
        eyebrows: None,
        eyes: None,
        pants: None,
        overpants: None,
        undertop: None,
        overtop: None,
        shoes: None,
        head_accessory: None,
        face_accessory: None,
        ear_accessory: None,
        skin_feature: None,
        gloves: None,
        cape: None,
    }
}

#[test]
fn test_resolve_tints_gradient_set_lookup() {
    let mut data = skin("Default.10");
    data.cape = Some("Cape_Bannerlord.Red".to_string());
    let config = SkinConfig { skin: data };
    let mut registry = mock_registry();
    registry
        .capes
        .insert("Cape_Bannerlord".to_string(), def("Cape_Bannerlord", Some("Fantasy_Cotton_Dark")));
    let mut gradients = NamedTable::new();
    gradients.insert(
        "Red".to_string(),
        GradientDefinition {
            base_color: None,
            texture: Some("TintGradients/Dark_Fantasy_Cotton/Red.png".to_string()),
        },
    );
    registry.gradient_sets.insert(
        "Fantasy_Cotton_Dark".to_string(),
        GradientSet { id: Some("Fantasy_Cotton_Dark".to_string()), gradients },
    );
    let tints = ResolvedTints::from_skin_config(&config, "assets", &registry);
    let cape = tints.cape_color.as_ref().unwrap();
    assert!(Path::new(cape).ends_with("TintGradients/Dark_Fantasy_Cotton/Red.png"));
}

#[test]
fn test_resolve_tints() {
    let mut data = skin("Default.10");
    data.underwear = Some("Bra.Blue".to_string());
    data.eyes = Some("Plain_Eyes.Turquoise".to_string());
    data.haircut = Some("WavyShort.BrownDark".to_string());
    let config = SkinConfig { skin: data };
    let registry = mock_registry();
    let tints = ResolvedTints::from_skin_config(&config, "assets/TintGradients", &registry);
    assert!(Path::new(&tints.skin_tone).ends_with("Skin_Tones/10.png"));
    assert!(Path::new(tints.eye_color.as_ref().unwrap()).ends_with("Eyes/Turquoise.png"));
    assert!(Path::new(tints.hair_color.as_ref().unwrap()).ends_with("Hair/Brown_Dark.png"));
    assert!(Path::new(tints.underwear_color.as_ref().unwrap()).ends_with("Colored_Cotton/Blue.png"));
}

#[test]
fn test_resolve_tints_dynamic() {
    let mut data = skin("Default.10");
    data.face_accessory = Some("Goggles.Brown".to_string());
    let config = SkinConfig { skin: data };
    let registry = mock_registry();
    let tints = ResolvedTints::from_skin_config(&config, "assets/TintGradients", &registry);
    assert!(Path::new(tints.face_accessory_color.as_ref().unwrap()).ends_with("Faded_Leather/Brown.png"));
}

#[test]
fn resolve_tints_exact_paths() {
    let mut data = skin("Default.07");
    data.haircut = Some("WavyShort.BrownDark".to_string());
    data.gloves = Some("Unknown.Black".to_string());
    let config = SkinConfig { skin: data };
    let registry = mock_registry();
    let tints = ResolvedTints::from_skin_config(&config, "assets/TintGradients", &registry);
    assert_eq!(tints.base_path, "assets/TintGradients");
    assert_eq!(tints.skin_tone, "assets/TintGradients/Skin_Tones/07.png");
    assert_eq!(tints.hair_color.as_deref(), Some("assets/TintGradients/Hair/Brown_Dark.png"));
    assert_eq!(tints.gloves_color, None);
    assert_eq!(tints.cape_color, None);
}

#[test]
fn gradient_texture_path_for_provider() {
    let registry = mock_registry();
    let mut sets = Vec::new();
    let mut gradients = NamedTable::new();
    gradients.insert(
        "BrownDark".to_string(),
        GradientDefinition { base_color: None, texture: Some("Hair/Brown_Dark.png".to_string()) },
    );
    gradients.insert(
        "Red".to_string(),
        GradientDefinition { base_color: None, texture: Some("TintGradients/Hair/Red.png".to_string()) },
    );
    sets.push(GradientSet { id: Some("Hair".to_string()), gradients });
    let sets = table_from_gradient_sets(sets);
    let id = "WavyShort.BrownDark".to_string();
    assert_eq!(
        resolve_gradient_texture_path(Some(&id), &registry.haircuts, Some("Hair"), &sets, "root"),
        Some("root/TintGradients/Hair/Brown_Dark.png".to_string())
    );
    let id = "WavyShort.Red".to_string();
    assert_eq!(
        resolve_gradient_texture_path(Some(&id), &registry.haircuts, None, &sets, "root"),
        Some("root/TintGradients/Hair/Red.png".to_string())
    );
    let id = "WavyShort.LightBlond".to_string();
    assert_eq!(
        resolve_gradient_texture_path(Some(&id), &registry.haircuts, None, &sets, "root"),
        Some("root/TintGradients/Hair/Light_Blond.png".to_string())
    );
    let id = "Missing.Red".to_string();
    assert_eq!(resolve_gradient_texture_path(Some(&id), &registry.haircuts, None, &sets, "root"), None);
    assert_eq!(resolve_gradient_texture_path(None, &registry.haircuts, None, &sets, "root"), None);
    assert_eq!(skin_tone_gradient_path("root", "Default.10"), "root/TintGradients/Skin_Tones/10.png");
}

#[test]
fn registry_lookups() {
    let mut registry = mock_registry();
    assert_eq!(registry.get_haircut("WavyShort").unwrap().id, "WavyShort");
    assert!(registry.get_haircut("Missing").is_none());
    assert_eq!(registry.get_face_feature("Plain_Eyes").unwrap().id, "Plain_Eyes");
    registry.faces.insert("Plain_Eyes".to_string(), def("FaceVersion", None));
    assert_eq!(registry.get_face_feature("Plain_Eyes").unwrap().id, "FaceVersion");
    registry.ears.insert("Elf".to_string(), def("Elf", None));
    assert_eq!(registry.get_face_feature("Elf").unwrap().id, "Elf");
    assert!(registry.get_face_feature("WavyShort").is_none());
}

#[test]
fn definitions_keyed_by_id_last_wins() {
    let mut a = def("A", Some("first"));
    a.name = Some("one".to_string());
    let mut a2 = def("A", Some("second"));
    a2.name = Some("two".to_string());
    let t = table_from_definitions(vec![a, def("B", None), a2]);
    assert_eq!(t.len(), 2);
    assert_eq!(t.get("A").unwrap().name.as_deref(), Some("two"));
    assert!(t.contains_key("B"));
    assert!(!t.contains_key("C"));
    let sets = table_from_gradient_sets(vec![
        GradientSet { id: None, gradients: NamedTable::new() },
        GradientSet { id: Some("Hair".to_string()), gradients: NamedTable::new() },
    ]);
    assert_eq!(sets.len(), 1);
    assert!(sets.contains_key("Hair"));
}

#[test]
fn valid_cosmetic_ids() {
    assert!(is_valid_cosmetic_id("Cape_Royal"));
    assert!(!is_valid_cosmetic_id(""));
    assert!(!is_valid_cosmetic_id("null"));
    assert!(is_valid_cosmetic_id("nulls"));
}

#[test]
fn hair_node_names() {
    assert!(is_hair_node("HairBase"));
    assert!(is_hair_node("Bangs_Left"));
    assert!(is_hair_node("TopStrand"));
    assert!(!is_hair_node("L-Eyebrow"));
    assert!(!is_hair_node("EyeHair"));
    assert!(!is_hair_node("ChestTop"));
    assert!(!is_hair_node("Head"));
}

fn face(name: Option<&str>, tag: u32) -> TintedFace<u32> {
    TintedFace { face: tag, node_name: name.map(|s| s.to_string()) }
}

fn tags(v: &Vec<TintedFace<u32>>) -> Vec<u32> {
    v.iter().map(|f| f.face).collect()
}

#[test]
fn hair_culling_in_range() {
    let base = vec![
        face(Some("Head"), 0),
        face(Some("HairBase"), 1),
        face(Some("Top"), 2),
        face(Some("Side"), 3),
        face(None, 4),
        face(Some("Base"), 5),
        face(Some("Top"), 6),
    ];
    let mut full = base.clone();
    apply_hair_culling_to_range(&mut full, 1, 6, &HeadAccessoryCulling::FullyCovering);
    assert_eq!(tags(&full), vec![0, 1, 4, 5, 6]);
    let mut half = base.clone();
    apply_hair_culling_to_range(&mut half, 1, 6, &HeadAccessoryCulling::HalfCovering);
    assert_eq!(tags(&half), vec![0, 1, 3, 4, 5, 6]);
    let mut simple = base.clone();
    apply_hair_culling_to_range(&mut simple, 0, 7, &HeadAccessoryCulling::Simple);
    assert_eq!(tags(&simple), vec![0, 1, 2, 3, 4, 5, 6]);
    let mut gone = base.clone();
    apply_head_accessory_culling(&mut gone, 1, 6, HeadAccessoryCulling::DisableHair);
    assert_eq!(tags(&gone), vec![0, 6]);
    let mut empty_range = base.clone();
    apply_head_accessory_culling(&mut empty_range, 3, 3, HeadAccessoryCulling::FullyCovering);
    assert_eq!(tags(&empty_range), tags(&base));
}

#[test]
fn culling_mode_of_accessory() {
    let mut d = def("Helm", None);
    assert_eq!(culling_for_accessory(&d), HeadAccessoryCulling::Simple);
    d.head_accessory_type = Some("HalfCovering".to_string());
    assert_eq!(culling_for_accessory(&d), HeadAccessoryCulling::HalfCovering);
    d.head_accessory_type = Some("FullyCovering".to_string());
    assert_eq!(culling_for_accessory(&d), HeadAccessoryCulling::FullyCovering);
    d.disable_character_part_category = Some("Haircut".to_string());
    assert_eq!(culling_for_accessory(&d), HeadAccessoryCulling::DisableHair);
}

fn texture_table(entries: &[(&str, &str)]) -> NamedTable<TextureVariant> {
    let mut t = NamedTable::new();
    for (k, v) in entries {
        t.insert(
            k.to_string(),
            TextureVariant { texture: v.to_string(), base_color: Some(vec![format!("#{}", k)]) },
        );
    }
    t
}

#[test]
fn variant_and_colour_selection() {
    let mut cape = def("Cape_Royal", None);
    cape.model = Some("cape.blockymodel".to_string());
    cape.greyscale_texture = Some("cape_grey.png".to_string());
    let mut variants = NamedTable::new();
    variants.insert(
        "NoNeck".to_string(),
        CosmeticVariant {
            model: Some("cape_noneck.blockymodel".to_string()),
            greyscale_texture: None,
            textures: Some(texture_table(&[("Black", "black_noneck.png")])),
        },
    );
    cape.variants = Some(variants);
    cape.textures = Some(texture_table(&[("Red", "red.png"), ("Black", "black.png")]));

    let (id, mods) = parse_cosmetic_id("Cape_Royal.Black.NoNeck");
    assert_eq!(id, "Cape_Royal");
    assert_eq!(mods, vec!["Black", "NoNeck"]);
    let (variant, color) = pick_variant_and_color(&cape, &mods);
    assert_eq!(variant.as_deref(), Some("NoNeck"));
    assert_eq!(color.as_deref(), Some("Black"));

    let (model, texture, colors) =
        resolve_model_and_texture(&cape, variant.as_deref(), color.as_deref());
    assert_eq!(model.as_deref(), Some("cape_noneck.blockymodel"));
    assert_eq!(texture.as_deref(), Some("black_noneck.png"));
    assert_eq!(colors, Some(vec!["#Black".to_string()]));

    let (model, texture, colors) = resolve_model_and_texture(&cape, None, Some("Red"));
    assert_eq!(model.as_deref(), Some("cape.blockymodel"));
    assert_eq!(texture.as_deref(), Some("red.png"));
    assert_eq!(colors, Some(vec!["#Red".to_string()]));

    let (_, texture, colors) = resolve_model_and_texture(&cape, None, Some("Green"));
    assert_eq!(texture.as_deref(), Some("cape_grey.png"));
    assert_eq!(colors, None);

    let (_, texture, _) = resolve_model_and_texture(&cape, None, None);
    assert_eq!(texture.as_deref(), Some("black.png"));

    let mut plain = def("Plain", None);
    plain.textures = Some(texture_table(&[("Red", "red.png"), ("Blue", "blue.png")]));
    let (_, texture, _) = resolve_model_and_texture(&plain, None, None);
    assert_eq!(texture.as_deref(), Some("red.png"));

    let (_, mods) = parse_cosmetic_id("Plain");
    assert!(mods.is_empty());
    let (variant, color) = pick_variant_and_color(&plain, &vec!["Red".to_string()]);
    assert_eq!(variant, None);
    assert_eq!(color.as_deref(), Some("Red"));
}

#[test]
fn memory_assets() {
    let p = MemoryAssetProvider::new(
        vec!["a.png".to_string(), "b.json".to_string(), "a.png".to_string()],
        vec![vec![1, 2], vec![3], vec![4]],
    )
    .unwrap();
    assert_eq!(p.load_bytes("a.png").unwrap(), vec![4]);
    assert_eq!(p.load_bytes("b.json").unwrap(), vec![3]);
    match p.load_bytes("c") {
        Err(Error::InvalidData(m)) => assert_eq!(m, "Asset not provided: c"),
        _ => panic!("expected an error"),
    }
    match MemoryAssetProvider::new(vec!["a".to_string()], vec![]) {
        Err(e) => assert_eq!(e.message(), "Invalid data: asset_paths and asset_bytes length mismatch"),
        Ok(_) => panic!("expected an error"),
    }
}

#[test]
fn file_asset_paths() {
    let p = FileAssetProvider::new("assets/Common//");
    assert_eq!(p.base_path, "assets/Common");
    assert_eq!(p.join_path("Models/x.json"), "assets/Common/Models/x.json");
    assert_eq!(p.join_path("assets/Common/y.png"), "assets/Common/y.png");
    assert_eq!(FileAssetProvider::new("/").base_path, "");
}

#[test]
fn resolve_tints_avoids_doubled_gradient_directory() {
    let mut data = skin("Default.10");
    data.cape = Some("Cape_Bannerlord.Red".to_string());
    let config = SkinConfig { skin: data };
    let mut registry = mock_registry();
    registry
        .capes
        .insert("Cape_Bannerlord".to_string(), def("Cape_Bannerlord", Some("Fantasy_Cotton_Dark")));
    let mut gradients = NamedTable::new();
    gradients.insert(
        "Red".to_string(),
        GradientDefinition {
            base_color: None,
            texture: Some("TintGradients/Dark_Fantasy_Cotton/Red.png".to_string()),
        },
    );
    registry.gradient_sets.insert(
        "Fantasy_Cotton_Dark".to_string(),
        GradientSet { id: Some("Fantasy_Cotton_Dark".to_string()), gradients },
    );
    let tints = ResolvedTints::from_skin_config(&config, "assets/Common/TintGradients", &registry);
    assert_eq!(
        tints.cape_color.as_deref(),
        Some("assets/Common/TintGradients/Dark_Fantasy_Cotton/Red.png")
    );
    let plain = ResolvedTints::from_skin_config(&config, "assets", &registry);
    assert_eq!(plain.cape_color.as_deref(), Some("assets/TintGradients/Dark_Fantasy_Cotton/Red.png"));
}
