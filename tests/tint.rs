use hytale_skin_renderer::texture::{mixed_opacity, Texture};
use hytale_skin_renderer::tint::{apply_tint, parse_hex_color, parse_hex_colors, Rgba, TintGradient};

fn create_test_gradient() -> TintGradient {
    let mut pixels = Vec::new();
    for x in 0..256u32 {
        pixels.push(Rgba::new(x as u8, x as u8, x as u8, 255));
    }
    TintGradient::from_pixels(pixels)
}

fn create_colored_gradient() -> TintGradient {
    let mut pixels = Vec::new();
    for x in 0..256u32 {
        let t = x as f32 / 255.0;
        let r = (80.0 + t * 175.0) as u8;
        let g = (40.0 + t * 180.0) as u8;
        let b = (30.0 + t * 170.0) as u8;
        pixels.push(Rgba::new(r, g, b, 255));
    }
    TintGradient::from_pixels(pixels)
}

#[test]
fn test_tint_gradient_lookup_u8() {
    let gradient = create_test_gradient();
    let dark = gradient.lookup_u8(0);
    let light = gradient.lookup_u8(255);
    assert!(dark.r < 10);
    assert!(light.r > 245);
}

#[test]
fn test_tint_gradient_inverted() {
    let gradient = create_test_gradient();
    let inverted_gradient = create_test_gradient().with_inverted(true);
    let dark_normal = gradient.lookup_u8(0);
    let dark_inverted = inverted_gradient.lookup_u8(0);
    let bright_normal = gradient.lookup_u8(255);
    let bright_inverted = inverted_gradient.lookup_u8(255);
    assert_eq!(dark_inverted, bright_normal);
    assert_eq!(bright_inverted, dark_normal);
}

#[test]
fn test_apply_tint() {
    let gradient = create_colored_gradient();
    let dark_pixel = Rgba::new(50, 50, 50, 255);
    let tinted_dark = apply_tint(dark_pixel, &gradient);
    assert!(tinted_dark.r > tinted_dark.b);
    let light_pixel = Rgba::new(200, 200, 200, 255);
    let tinted_light = apply_tint(light_pixel, &gradient);
    assert!(tinted_light.r > 150);
    assert!(tinted_light.g > 100);
}

#[test]
fn test_apply_tint_preserves_alpha() {
    let gradient = TintGradient::identity();
    let transparent = Rgba::new(128, 128, 128, 64);
    let tinted = apply_tint(transparent, &gradient);
    assert_eq!(tinted.a, 64);
    let opaque = Rgba::new(128, 128, 128, 255);
    let tinted = apply_tint(opaque, &gradient);
    assert_eq!(tinted.a, 255);
}

#[test]
fn test_apply_tint_greyscale_pixels() {
    let gradient = create_colored_gradient();
    let grey_pixel = Rgba::new(128, 128, 128, 255);
    let tinted = apply_tint(grey_pixel, &gradient);
    assert_ne!(tinted.r, 128);
    assert_ne!(tinted, grey_pixel);
    assert_eq!(tinted.a, 255);
}

#[test]
fn test_apply_tint_colored_pixels_preserved() {
    let gradient = create_colored_gradient();
    let brown_pixel = Rgba::new(139, 69, 19, 255);
    let tinted = apply_tint(brown_pixel, &gradient);
    assert_eq!(tinted, brown_pixel);
    assert_eq!(tinted.r, 139);
    assert_eq!(tinted.g, 69);
    assert_eq!(tinted.b, 19);
    assert_eq!(tinted.a, 255);
}

#[test]
fn test_apply_tint_transparent_pixels() {
    let gradient = create_colored_gradient();
    let transparent = Rgba::new(100, 50, 25, 0);
    let tinted = apply_tint(transparent, &gradient);
    assert_eq!(tinted, transparent);
    let transparent_colored = Rgba::new(255, 0, 0, 0);
    let tinted_colored = apply_tint(transparent_colored, &gradient);
    assert_eq!(tinted_colored, transparent_colored);
}

#[test]
fn test_apply_tint_uses_average_luminance() {
    let gradient = create_colored_gradient();
    let greyscale = Rgba::new(120, 120, 120, 255);
    let tinted = apply_tint(greyscale, &gradient);
    assert_ne!(tinted, greyscale);
    assert_eq!(tinted.a, 255);
}

#[test]
fn apply_tint_greyscale_threshold_is_one() {
    let gradient = create_colored_gradient();
    let one_apart = Rgba::new(100, 101, 100, 255);
    assert_eq!(apply_tint(one_apart, &gradient), gradient.lookup_u8(100));
    let two_apart = Rgba::new(100, 102, 100, 255);
    assert_eq!(apply_tint(two_apart, &gradient), two_apart);
    let nine_apart = Rgba::new(128, 128, 137, 255);
    assert_eq!(apply_tint(nine_apart, &gradient), nine_apart);
}

#[test]
fn identity_gradient_keeps_grey_pixels() {
    let gradient = TintGradient::identity();
    assert_eq!(gradient.len(), 256);
    for v in [0u8, 1, 77, 127, 128, 200, 254, 255] {
        let p = Rgba::new(v, v, v, 180);
        assert_eq!(apply_tint(p, &gradient), p);
    }
}

#[test]
fn solid_gradient_gives_its_colour() {
    let red = Rgba::new(255, 0, 0, 255);
    let gradient = TintGradient::solid(red);
    assert_eq!(gradient.len(), 256);
    assert_eq!(gradient.lookup_u8(0), red);
    assert_eq!(gradient.lookup_u8(128), red);
    assert_eq!(gradient.lookup_u8(255), red);
    let tinted = apply_tint(Rgba::new(30, 30, 30, 77), &gradient);
    assert_eq!(tinted, Rgba::new(255, 0, 0, 77));
}

#[test]
fn lookup_index_rounds_over_short_gradients() {
    let g = TintGradient::from_pixels(vec![
        Rgba::new(0, 0, 0, 255),
        Rgba::new(10, 10, 10, 255),
        Rgba::new(20, 20, 20, 255),
    ]);
    assert_eq!(g.lookup_u8(0).r, 0);
    assert_eq!(g.lookup_u8(63).r, 0);
    assert_eq!(g.lookup_u8(64).r, 10);
    assert_eq!(g.lookup_u8(191).r, 10);
    assert_eq!(g.lookup_u8(192).r, 20);
    assert_eq!(g.lookup_u8(255).r, 20);
    let empty = TintGradient::from_pixels(Vec::new());
    assert!(empty.is_empty());
    assert_eq!(empty.lookup_u8(9), Rgba::new(255, 255, 255, 255));
}

#[test]
fn hex_colours_parse() {
    assert_eq!(parse_hex_color("#ff8000"), Some(Rgba::new(255, 128, 0, 255)));
    assert_eq!(parse_hex_color("0A0b0C"), Some(Rgba::new(10, 11, 12, 255)));
    assert_eq!(parse_hex_color("##123456"), Some(Rgba::new(0x12, 0x34, 0x56, 255)));
    assert_eq!(parse_hex_color("#+f+f+f"), Some(Rgba::new(15, 15, 15, 255)));
    assert_eq!(parse_hex_color("#12345"), None);
    assert_eq!(parse_hex_color("#12345g"), None);
    assert_eq!(parse_hex_color(""), None);
    let list = vec!["#000000".to_string(), "bad".to_string(), "#ffffff".to_string()];
    assert_eq!(
        parse_hex_colors(&list),
        vec![Rgba::new(0, 0, 0, 255), Rgba::new(255, 255, 255, 255)]
    );
}

#[test]
fn texture_reads_clamp() {
    let px = vec![
        Rgba::new(1, 0, 0, 255),
        Rgba::new(2, 0, 0, 255),
        Rgba::new(3, 0, 0, 255),
        Rgba::new(4, 0, 0, 255),
        Rgba::new(5, 0, 0, 255),
        Rgba::new(6, 0, 0, 255),
    ];
    let t = Texture::from_pixels(3, 2, px).unwrap();
    assert_eq!(t.dimensions(), (3, 2));
    assert_eq!(t.get_pixel(0, 0).r, 1);
    assert_eq!(t.get_pixel(2, 1).r, 6);
    assert_eq!(t.get_pixel(9, 0).r, 3);
    assert_eq!(t.get_pixel(1, 9).r, 5);
    assert_eq!(t.texel_clamped(-4, -1).r, 1);
    assert_eq!(t.texel_clamped(1, 1).r, 5);
    assert!(Texture::from_pixels(0, 2, Vec::new()).is_none());
    assert!(Texture::from_pixels(2, 2, vec![Rgba::new(0, 0, 0, 0)]).is_none());
}

#[test]
fn opacity_straddle() {
    assert!(mixed_opacity(255, 0, 255, 255));
    assert!(!mixed_opacity(255, 128, 200, 255));
    assert!(!mixed_opacity(0, 127, 10, 0));
    assert!(mixed_opacity(127, 128, 127, 127));
}
