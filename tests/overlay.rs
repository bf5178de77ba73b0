use hytale_skin_renderer::avatar::draw_char;
use hytale_skin_renderer::overlay::{
    apply_minecraft_transparency, apply_minecraft_transparency_region, fast_overlay,
    is_image_region_transparent_to_minecraft,
};
use hytale_skin_renderer::texture::Texture;
use hytale_skin_renderer::tint::Rgba;

fn blank(w: u32, h: u32) -> Texture {
    Texture::from_pixels(w, h, vec![Rgba::new(0, 0, 0, 0); (w * h) as usize]).unwrap()
}

fn put_pixel(t: &mut Texture, x: u32, y: u32, p: Rgba) {
    let i = (y * t.width + x) as usize;
    t.pixels[i] = p;
}

fn filled(w: u32, h: u32, p: Rgba) -> Texture {
    let mut t = blank(w, h);
    for y in 0..h {
        for x in 0..w {
            put_pixel(&mut t, x, y, p);
        }
    }
    t
}

#[test]
fn test_is_image_region_transparent_to_minecraft_transparent() {
    let mut img = blank(10, 10);
    put_pixel(&mut img, 5, 5, Rgba::new(0, 0, 0, 127));
    assert!(is_image_region_transparent_to_minecraft(&img, 0, 0, 10, 10));
}

#[test]
fn test_is_image_region_transparent_to_minecraft_opaque() {
    let img = filled(10, 10, Rgba::new(0, 0, 0, 255));
    assert!(!is_image_region_transparent_to_minecraft(&img, 0, 0, 10, 10));
}

#[test]
fn test_apply_minecraft_transparency() {
    let mut img = blank(10, 10);
    put_pixel(&mut img, 5, 5, Rgba::new(0, 0, 0, 127));
    apply_minecraft_transparency(&mut img);
    assert_eq!(img.get_pixel(5, 5).a, 127);
    assert_eq!(img.get_pixel(0, 0).a, 0);
}

#[test]
fn test_apply_minecraft_transparency_region() {
    let mut img = blank(10, 10);
    put_pixel(&mut img, 5, 5, Rgba::new(0, 0, 0, 127));
    apply_minecraft_transparency_region(&mut img, 0, 0, 10, 10);
    assert_eq!(img.get_pixel(5, 5).a, 127);
    assert_eq!(img.get_pixel(0, 0).a, 0);
}

#[test]
fn test_apply_minecraft_transparency_fully_transparent() {
    let mut img = filled(10, 10, Rgba::new(0, 0, 0, 0));
    apply_minecraft_transparency(&mut img);
    assert_eq!(img.get_pixel(0, 0).a, 0);
}

#[test]
fn test_apply_minecraft_transparency_region_fully_transparent() {
    let mut img = filled(10, 10, Rgba::new(0, 0, 0, 0));
    apply_minecraft_transparency_region(&mut img, 0, 0, 10, 10);
    assert_eq!(img.get_pixel(0, 0).a, 0);
}

#[test]
fn opaque_region_is_cleared_and_keeps_colour() {
    let mut img = filled(4, 4, Rgba::new(9, 8, 7, 200));
    apply_minecraft_transparency_region(&mut img, 1, 1, 2, 2);
    assert_eq!(img.get_pixel(1, 1), Rgba::new(9, 8, 7, 0));
    assert_eq!(img.get_pixel(2, 2), Rgba::new(9, 8, 7, 0));
    assert_eq!(img.get_pixel(0, 0), Rgba::new(9, 8, 7, 200));
    assert_eq!(img.get_pixel(3, 1), Rgba::new(9, 8, 7, 200));
}

#[test]
fn test_fast_overlay_within_bounds() {
    let mut bottom = blank(10, 10);
    let top = filled(5, 5, Rgba::new(255, 0, 0, 255));
    fast_overlay(&mut bottom, &top, 2, 2);
    assert_eq!(bottom.get_pixel(2, 2), Rgba::new(255, 0, 0, 255));
}

#[test]
fn test_fast_overlay_out_of_bounds() {
    let mut bottom = blank(10, 10);
    let top = filled(5, 5, Rgba::new(255, 0, 0, 255));
    fast_overlay(&mut bottom, &top, 8, 8);
    assert_eq!(bottom.get_pixel(8, 8), Rgba::new(255, 0, 0, 255));
    assert_eq!(bottom.get_pixel(9, 9), Rgba::new(255, 0, 0, 255));
    assert_eq!(bottom.get_pixel(7, 7), Rgba::new(0, 0, 0, 0));
}

#[test]
fn test_fast_overlay_fully_transparent_top() {
    let mut bottom = blank(10, 10);
    let top = filled(5, 5, Rgba::new(255, 0, 0, 0));
    fast_overlay(&mut bottom, &top, 2, 2);
    assert_eq!(bottom.get_pixel(2, 2), Rgba::new(0, 0, 0, 0));
}

#[test]
fn overlay_makes_partial_alpha_opaque_and_clips_far_origins() {
    let mut bottom = blank(3, 3);
    let top = filled(2, 2, Rgba::new(1, 2, 3, 40));
    fast_overlay(&mut bottom, &top, 0, 0);
    assert_eq!(bottom.get_pixel(1, 1), Rgba::new(1, 2, 3, 255));
    assert_eq!(bottom.get_pixel(2, 2), Rgba::new(0, 0, 0, 0));
    let mut far = blank(3, 3);
    fast_overlay(&mut far, &top, 50, u32::MAX);
    assert_eq!(far.pixels, blank(3, 3).pixels);
}

#[test]
fn glyphs_are_drawn_scaled_and_clipped() {
    let ink = Rgba::new(9, 9, 9, 255);
    let mut img = blank(6, 8);
    draw_char(&mut img, 'i', 0, 0, 1, ink);
    assert_eq!(img.get_pixel(1, 0), ink);
    assert_eq!(img.get_pixel(0, 0), Rgba::new(0, 0, 0, 0));
    assert_eq!(img.get_pixel(2, 3), ink);
    assert_eq!(img.get_pixel(5, 7), Rgba::new(0, 0, 0, 0));

    let mut big = blank(4, 4);
    draw_char(&mut big, 'I', -1, -1, 2, ink);
    assert_eq!(big.get_pixel(0, 0), Rgba::new(0, 0, 0, 0));
    assert_eq!(big.get_pixel(1, 0), ink);
    assert_eq!(big.get_pixel(2, 0), ink);

    let mut none = blank(4, 4);
    draw_char(&mut none, '#', 0, 0, 1, ink);
    assert_eq!(none.pixels, blank(4, 4).pixels);
    draw_char(&mut none, 'A', 0, 0, 0, ink);
    assert_eq!(none.pixels, blank(4, 4).pixels);
}
