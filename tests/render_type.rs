use hytale_skin_renderer::render_type::{what_to_render_type, RenderType};
use hytale_skin_renderer::text::get_char_data;

#[test]
fn test_what_to_render_type_avatar() {
    assert_eq!(what_to_render_type("avatar".to_string()), Some(RenderType::Avatar));
}

#[test]
fn test_what_to_render_type_helm() {
    assert_eq!(what_to_render_type("helm".to_string()), Some(RenderType::Helm));
}

#[test]
fn test_what_to_render_type_cube() {
    assert_eq!(what_to_render_type("cube".to_string()), Some(RenderType::Cube));
}

#[test]
fn test_what_to_render_type_body() {
    assert_eq!(what_to_render_type("body".to_string()), Some(RenderType::Body));
}

#[test]
fn test_what_to_render_type_bust() {
    assert_eq!(what_to_render_type("bust".to_string()), Some(RenderType::Bust));
}

#[test]
fn test_what_to_render_type_cape() {
    assert_eq!(what_to_render_type("cape".to_string()), Some(RenderType::Cape));
}

#[test]
fn test_what_to_render_type_invalid() {
    assert_eq!(what_to_render_type("invalid".to_string()), None);
}

#[test]
fn font_glyphs() {
    assert_eq!(
        get_char_data('a'),
        Some([0b01110, 0b10001, 0b10001, 0b11111, 0b10001, 0b10001, 0b10001])
    );
    assert_eq!(get_char_data('A'), get_char_data('a'));
    assert_eq!(
        get_char_data('7'),
        Some([0b11111, 0b00001, 0b00010, 0b00100, 0b01000, 0b01000, 0b01000])
    );
    assert_eq!(get_char_data('?'), None);
    assert_eq!(get_char_data(' '), None);
}
