use hytale_skin_renderer::text::{
    camel_to_snake_case, extract_initials, hash_username, split_char, str_contains, to_ascii_upper,
};

#[test]
fn test_camel_to_snake_case() {
    assert_eq!(camel_to_snake_case("BrownDark"), "Brown_Dark");
    assert_eq!(camel_to_snake_case("Brown"), "Brown");
    assert_eq!(camel_to_snake_case("LightBrown"), "Light_Brown");
    assert_eq!(camel_to_snake_case("ABC"), "A_B_C");
}

#[test]
fn camel_to_snake_case_empty_and_lowercase() {
    assert_eq!(camel_to_snake_case(""), "");
    assert_eq!(camel_to_snake_case("brown"), "brown");
    assert_eq!(camel_to_snake_case("Gold_Red"), "Gold__Red");
}

#[test]
fn test_extract_initials_camelcase() {
    assert_eq!(extract_initials("CherryJimbo"), "CJ");
}

#[test]
fn test_extract_initials_single() {
    assert_eq!(extract_initials("james"), "J");
}

#[test]
fn test_extract_initials_short() {
    assert_eq!(extract_initials("AB"), "AB");
}

#[test]
fn test_extract_initials_empty() {
    assert_eq!(extract_initials(""), "?");
}

#[test]
fn extract_initials_more_cases() {
    assert_eq!(extract_initials("ab"), "AB");
    assert_eq!(extract_initials("x"), "X");
    assert_eq!(extract_initials("JAMES"), "J");
    assert_eq!(extract_initials("aBc"), "AB");
    assert_eq!(extract_initials("héllo"), "H");
}

#[test]
fn hash_username_is_case_insensitive_and_exact() {
    assert_eq!(hash_username(""), 0);
    assert_eq!(hash_username("a"), 97);
    assert_eq!(hash_username("ab"), 97 * 31 + 98);
    assert_eq!(hash_username("AB"), hash_username("ab"));
    let mut h: u32 = 0;
    for b in "alice".bytes() {
        h = h.wrapping_mul(31).wrapping_add(b as u32);
    }
    assert_eq!(hash_username("Alice"), h);
}

#[test]
fn hash_username_wraps() {
    let name = "averyveryverylongusername";
    let mut h: u32 = 0;
    for b in name.bytes() {
        h = h.wrapping_mul(31).wrapping_add(b as u32);
    }
    assert_eq!(hash_username(name), h);
}

#[test]
fn split_char_pieces() {
    assert_eq!(split_char("Cape.Black.NoNeck", '.'), vec!["Cape", "Black", "NoNeck"]);
    assert_eq!(split_char("", '.'), vec![""]);
    assert_eq!(split_char("a.", '.'), vec!["a", ""]);
    assert_eq!(split_char("Plain", '.'), vec!["Plain"]);
}

#[test]
fn contains_and_upper() {
    assert!(str_contains("HairBase", "Base"));
    assert!(!str_contains("Hai", "Hair"));
    assert!(str_contains("abc", ""));
    assert_eq!(to_ascii_upper('q'), 'Q');
    assert_eq!(to_ascii_upper('Q'), 'Q');
    assert_eq!(to_ascii_upper('é'), 'é');
}
