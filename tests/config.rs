use mirro_rs::config::{configured_rgb, rgb_from_hex};
use mirro_rs::text::{matches_filter, matches_folded};

#[test]
fn reads_six_hex_digits() {
    assert_eq!(rgb_from_hex("ff8000".to_string()), Some((255, 128, 0)));
    assert_eq!(rgb_from_hex("D3d3D3".to_string()), Some((211, 211, 211)));
    assert_eq!(rgb_from_hex("000000".to_string()), Some((0, 0, 0)));
}

#[test]
fn other_lengths_are_white() {
    assert_eq!(rgb_from_hex("".to_string()), Some((255, 255, 255)));
    assert_eq!(rgb_from_hex("fff".to_string()), Some((255, 255, 255)));
    assert_eq!(rgb_from_hex("ff00ff00".to_string()), Some((255, 255, 255)));
}

#[test]
fn bad_digits_give_none() {
    assert_eq!(rgb_from_hex("zz0000".to_string()), None);
    assert_eq!(rgb_from_hex("00-100".to_string()), None);
    assert_eq!(rgb_from_hex("ééé000".to_string()), None);
}

#[test]
fn plus_sign_channel() {
    assert_eq!(rgb_from_hex("+f0a0b".to_string()), Some((15, 10, 11)));
}

#[test]
fn optional_setting() {
    assert_eq!(configured_rgb(&None), None);
    assert_eq!(configured_rgb(&Some("102030".to_string())), Some((16, 32, 48)));
    assert_eq!(configured_rgb(&Some("nothex".to_string())), None);
}

#[test]
fn filter_ignores_case() {
    assert!(matches_filter("Germany", "GER"));
    assert!(matches_filter("Germany", "many"));
    assert!(matches_filter("Germany", ""));
    assert!(!matches_filter("Germany", "France"));
    assert!(!matches_filter("", "a"));
}

#[test]
fn folded_matching_is_substring_search() {
    assert!(matches_folded("germany", "rma"));
    assert!(matches_folded("abc", "abc"));
    assert!(!matches_folded("ab", "abc"));
    assert!(!matches_folded("germany", "GER"));
    assert!(matches_folded("", ""));
}
