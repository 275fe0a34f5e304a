use photo_organizer::naming::{image_file_name, is_raw_file, lower_ascii};
use photo_organizer::text::{decimal_text, text_prefix, trim_text};

#[test]
fn raw_extension_in_any_case() {
    assert!(is_raw_file("IMG_0001.ARW"));
    assert!(is_raw_file("img.arw"));
    assert!(is_raw_file("a.b.ArW"));
}

#[test]
fn other_names_are_not_raw() {
    assert!(!is_raw_file(".arw"));
    assert!(!is_raw_file("arw"));
    assert!(!is_raw_file("photo.jpg"));
    assert!(!is_raw_file("photo.arw.bak"));
    assert!(!is_raw_file("photo.arwx"));
    assert!(!is_raw_file(".."));
    assert!(!is_raw_file(""));
    assert!(!is_raw_file("photo."));
}

#[test]
fn image_name_replaces_extension() {
    assert_eq!(image_file_name("IMG_0001.ARW"), "IMG_0001.jpg");
    assert_eq!(image_file_name("a.b.arw"), "a.b.jpg");
    assert_eq!(image_file_name("noext"), "noext.jpg");
    assert_eq!(image_file_name(".hidden"), ".hidden.jpg");
}

#[test]
fn ascii_lowering() {
    assert_eq!(lower_ascii('A'), 'a');
    assert_eq!(lower_ascii('Z'), 'z');
    assert_eq!(lower_ascii('a'), 'a');
    assert_eq!(lower_ascii('['), '[');
    assert_eq!(lower_ascii('Ä'), 'Ä');
}

#[test]
fn trimming_removes_unicode_white_space() {
    assert_eq!(trim_text("  x y \n"), "x y");
    assert_eq!(trim_text("\u{3000}\u{a0}abc\u{2028}"), "abc");
    assert_eq!(trim_text(" \t\r\n"), "");
    assert_eq!(trim_text(""), "");
}

#[test]
fn prefixes_by_characters() {
    assert_eq!(text_prefix("2023:07:04 12:00:00", 10), "2023:07:04");
    assert_eq!(text_prefix("abc", 10), "abc");
    assert_eq!(text_prefix("äöüß", 2), "äö");
}

#[test]
fn decimal_digits() {
    assert_eq!(decimal_text(0), "0");
    assert_eq!(decimal_text(7), "7");
    assert_eq!(decimal_text(50), "50");
    assert_eq!(decimal_text(100), "100");
    assert_eq!(decimal_text(255), "255");
}
