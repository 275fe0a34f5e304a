use photo_organizer::options::{parse_options, parse_u8, UsageError};

fn args(a: &[&str]) -> Vec<String> {
    a.iter().map(|s| s.to_string()).collect()
}

#[test]
fn too_few_arguments_is_a_usage_error() {
    assert!(matches!(parse_options(&args(&["prog"])), Err(UsageError::MissingDirectories)));
    assert!(matches!(parse_options(&args(&["prog", "src"])), Err(UsageError::MissingDirectories)));
}

#[test]
fn directories_without_conversion() {
    let o = parse_options(&args(&["prog", "in", "out"])).unwrap();
    assert_eq!(o.source, "in");
    assert_eq!(o.destination, "out");
    assert!(!o.convert);
    assert_eq!(o.quality, 80);
}

#[test]
fn conversion_with_quality() {
    let o = parse_options(&args(&["prog", "in", "out", "--convert-to-jpg", "50"])).unwrap();
    assert!(o.convert);
    assert_eq!(o.quality, 50);
}

#[test]
fn conversion_quality_defaults() {
    let o = parse_options(&args(&["prog", "in", "out", "--convert-to-jpg"])).unwrap();
    assert!(o.convert);
    assert_eq!(o.quality, 80);
    let o = parse_options(&args(&["prog", "in", "out", "--convert-to-jpg", "high"])).unwrap();
    assert_eq!(o.quality, 80);
    let o = parse_options(&args(&["prog", "in", "out", "--convert-to-jpg", "300"])).unwrap();
    assert_eq!(o.quality, 80);
}

#[test]
fn quality_without_flag_is_ignored() {
    let o = parse_options(&args(&["prog", "in", "out", "50"])).unwrap();
    assert!(!o.convert);
    assert_eq!(o.quality, 80);
}

#[test]
fn u8_parsing() {
    assert_eq!(parse_u8("50"), Some(50));
    assert_eq!(parse_u8("+7"), Some(7));
    assert_eq!(parse_u8("0050"), Some(50));
    assert_eq!(parse_u8("255"), Some(255));
    assert_eq!(parse_u8("256"), None);
    assert_eq!(parse_u8("99999999999999999999"), None);
    assert_eq!(parse_u8("-1"), None);
    assert_eq!(parse_u8(""), None);
    assert_eq!(parse_u8("+"), None);
    assert_eq!(parse_u8("5 "), None);
}
