use icon_loader::{IconDir, IconFile, IconFileType, IconSizeType, parse_u16};

fn props(pairs: &[(&str, &str)]) -> Vec<(String, String)> {
    pairs.iter().map(|(k, v)| (k.to_string(), v.to_string())).collect()
}

#[test]
fn test_parse_u16_values() {
    assert_eq!(parse_u16("0"), Some(0));
    assert_eq!(parse_u16("123"), Some(123));
    assert_eq!(parse_u16("+7"), Some(7));
    assert_eq!(parse_u16("65535"), Some(65535));
    assert_eq!(parse_u16("65536"), None);
    assert_eq!(parse_u16("99999999999999999999"), None);
    assert_eq!(parse_u16(""), None);
    assert_eq!(parse_u16("+"), None);
    assert_eq!(parse_u16("-3"), None);
    assert_eq!(parse_u16("12a"), None);
    assert_eq!(parse_u16(" 12"), None);
}

#[test]
fn test_dir_defaults() {
    let dir = IconDir::new("32x32/apps".to_string(), &props(&[("Size", "32")]));
    assert_eq!(dir.path(), "32x32/apps");
    assert_eq!(dir.size(), 32);
    assert_eq!(dir.scale(), 1);
    assert_eq!(dir.size_type(), IconSizeType::Threshold);
    assert_eq!(dir.threshold(), 2);
    assert_eq!(dir.min_size(), 32);
    assert_eq!(dir.max_size(), 32);
    assert_eq!(dir.context(), None);
    assert!(dir.is_valid());
}

#[test]
fn test_dir_all_fields() {
    let dir = IconDir::new(
        "48x48@2/apps".to_string(),
        &props(&[
            ("Size", "48"),
            ("Scale", "2"),
            ("Type", "Fixed"),
            ("MinSize", "32"),
            ("MaxSize", "64"),
            ("Threshold", "4"),
            ("Context", "Applications"),
        ]),
    );
    assert_eq!(dir.size(), 48);
    assert_eq!(dir.scale(), 2);
    assert_eq!(dir.size_type(), IconSizeType::Fixed);
    assert_eq!(dir.min_size(), 32);
    assert_eq!(dir.max_size(), 64);
    assert_eq!(dir.threshold(), 4);
    assert_eq!(dir.context(), Some("Applications"));
}

#[test]
fn test_dir_bad_numbers_keep_defaults() {
    let dir = IconDir::new(
        "scalable/apps".to_string(),
        &props(&[("Size", "abc"), ("Scale", "-1"), ("Threshold", "huge")]),
    );
    assert_eq!(dir.size(), 0);
    assert!(!dir.is_valid());
    assert_eq!(dir.scale(), 1);
    assert_eq!(dir.threshold(), 2);
}

#[test]
fn test_dir_unknown_keys_ignored_and_last_value_wins() {
    let dir = IconDir::new(
        "16x16/apps".to_string(),
        &props(&[("Frobnicate", "yes"), ("Size", "16"), ("Size", "24")]),
    );
    assert_eq!(dir.size(), 24);
}

#[test]
fn test_size_type_from_name() {
    assert_eq!(IconSizeType::from_name("Fixed"), IconSizeType::Fixed);
    assert_eq!(IconSizeType::from_name("Scalable"), IconSizeType::Scalable);
    assert_eq!(IconSizeType::from_name("Threshold"), IconSizeType::Threshold);
    assert_eq!(IconSizeType::from_name("Anything"), IconSizeType::Threshold);
    assert_eq!(IconSizeType::from_name(""), IconSizeType::Threshold);
}

#[test]
fn test_file_types_priority_and_extensions() {
    let types = IconFileType::types();
    assert_eq!(types, vec![IconFileType::PNG, IconFileType::SVG, IconFileType::XPM]);
    assert_eq!(IconFileType::PNG.extension(), "png");
    assert_eq!(IconFileType::SVG.extension(), "svg");
    assert_eq!(IconFileType::XPM.extension(), "xpm");
}

#[test]
fn test_icon_file_getters() {
    let dir = IconDir::new(
        "64x64/apps".to_string(),
        &props(&[("Size", "64"), ("Scale", "2"), ("MinSize", "32"), ("MaxSize", "128"),
            ("Threshold", "8"), ("Context", "Apps"), ("Type", "Scalable")]),
    );
    let file = IconFile::new(dir, "/r/t/64x64/apps/x.svg".to_string(), IconFileType::SVG);
    assert_eq!(file.path(), "/r/t/64x64/apps/x.svg");
    assert_eq!(file.icon_type(), IconFileType::SVG);
    assert_eq!(file.size(), 64);
    assert_eq!(file.scale(), 2);
    assert_eq!(file.min_size(), 32);
    assert_eq!(file.max_size(), 128);
    assert_eq!(file.threshold(), 8);
    assert_eq!(file.context(), Some("Apps"));
    assert_eq!(file.dir_type(), IconSizeType::Scalable);
    assert_eq!(file.dir_info().path(), "64x64/apps");
}
