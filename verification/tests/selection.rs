use icon_loader::{Icon, IconDir, IconFile, IconFileType, IconSizeType};

fn dir(size: u16, scale: u16, size_type: &str, threshold: Option<u16>) -> IconDir {
    let mut pairs: Vec<(String, String)> = vec![
        ("Size".to_string(), size.to_string()),
        ("Scale".to_string(), scale.to_string()),
        ("Type".to_string(), size_type.to_string()),
    ];
    if let Some(t) = threshold {
        pairs.push(("Threshold".to_string(), t.to_string()));
    }
    IconDir::new(format!("{}x{}", size, size), &pairs)
}

fn file(size: u16, scale: u16, size_type: &str, threshold: Option<u16>) -> IconFile {
    let path = format!("/t/{}x{}@{}/icon.png", size, size, scale);
    IconFile::new(dir(size, scale, size_type, threshold), path, IconFileType::PNG)
}

fn icon_with(files: Vec<IconFile>) -> Icon {
    Icon::new("icon".to_string(), "theme".to_string(), files).unwrap()
}

#[test]
fn test_exact_size_match() {
    // Directories at sizes 16, 32 and 48, all scale 1: size 32 wins exactly.
    let icon = icon_with(vec![
        file(16, 1, "Fixed", None),
        file(32, 1, "Fixed", None),
        file(48, 1, "Fixed", None),
    ]);
    let picked = icon.file_for_size_scaled(32, 1);
    assert_eq!(picked.size(), 32);
    assert_eq!(picked.scale(), 1);
}

#[test]
fn test_threshold_window_match() {
    // A size-48 Threshold directory with threshold 4 covers a request of 46.
    let icon = icon_with(vec![file(16, 1, "Fixed", None), file(48, 1, "Threshold", Some(4))]);
    let picked = icon.file_for_size(46);
    assert_eq!(picked.size(), 48);
    assert_eq!(picked.dir_type(), IconSizeType::Threshold);
}

#[test]
fn test_upscale_preferred_over_downscale() {
    // Sizes 16 and 48 only, no threshold window reaches 32: the smallest
    // bigger size (48) wins over the smaller 16.
    let icon = icon_with(vec![file(16, 1, "Fixed", None), file(48, 1, "Fixed", None)]);
    let picked = icon.file_for_size(32);
    assert_eq!(picked.size(), 48);
}

#[test]
fn test_largest_available_when_all_smaller() {
    // Sizes 16 and 32: a request of 64 falls back to the largest, 32.
    let icon = icon_with(vec![file(16, 1, "Fixed", None), file(32, 1, "Fixed", None)]);
    let picked = icon.file_for_size(64);
    assert_eq!(picked.size(), 32);
}

#[test]
fn test_scaled_request_resolves_via_scale_one() {
    // Only scale-1 directories: a request for size 16 at scale 2 resolves
    // as size 32 at scale 1.
    let icon = icon_with(vec![file(16, 1, "Fixed", None), file(32, 1, "Fixed", None)]);
    let picked = icon.file_for_size_scaled(16, 2);
    assert_eq!(picked.size(), 32);
    assert_eq!(picked.scale(), 1);
}

#[test]
fn test_scaled_request_falls_back_to_best_size_only_match() {
    // No scale-2 and no scale-1 directory at all: the scale restriction is
    // dropped and the best size-only match wins.
    let icon = icon_with(vec![file(16, 3, "Fixed", None), file(64, 3, "Fixed", None)]);
    let picked = icon.file_for_size_scaled(16, 2);
    assert_eq!(picked.size(), 16);
    assert_eq!(picked.scale(), 3);
}

#[test]
fn test_selection_never_fails_on_nonempty_icon() {
    // However odd the request, a non-empty icon always yields a file.
    let icon = icon_with(vec![file(3, 7, "Scalable", None)]);
    let picked = icon.file_for_size(9999);
    assert_eq!(picked.size(), 3);
    let picked = icon.file_for_size_scaled(1, 1);
    assert_eq!(picked.size(), 3);
    assert!(icon.file_for_size_filtered(5, |_| true).is_some());
}

#[test]
fn test_filtered_selection() {
    let files = vec![
        IconFile::new(dir(32, 1, "Fixed", None), "/t/a.png".to_string(), IconFileType::PNG),
        IconFile::new(dir(32, 1, "Fixed", None), "/t/a.svg".to_string(), IconFileType::SVG),
    ];
    let icon = icon_with(files);
    let picked = icon.file_for_size_filtered(32, |f| f.icon_type() == IconFileType::SVG).unwrap();
    assert_eq!(picked.icon_type(), IconFileType::SVG);
    assert!(icon.file_for_size_filtered(32, |f| f.icon_type() == IconFileType::XPM).is_none());
}

#[test]
fn test_icon_new_rejects_empty_parts() {
    assert!(Icon::new(String::new(), "theme".to_string(), vec![file(16, 1, "Fixed", None)])
        .is_none());
    assert!(Icon::new("icon".to_string(), String::new(), vec![file(16, 1, "Fixed", None)])
        .is_none());
    assert!(Icon::new("icon".to_string(), "theme".to_string(), Vec::new()).is_none());
    let icon = Icon::new("icon".to_string(), "theme".to_string(), vec![file(16, 1, "Fixed", None)])
        .unwrap();
    assert_eq!(icon.icon_name(), "icon");
    assert_eq!(icon.theme_name(), "theme");
    assert_eq!(icon.files().len(), 1);
}
