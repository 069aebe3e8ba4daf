use icon_loader::{Disk, IconFileType, IconThemeChain, IconTheme, IndexSource, ThemeDirData,
    ThemeError};

fn theme_dir(root: &str, theme: &str, source: IndexSource) -> ThemeDirData {
    ThemeDirData { root: root.to_string(), theme: theme.to_string(), source }
}

fn content(text: &str) -> IndexSource {
    IndexSource::Content(text.to_string())
}

#[test]
fn test_from_source_not_a_directory() {
    let mut parents: Vec<String> = Vec::new();
    let r = IconTheme::from_source(
        "/r/missing".to_string(),
        &IndexSource::NotADirectory,
        &mut parents,
    );
    assert_eq!(r.unwrap_err(), ThemeError::NotDirectory);
    assert!(parents.is_empty());
}

#[test]
fn test_from_source_index_missing() {
    let mut parents: Vec<String> = Vec::new();
    let r = IconTheme::from_source(
        "/r/bare".to_string(),
        &IndexSource::NoIndexFile,
        &mut parents,
    );
    assert_eq!(r.unwrap_err(), ThemeError::IndexThemeNotFound);
    assert!(parents.is_empty());
}

#[test]
fn test_from_source_unparsable_index() {
    let mut parents: Vec<String> = Vec::new();
    let r = IconTheme::from_source(
        "/r/broken".to_string(),
        &content("[unclosed\nSize=32\n"),
        &mut parents,
    );
    assert_eq!(r.unwrap_err(), ThemeError::ParseFailed);
    assert!(parents.is_empty());
}

#[test]
fn test_from_source_empty_key_list() {
    let mut parents: Vec<String> = Vec::new();
    let text = "[Icon Theme]\nName=Bare\nInherits=base\n[scalable/apps]\nSize=0\n";
    let r = IconTheme::from_source("/r/bare".to_string(), &content(text), &mut parents);
    assert_eq!(r.unwrap_err(), ThemeError::KeyListEmpty);
    // The declared parents are still pooled even though the load failed.
    assert_eq!(parents, vec!["base".to_string()]);
}

#[test]
fn test_from_source_reads_dirs_and_parents() {
    let mut parents: Vec<String> = Vec::new();
    let text = "[Icon Theme]\nInherits=Adwaita, breeze ,Adwaita\n\
                [32x32/apps]\nSize=32\n[bogus]\nSize=junk\n[48x48/apps]\nSize=48\nScale=2\n";
    let theme = IconTheme::from_source("/r/cool".to_string(), &content(text), &mut parents)
        .unwrap();
    assert_eq!(theme.content_dir, "/r/cool");
    let dirs = theme.dirs();
    assert_eq!(dirs.len(), 2);
    assert_eq!(dirs[0].path(), "32x32/apps");
    assert_eq!(dirs[0].size(), 32);
    assert_eq!(dirs[1].path(), "48x48/apps");
    assert_eq!(dirs[1].scale(), 2);
    assert_eq!(parents, vec!["Adwaita".to_string(), "breeze".to_string()]);
}

#[test]
fn test_chain_pools_roots_and_dedups_parents() {
    let disk = Disk {
        theme_dirs: vec![
            theme_dir(
                "/r1",
                "cool",
                content("[Icon Theme]\nInherits=alpha,beta\n[16x16/apps]\nSize=16\n"),
            ),
            theme_dir(
                "/r2",
                "cool",
                content("[Icon Theme]\nInherits=beta,gamma\n[32x32/apps]\nSize=32\n"),
            ),
        ],
        files: Vec::new(),
        system_paths: Vec::new(),
    };
    let roots = vec!["/r1".to_string(), "/r2".to_string()];
    let chain = IconThemeChain::find("cool", &roots, &disk);
    assert_eq!(chain.name(), "cool");
    assert!(!chain.is_empty());
    assert_eq!(
        chain.parents(),
        &vec![
            "alpha".to_string(),
            "beta".to_string(),
            "gamma".to_string(),
            "hicolor".to_string(),
        ],
    );
}

#[test]
fn test_chain_for_absent_theme_is_empty() {
    let disk = Disk { theme_dirs: Vec::new(), files: Vec::new(), system_paths: Vec::new() };
    let roots = vec!["/r1".to_string()];
    let chain = IconThemeChain::find("ghost", &roots, &disk);
    assert!(chain.is_empty());
    assert_eq!(chain.parents(), &vec!["hicolor".to_string()]);
    assert!(chain.find_icon("anything", &disk).is_none());
}

#[test]
fn test_chain_keeps_declared_hicolor_position() {
    let disk = Disk {
        theme_dirs: vec![theme_dir(
            "/r1",
            "cool",
            content("[Icon Theme]\nInherits=hicolor,alpha\n[16x16/apps]\nSize=16\n"),
        )],
        files: Vec::new(),
        system_paths: Vec::new(),
    };
    let roots = vec!["/r1".to_string()];
    let chain = IconThemeChain::find("cool", &roots, &disk);
    assert_eq!(chain.parents(), &vec!["hicolor".to_string(), "alpha".to_string()]);
}

#[test]
fn test_find_icon_gathers_files_in_priority_order() {
    let text = "[16x16/apps]\nSize=16\n[32x32/apps]\nSize=32\n";
    let disk = Disk {
        theme_dirs: vec![theme_dir("/r1", "cool", content(text))],
        files: vec![
            "/r1/cool/32x32/apps/editor.png".to_string(),
            "/r1/cool/32x32/apps/editor.svg".to_string(),
            "/r1/cool/16x16/apps/editor.xpm".to_string(),
        ],
        system_paths: Vec::new(),
    };
    let roots = vec!["/r1".to_string()];
    let chain = IconThemeChain::find("cool", &roots, &disk);
    let icon = chain.find_icon("editor", &disk).unwrap();
    assert_eq!(icon.icon_name(), "editor");
    assert_eq!(icon.theme_name(), "cool");
    let files = icon.files();
    assert_eq!(files.len(), 3);
    assert_eq!(files[0].path(), "/r1/cool/16x16/apps/editor.xpm");
    assert_eq!(files[0].icon_type(), IconFileType::XPM);
    assert_eq!(files[1].path(), "/r1/cool/32x32/apps/editor.png");
    assert_eq!(files[1].icon_type(), IconFileType::PNG);
    assert_eq!(files[2].path(), "/r1/cool/32x32/apps/editor.svg");
    assert_eq!(files[2].icon_type(), IconFileType::SVG);
}

#[test]
fn test_find_icon_none_for_empty_name_or_no_files() {
    let text = "[16x16/apps]\nSize=16\n";
    let disk = Disk {
        theme_dirs: vec![theme_dir("/r1", "cool", content(text))],
        files: Vec::new(),
        system_paths: Vec::new(),
    };
    let roots = vec!["/r1".to_string()];
    let chain = IconThemeChain::find("cool", &roots, &disk);
    assert!(chain.find_icon("", &disk).is_none());
    assert!(chain.find_icon("editor", &disk).is_none());
}

#[test]
fn test_theme_entries_probe_existing_files_only() {
    let mut parents: Vec<String> = Vec::new();
    let text = "[16x16/apps]\nSize=16\n[32x32/apps]\nSize=32\n";
    let theme = IconTheme::from_source("/r1/cool".to_string(), &content(text), &mut parents)
        .unwrap();
    let disk = Disk {
        theme_dirs: Vec::new(),
        files: vec![
            "/r1/cool/16x16/apps/editor.png".to_string(),
            "/r1/cool/32x32/apps/other.png".to_string(),
        ],
        system_paths: Vec::new(),
    };
    let entries = theme.entries("editor", &disk);
    assert_eq!(entries.len(), 1);
    assert_eq!(entries[0].path(), "/r1/cool/16x16/apps/editor.png");
    assert_eq!(entries[0].size(), 16);
    assert!(theme.entries("", &disk).is_empty());
}
