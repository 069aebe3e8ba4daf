use icon_loader::{Disk, Error, IconFileType, IconLoader, IndexSource, ProviderError, SearchPaths,
    ThemeDirData, ThemeNameProvider};

fn theme_dir(root: &str, theme: &str, text: &str) -> ThemeDirData {
    ThemeDirData {
        root: root.to_string(),
        theme: theme.to_string(),
        source: IndexSource::Content(text.to_string()),
    }
}

fn system_disk() -> Disk {
    Disk {
        theme_dirs: vec![theme_dir(
            "/usr/share/icons",
            "hicolor",
            "[Icon Theme]\nName=hicolor\n[32x32/apps]\nSize=32\n[48x48/apps]\nSize=48\n",
        )],
        files: vec![
            "/usr/share/icons/hicolor/32x32/apps/firefox.png".to_string(),
            "/usr/share/icons/hicolor/48x48/apps/firefox.png".to_string(),
        ],
        system_paths: vec!["/usr/share/icons".to_string()],
    }
}

#[test]
fn test_find_firefox_icon() {
    let mut loader = IconLoader::new();
    let disk = system_disk();

    let icon = loader.load_icon("firefox", &disk).unwrap();
    let icon = icon.file_for_size_scaled(32, 1);

    assert_eq!(icon.dir_info().path(), "32x32/apps");
    assert_eq!(icon.dir_info().scale(), 1);
    assert_eq!(icon.icon_type(), IconFileType::PNG);
}

#[test]
fn test_icon_not_found_anywhere() {
    let mut loader = IconLoader::new();
    let disk = system_disk();
    assert!(loader.load_icon("no-such-icon", &disk).is_none());
    assert!(loader.load_icon("", &disk).is_none());
}

#[test]
fn test_cyclic_inheritance_terminates_and_reaches_hicolor() {
    // alpha inherits beta; beta inherits alpha. The icon lives only in
    // hicolor: the lookup must end and must find it.
    let disk = Disk {
        theme_dirs: vec![
            theme_dir("/r", "alpha", "[Icon Theme]\nInherits=beta\n[16x16/apps]\nSize=16\n"),
            theme_dir("/r", "beta", "[Icon Theme]\nInherits=alpha\n[16x16/apps]\nSize=16\n"),
            theme_dir("/r", "hicolor", "[32x32/apps]\nSize=32\n"),
        ],
        files: vec!["/r/hicolor/32x32/apps/lonely.png".to_string()],
        system_paths: Vec::new(),
    };
    let mut loader = IconLoader::new();
    loader.set_search_paths(SearchPaths::custom(vec!["/r".to_string()]));
    loader.update_theme_name(Ok("alpha".to_string()), &disk).unwrap();
    assert_eq!(loader.theme_name(), "alpha");

    let icon = loader.load_icon("lonely", &disk).unwrap();
    assert_eq!(icon.theme_name(), "hicolor");
    assert_eq!(icon.files()[0].path(), "/r/hicolor/32x32/apps/lonely.png");
}

#[test]
fn test_own_theme_wins_over_parents_and_fallback() {
    let disk = Disk {
        theme_dirs: vec![
            theme_dir("/r", "alpha", "[Icon Theme]\nInherits=parent\n[16x16/apps]\nSize=16\n"),
            theme_dir("/r", "parent", "[16x16/apps]\nSize=16\n"),
            theme_dir("/r", "hicolor", "[16x16/apps]\nSize=16\n"),
        ],
        files: vec![
            "/r/parent/16x16/apps/tool.png".to_string(),
            "/r/hicolor/16x16/apps/tool.png".to_string(),
        ],
        system_paths: Vec::new(),
    };
    let mut loader = IconLoader::new();
    loader.set_search_paths(SearchPaths::custom(vec!["/r".to_string()]));
    loader.update_theme_name(Ok("alpha".to_string()), &disk).unwrap();

    // Not in alpha itself, so alpha's parent is searched before hicolor.
    let icon = loader.load_icon("tool", &disk).unwrap();
    assert_eq!(icon.theme_name(), "parent");
}

#[test]
fn test_theme_exists_for_unknown_name() {
    let mut loader = IconLoader::new();
    let disk = system_disk();
    assert!(!loader.theme_exists("nonexistent-zzz", &disk));
    assert!(!loader.theme_exists("", &disk));
    assert!(loader.theme_exists("hicolor", &disk));
}

#[test]
fn test_repeated_lookup_gives_equal_results() {
    let mut loader = IconLoader::new();
    let disk = system_disk();
    let first = loader.load_icon("firefox", &disk).unwrap();
    let second = loader.load_icon("firefox", &disk).unwrap();
    assert_eq!(first, second);
}

#[test]
fn test_search_root_change_invalidates_cache() {
    let disk = Disk {
        theme_dirs: vec![
            theme_dir("/one", "acme", "[16x16/apps]\nSize=16\n"),
            theme_dir("/two", "acme", "[48x48/apps]\nSize=48\n"),
        ],
        files: vec![
            "/one/acme/16x16/apps/gear.png".to_string(),
            "/two/acme/48x48/apps/gear.png".to_string(),
        ],
        system_paths: Vec::new(),
    };
    let mut loader = IconLoader::new();
    loader.set_search_paths(SearchPaths::custom(vec!["/one".to_string()]));
    loader.update_theme_name(Ok("acme".to_string()), &disk).unwrap();

    let icon = loader.load_icon("gear", &disk).unwrap();
    assert_eq!(icon.files()[0].path(), "/one/acme/16x16/apps/gear.png");

    loader.set_search_paths(SearchPaths::custom(vec!["/two".to_string()]));
    let icon = loader.load_icon("gear", &disk).unwrap();
    assert_eq!(icon.files()[0].path(), "/two/acme/48x48/apps/gear.png");
}

#[test]
fn test_update_theme_name_refuses_unknown_theme() {
    let mut loader = IconLoader::new();
    let disk = system_disk();
    let err = loader.update_theme_name(Ok("missing-theme".to_string()), &disk).unwrap_err();
    match err {
        Error::ThemeNotFound { theme_name } => assert_eq!(theme_name, "missing-theme"),
        other => panic!("unexpected error: {:?}", other),
    }
    assert_eq!(loader.theme_name(), "hicolor");
}

#[test]
fn test_update_theme_name_wraps_provider_error() {
    let mut loader = IconLoader::new();
    let disk = system_disk();
    let err = loader
        .update_theme_name(Err(ProviderError::ConfigNotFound), &disk)
        .unwrap_err();
    match err {
        Error::ThemeNameProvider { source } => assert_eq!(source, ProviderError::ConfigNotFound),
        other => panic!("unexpected error: {:?}", other),
    }
}

#[test]
fn test_update_theme_name_switches_to_existing_theme() {
    let disk = Disk {
        theme_dirs: vec![
            theme_dir("/r", "breeze", "[16x16/apps]\nSize=16\n"),
            theme_dir("/r", "hicolor", "[16x16/apps]\nSize=16\n"),
        ],
        files: Vec::new(),
        system_paths: vec!["/r".to_string()],
    };
    let mut loader = IconLoader::new();
    loader.update_theme_name(Ok("breeze".to_string()), &disk).unwrap();
    assert_eq!(loader.theme_name(), "breeze");
    assert_eq!(loader.fallback_theme_name(), "hicolor");
}

#[test]
fn test_provider_constructors() {
    let user = ThemeNameProvider::user("my-theme".to_string());
    match &user {
        ThemeNameProvider::User(name) => assert_eq!(name, "my-theme"),
        other => panic!("unexpected provider: {:?}", other),
    }
    let custom = ThemeNameProvider::custom();
    assert!(matches!(custom, ThemeNameProvider::Custom));
    let mut loader = IconLoader::new();
    loader.set_theme_name_provider(user);
    loader.set_theme_name_provider(custom);
}

#[test]
fn test_error_constructors() {
    match Error::icon_not_found("edit-copy".to_string()) {
        Error::IconNotFound { icon_name } => assert_eq!(icon_name, "edit-copy"),
        other => panic!("unexpected error: {:?}", other),
    }
    match Error::theme_not_found("emerald".to_string()) {
        Error::ThemeNotFound { theme_name } => assert_eq!(theme_name, "emerald"),
        other => panic!("unexpected error: {:?}", other),
    }
}

#[test]
fn test_search_paths_custom() {
    let sp = SearchPaths::custom(vec!["/a".to_string(), "/b".to_string()]);
    match &sp {
        SearchPaths::Custom(dirs) => {
            assert_eq!(dirs, &vec!["/a".to_string(), "/b".to_string()]);
        },
        other => panic!("unexpected search paths: {:?}", other),
    }
    let system = vec!["/sys/icons".to_string()];
    assert_eq!(sp.paths(&system), &vec!["/a".to_string(), "/b".to_string()]);
    assert_eq!(SearchPaths::System.paths(&system), &system);
}
