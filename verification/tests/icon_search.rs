use app_launcher::icon_search::{IconSearch, SearchAction, SearchEvent, SearchStage};
use app_launcher::icons::{DirEntryInfo, IconTheme, ThemeDirectory};

fn theme(dirs: &[(&str, u16)], inherits: &[&str]) -> IconTheme {
    IconTheme {
        name: "t".to_string(),
        comment: String::new(),
        directories: dirs
            .iter()
            .map(|(p, s)| ThemeDirectory { path: p.to_string(), context: "Apps".to_string(), icon_size: *s })
            .collect(),
        inherits: inherits.iter().map(|s| s.to_string()).collect(),
    }
}

fn file(path: &str) -> DirEntryInfo {
    DirEntryInfo { path: path.to_string(), is_dir: false }
}

fn scan_path(a: &SearchAction) -> String {
    match a {
        SearchAction::ScanDir(p) => p.clone(),
        other => panic!("expected a scan, got {:?}", other),
    }
}

fn theme_path(a: &SearchAction) -> String {
    match a {
        SearchAction::LoadTheme { theme_path, .. } => theme_path.clone(),
        other => panic!("expected a theme, got {:?}", other),
    }
}

#[test]
fn search_walks_large_directories_first_then_inherited_themes() {
    let (mut search, first) = IconSearch::start("Hi", "gimp");
    assert_eq!(theme_path(&first), "/usr/share/icons/Hi/");
    let a = search.step(SearchEvent::ThemeLoaded(Some(theme(&[("/hi/16", 16), ("/hi/48", 48)], &["hicolor", "Hi"]))));
    assert_eq!(scan_path(&a), "/hi/48");
    let a = search.step(SearchEvent::DirScanned(vec![file("/hi/48/other.png")]));
    assert_eq!(scan_path(&a), "/hi/16");
    let a = search.step(SearchEvent::DirScanned(vec![]));
    assert_eq!(theme_path(&a), "/usr/share/icons/hicolor/");
    let a = search.step(SearchEvent::ThemeLoaded(Some(theme(&[("/hc/32", 32)], &["Hi"]))));
    assert_eq!(scan_path(&a), "/hc/32");
    let a = search.step(SearchEvent::DirScanned(vec![file("/hc/32/gimp.png")]));
    match a {
        SearchAction::Finish(p) => assert_eq!(p.as_deref(), Some("/hc/32/gimp.png")),
        other => panic!("expected the answer, got {:?}", other),
    }
    assert_eq!(search.stage(), SearchStage::Done);
}

#[test]
fn search_falls_back_to_pixmaps_and_never_reenters_a_theme() {
    let (mut search, _) = IconSearch::start("Hi", "gimp");
    let a = search.step(SearchEvent::ThemeLoaded(Some(theme(&[], &["Hi", "missing", "Hi"]))));
    assert_eq!(theme_path(&a), "/usr/share/icons/missing/");
    let a = search.step(SearchEvent::ThemeLoaded(None));
    assert_eq!(scan_path(&a), "/usr/share/pixmaps/");
    assert_eq!(search.stage(), SearchStage::Pixmaps);
    let a = search.step(SearchEvent::DirScanned(vec![file("/usr/share/pixmaps/gimp.xpm")]));
    match a {
        SearchAction::Finish(p) => assert_eq!(p.as_deref(), Some("/usr/share/pixmaps/gimp.xpm")),
        other => panic!("expected the answer, got {:?}", other),
    }
}

#[test]
fn search_without_any_match_finds_nothing() {
    let (mut search, _) = IconSearch::start("Hi", "gimp");
    let a = search.step(SearchEvent::ThemeLoaded(None));
    assert_eq!(scan_path(&a), "/usr/share/pixmaps/");
    match search.step(SearchEvent::DirScanned(vec![file("/usr/share/pixmaps/other.png")])) {
        SearchAction::Finish(p) => assert_eq!(p, None),
        other => panic!("expected the answer, got {:?}", other),
    }
}

#[test]
fn search_through_themes_that_inherit_each_other_ends() {
    let (mut search, mut action) = IconSearch::start("a", "gimp");
    let mut reads = 0;
    loop {
        reads += 1;
        assert!(reads < 20, "the search did not end");
        action = match action {
            SearchAction::LoadTheme { .. } => {
                search.step(SearchEvent::ThemeLoaded(Some(theme(&[("/d", 16)], &["a", "b", "a"]))))
            },
            SearchAction::ScanDir(_) => search.step(SearchEvent::DirScanned(vec![file("/d/other.png")])),
            SearchAction::Finish(p) => {
                assert_eq!(p, None);
                break;
            },
        };
    }
    assert_eq!(reads, 6);
}
