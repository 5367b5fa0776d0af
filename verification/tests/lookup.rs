use app_launcher::icon_lookup::{IconLookup, LookupStart};
use app_launcher::icon_search::{SearchAction, SearchEvent};
use app_launcher::icons::DirEntryInfo;

#[test]
fn absolute_icon_names_are_their_own_paths() {
    let lookup = IconLookup::new("Adwaita".to_string(), None);
    match lookup.lookup("/opt/app/icon.png") {
        LookupStart::Found(p) => assert_eq!(p.as_deref(), Some("/opt/app/icon.png")),
        _ => panic!("expected an answer"),
    }
}

#[test]
fn unknown_icons_start_a_search_in_the_theme() {
    let lookup = IconLookup::new("Adwaita".to_string(), None);
    match lookup.lookup("firefox") {
        LookupStart::Search(_, SearchAction::LoadTheme { theme_path, index_path }) => {
            assert_eq!(theme_path, "/usr/share/icons/Adwaita/");
            assert_eq!(index_path, "/usr/share/icons/Adwaita/index.theme");
        },
        _ => panic!("expected a search"),
    }
}

#[test]
fn remembered_answers_are_given_back() {
    let mut lookup = IconLookup::new("Adwaita".to_string(), None);
    lookup.remember("firefox", &Some("/usr/share/pixmaps/firefox.png".to_string()));
    lookup.remember("ghost", &None);
    match lookup.lookup("firefox") {
        LookupStart::Found(p) => assert_eq!(p.as_deref(), Some("/usr/share/pixmaps/firefox.png")),
        _ => panic!("expected a cached answer"),
    }
    match lookup.lookup("ghost") {
        LookupStart::Found(p) => assert_eq!(p, None),
        _ => panic!("expected a cached miss"),
    }
    lookup.remember("firefox", &Some("/other.png".to_string()));
    match lookup.lookup("firefox") {
        LookupStart::Found(p) => assert_eq!(p.as_deref(), Some("/other.png")),
        _ => panic!("expected a cached answer"),
    }
}

#[test]
fn cache_file_of_the_same_theme_is_read() {
    let file = "Theme=Adwaita\n\n[Cache]\nfirefox=/a/firefox.png\nghost=None\nfirefox=/b/firefox.png\n";
    let lookup = IconLookup::load("Adwaita".to_string(), Some(file)).unwrap();
    match lookup.lookup("firefox") {
        LookupStart::Found(p) => assert_eq!(p.as_deref(), Some("/b/firefox.png")),
        _ => panic!("expected a cached answer"),
    }
    match lookup.lookup("ghost") {
        LookupStart::Found(p) => assert_eq!(p, None),
        _ => panic!("expected a cached miss"),
    }
}

#[test]
fn cache_file_of_another_theme_is_ignored() {
    let file = "Theme=Papirus\n[Cache]\nfirefox=/a/firefox.png\n";
    let lookup = IconLookup::load("Adwaita".to_string(), Some(file)).unwrap();
    assert!(matches!(lookup.lookup("firefox"), LookupStart::Search(_, _)));
    assert_eq!(lookup.icon_theme(), "Adwaita");
}

#[test]
fn incomplete_cache_files_are_reported() {
    assert!(IconLookup::load("Adwaita".to_string(), Some("[Cache]\na=b\n")).is_err());
    assert!(IconLookup::load("Adwaita".to_string(), Some("Theme=Adwaita\n")).is_err());
    assert!(IconLookup::load("Adwaita".to_string(), Some("Theme=Other\n")).is_ok());
    assert!(IconLookup::load("Adwaita".to_string(), Some("=broken\n")).is_ok());
    assert!(IconLookup::cache_file_is_complete("Adwaita", None));
}

#[test]
fn saved_cache_reads_back() {
    let mut lookup = IconLookup::new("Adwaita".to_string(), None);
    lookup.remember("firefox", &Some("/usr/share/pixmaps/firefox.png".to_string()));
    lookup.remember("ghost", &None);
    let text = lookup.save();
    assert!(text.starts_with("Theme=Adwaita"));
    assert!(text.contains("[Cache]"));
    let again = IconLookup::load("Adwaita".to_string(), Some(&text)).unwrap();
    match again.lookup("firefox") {
        LookupStart::Found(p) => assert_eq!(p.as_deref(), Some("/usr/share/pixmaps/firefox.png")),
        _ => panic!("expected a cached answer"),
    }
    match again.lookup("ghost") {
        LookupStart::Found(p) => assert_eq!(p, None),
        _ => panic!("expected a cached miss"),
    }
}

#[test]
fn saved_empty_cache_cannot_be_read_back() {
    let lookup = IconLookup::new("Adwaita".to_string(), None);
    let text = lookup.save();
    assert!(IconLookup::load("Adwaita".to_string(), Some(&text)).is_err());
}

#[test]
fn a_finished_search_is_answered_from_the_cache_next_time() {
    let mut lookup = IconLookup::new("Adwaita".to_string(), None);
    let mut search = match lookup.lookup("None") {
        LookupStart::Search(search, _) => search,
        _ => panic!("expected a search"),
    };
    let _ = search.step(SearchEvent::ThemeLoaded(None));
    let found = match search.step(SearchEvent::DirScanned(vec![DirEntryInfo {
        path: "/usr/share/pixmaps/None.png".to_string(),
        is_dir: false,
    }])) {
        SearchAction::Finish(p) => p,
        other => panic!("expected the answer, got {:?}", other),
    };
    assert_eq!(found.as_deref(), Some("/usr/share/pixmaps/None.png"));
    lookup.remember("None", &found);
    match lookup.lookup("None") {
        LookupStart::Found(p) => assert_eq!(p, found),
        _ => panic!("expected a cached answer"),
    }
}
