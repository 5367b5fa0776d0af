use app_launcher::icons::{lookup_dir, sort_directories, DirEntryInfo, IconTheme, ThemeDirectory};

const INDEX: &str = "[Icon Theme]\nName=Hi\nComment=High contrast\nInherits=hicolor,Adwaita\nDirectories=16x16/apps,48x48/apps,scalable/apps,32x32/apps\n\n[16x16/apps]\nContext=Applications\nSize=16\n\n[48x48/apps]\nContext=Applications\nSize=48\n\n[scalable/apps]\nContext=Applications\nSize=48\nType=Scalable\n\n[32x32/apps]\nContext=Applications\nSize=+32\n";

#[test]
fn reads_a_theme_index() {
    let theme = IconTheme::load("/usr/share/icons/Hi/", INDEX).unwrap().unwrap();
    assert_eq!(theme.name, "Hi");
    assert_eq!(theme.comment, "High contrast");
    assert_eq!(theme.inherits, vec!["hicolor", "Adwaita"]);
    let dirs: Vec<(&str, u16)> = theme.directories.iter().map(|d| (d.path.as_str(), d.icon_size)).collect();
    assert_eq!(
        dirs,
        vec![
            ("/usr/share/icons/Hi/16x16/apps", 16),
            ("/usr/share/icons/Hi/48x48/apps", 48),
            ("/usr/share/icons/Hi/scalable/apps", 48),
            ("/usr/share/icons/Hi/32x32/apps", 32),
        ]
    );
    assert_eq!(theme.directories[0].context, "Applications");
}

#[test]
fn theme_without_inherits() {
    let text = "[Icon Theme]\nName=hicolor\nComment=Fallback\nDirectories=apps\n[apps]\nContext=Apps\nSize=64\n";
    let theme = IconTheme::from_file("/t/", text).unwrap();
    assert!(theme.inherits.is_empty());
    assert_eq!(theme.directories[0].path, "/t/apps");
}

#[test]
fn incomplete_theme_indexes_are_reported() {
    assert!(IconTheme::load("/t/", "[Icon Theme]\nName=x\nDirectories=a\n[a]\nContext=c\nSize=1\n").is_err());
    assert!(IconTheme::load("/t/", "[Icon Theme]\nName=x\nComment=y\nDirectories=a\n").is_err());
    assert!(IconTheme::load("/t/", "[Icon Theme]\nName=x\nComment=y\nDirectories=a\n[a]\nContext=c\nSize=big\n").is_err());
    assert!(IconTheme::load("/t/", "[Icon Theme]\nName=x\nComment=y\nDirectories=a\n[a]\nSize=4\n").is_err());
    assert!(!IconTheme::index_is_complete("[Other]\n"));
    assert!(IconTheme::index_is_complete(INDEX));
}

#[test]
fn unreadable_theme_index_is_no_theme() {
    assert!(IconTheme::load("/t/", "=value\n").unwrap().is_none());
    assert!(IconTheme::index_is_complete("=value\n"));
}

fn dir(path: &str, size: u16) -> ThemeDirectory {
    ThemeDirectory { path: path.to_string(), context: "Apps".to_string(), icon_size: size }
}

#[test]
fn directories_sort_from_large_to_small_and_stable() {
    let sorted = sort_directories(vec![dir("a", 16), dir("b", 48), dir("c", 48), dir("d", 32), dir("e", 16)]);
    let order: Vec<&str> = sorted.iter().map(|d| d.path.as_str()).collect();
    assert_eq!(order, vec!["b", "c", "d", "a", "e"]);
    assert!(sort_directories(vec![]).is_empty());
}

fn entry(path: &str, is_dir: bool) -> DirEntryInfo {
    DirEntryInfo { path: path.to_string(), is_dir }
}

#[test]
fn directory_lookup_matches_file_stems() {
    let entries = vec![
        entry("/p/firefox", true),
        entry("/p/firefox-esr.png", false),
        entry("/p/firefox.svg", false),
        entry("/p/firefox.png", false),
    ];
    assert_eq!(lookup_dir("firefox", &entries).as_deref(), Some("/p/firefox.svg"));
    assert_eq!(lookup_dir("firefox-esr", &entries).as_deref(), Some("/p/firefox-esr.png"));
    assert_eq!(lookup_dir("gimp", &entries), None);
    assert_eq!(lookup_dir("archive.tar", &vec![entry("/p/archive.tar.gz", false)]).as_deref(), Some("/p/archive.tar.gz"));
}
