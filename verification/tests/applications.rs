use app_launcher::applications::{exec_line_is_ok, strip_field_code, DesktopEntry};

const FIREFOX: &str = "[Desktop Entry]\nName=Firefox\nComment=Browse the Web\nType=Application\nExec=firefox %u\nIcon=firefox\n";

#[test]
fn reads_an_application_entry() {
    let entry = DesktopEntry::load(FIREFOX).unwrap().unwrap();
    assert_eq!(entry.name.as_deref(), Some("Firefox"));
    assert_eq!(entry.comment, "Browse the Web");
    assert_eq!(entry.exec_command, "firefox");
    assert_eq!(entry.icon.as_deref(), Some("firefox"));
    let app = entry.into_application(Some("/usr/share/icons/firefox.png".to_string())).unwrap();
    assert_eq!(app.name, "Firefox");
    assert_eq!(app.exec_command, "firefox");
    assert_eq!(app.icon_path.as_deref(), Some("/usr/share/icons/firefox.png"));
}

#[test]
fn entry_without_comment_or_icon() {
    let text = "[Desktop Entry]\nType=Application\nName=Terminal\nExec=xterm\n";
    let entry = DesktopEntry::from_file(text).unwrap();
    assert_eq!(entry.comment, "");
    assert_eq!(entry.icon, None);
    assert_eq!(entry.exec_command, "xterm");
}

#[test]
fn entry_without_name_gives_no_application() {
    let text = "[Desktop Entry]\nType=Application\nExec=xterm\nIcon=terminal\n";
    let entry = DesktopEntry::load(text).unwrap().unwrap();
    assert_eq!(entry.name, None);
    assert_eq!(entry.icon.as_deref(), Some("terminal"));
    assert!(entry.into_application(None).is_none());
}

#[test]
fn other_entries_are_no_applications() {
    assert!(DesktopEntry::load("[Desktop Entry]\nType=Link\nName=Site\nURL=http://x\n").unwrap().is_none());
    assert!(DesktopEntry::load("[Desktop Entry]\nType=Application\nName=NoExec\n").unwrap().is_none());
    assert!(DesktopEntry::load("[Other]\nType=Application\nExec=x y\n").unwrap().is_none());
    assert!(DesktopEntry::load("=no key\n").unwrap().is_none());
}

#[test]
fn byte_order_mark_is_skipped() {
    let text = format!("\u{feff}{}", FIREFOX);
    let entry = DesktopEntry::load(&text).unwrap().unwrap();
    assert_eq!(entry.name.as_deref(), Some("Firefox"));
}

#[test]
fn exec_line_that_cannot_be_shortened_is_reported() {
    let text = "[Desktop Entry]\nType=Application\nName=Broken\nExec=\n";
    assert!(DesktopEntry::load(text).is_err());
    assert!(!DesktopEntry::is_complete(text));
    assert!(DesktopEntry::is_complete(FIREFOX));
}

#[test]
fn field_codes_are_cut_off() {
    assert_eq!(strip_field_code("gimp-2.10 %U"), "gimp-2.10");
    assert_eq!(strip_field_code("nautilus --new-window"), "nautilus --new-window");
    assert_eq!(strip_field_code("abc%f"), "ab");
    // Positions are counted in bytes, so a non-ASCII line keeps its field code.
    assert_eq!(strip_field_code("é %f"), "é %f");
    assert_eq!(strip_field_code("aé%"), "a");
    assert_eq!(strip_field_code("éditeur"), "éditeur");
}

#[test]
fn exec_lines_that_cannot_be_shortened() {
    assert!(!exec_line_is_ok(""));
    assert!(!exec_line_is_ok("a"));
    assert!(!exec_line_is_ok("%u"));
    assert!(!exec_line_is_ok("éé"));
    assert!(exec_line_is_ok("é"));
    assert!(exec_line_is_ok("x %u"));
    assert!(exec_line_is_ok("x%é"));
    assert!(!exec_line_is_ok("éa%"));
}
