use app_launcher::strings::{chars_of, concatenate, contains_chars, parse_u16, split_char, string_from_chars};

#[test]
fn split_at_commas() {
    assert_eq!(split_char("apps,actions,,places", ','), vec!["apps", "actions", "", "places"]);
    assert_eq!(split_char("", ','), vec![""]);
    assert_eq!(split_char("hicolor", ','), vec!["hicolor"]);
    assert_eq!(split_char("a,", ','), vec!["a", ""]);
}

#[test]
fn split_then_join_gives_back_the_text() {
    for text in ["16x16/apps,32x32/apps", ",,", "x", ""] {
        assert_eq!(split_char(text, ',').join(","), text);
    }
}

#[test]
fn parse_u16_as_std_does() {
    for text in ["48", "+7", "0", "065535", "65535", "65536", "", "+", "-1", "1a", " 4", "99999999999"] {
        assert_eq!(parse_u16(text), text.parse::<u16>().ok(), "{text}");
    }
    assert_eq!(parse_u16("256"), Some(256));
}

#[test]
fn substring_test() {
    let hay = chars_of("firefox");
    assert!(contains_chars(&hay, &chars_of("ref")));
    assert!(contains_chars(&hay, &chars_of("")));
    assert!(contains_chars(&hay, &chars_of("firefox")));
    assert!(!contains_chars(&hay, &chars_of("foxes")));
    assert!(!contains_chars(&chars_of(""), &chars_of("a")));
}

#[test]
fn string_helpers() {
    assert_eq!(concatenate("/home/u", "/.qlauncher/"), "/home/u/.qlauncher/");
    assert_eq!(string_from_chars(&vec!['é', 'x']), "éx");
}
