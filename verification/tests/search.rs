use app_launcher::applications::Application;
use app_launcher::engine::{ApplicationSearcher, SearchEngine};

fn app(name: &str, exec: &str, icon: Option<&str>) -> Application {
    Application {
        name: name.to_string(),
        comment: String::new(),
        exec_command: exec.to_string(),
        icon_path: icon.map(|s| s.to_string()),
    }
}

fn searcher() -> ApplicationSearcher {
    ApplicationSearcher::new(vec![
        app("Firefox Web Browser", "firefox", Some("/icons/firefox.png")),
        app("GIMP", "gimp-2.10", None),
        app("Files", "nautilus --new-window", Some("/icons/files.svg")),
    ])
}

#[test]
fn search_ignores_case_and_keeps_order() {
    let results = searcher().search("FI");
    let names: Vec<&str> = results.iter().map(|r| r.name.as_str()).collect();
    assert_eq!(names, vec!["Firefox Web Browser", "Files"]);
    assert_eq!(results[1].exec_command, "nautilus --new-window");
    assert_eq!(results[1].icon_path.as_deref(), Some("/icons/files.svg"));
}

#[test]
fn search_matches_inside_names() {
    let results = searcher().search("web");
    assert_eq!(results.len(), 1);
    assert_eq!(results[0].exec_command, "firefox");
    assert_eq!(results[0].icon_path.as_deref(), Some("/icons/firefox.png"));
}

#[test]
fn empty_query_finds_every_application() {
    let results = searcher().search("");
    assert_eq!(results.len(), 3);
    assert_eq!(results[1].name, "GIMP");
    assert_eq!(results[1].icon_path, None);
}

#[test]
fn unmatched_query_finds_nothing() {
    assert!(searcher().search("thunderbird").is_empty());
}

#[test]
fn narrowing_query_never_adds_results() {
    let s = searcher();
    let wide = s.search("f");
    let narrow = s.search("fil");
    assert_eq!(wide.len(), 2);
    assert_eq!(narrow.len(), 1);
    assert!(narrow.iter().all(|n| wide.iter().any(|w| w.name == n.name)));
}

#[test]
fn non_ascii_names_are_lowercased() {
    let s = ApplicationSearcher::new(vec![app("ÉDITEUR", "editor", None)]);
    assert_eq!(s.search("édi").len(), 1);
}

#[test]
fn searcher_keeps_its_applications() {
    let s = searcher();
    assert_eq!(s.applications().len(), 3);
    assert_eq!(s.applications()[2].name, "Files");
}

#[test]
fn ascii_case_variants_give_the_same_results() {
    let s = searcher();
    let names = |q: &str| s.search(q).iter().map(|r| r.name.clone()).collect::<Vec<_>>();
    assert_eq!(names("fIlEs"), names("FILES"));
    assert_eq!(names("fIlEs"), names("files"));
    assert_eq!(names("files"), vec!["Files".to_string()]);
}

#[test]
fn longer_query_gives_a_subsequence() {
    let s = searcher();
    let wide: Vec<String> = s.search("i").iter().map(|r| r.name.clone()).collect();
    let narrow: Vec<String> = s.search("fi").iter().map(|r| r.name.clone()).collect();
    assert_eq!(wide, vec!["Firefox Web Browser", "GIMP", "Files"]);
    let kept: Vec<String> = wide.into_iter().filter(|n| n.to_lowercase().contains("fi")).collect();
    assert_eq!(narrow, kept);
}
