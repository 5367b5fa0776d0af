use app_launcher::applications::Application;
use app_launcher::engine::ApplicationSearcher;
use app_launcher::gui::{Launcher, LauncherAction, LauncherEvent};

fn launcher() -> Launcher {
    let app = |name: &str, exec: &str| Application {
        name: name.to_string(),
        comment: String::new(),
        exec_command: exec.to_string(),
        icon_path: None,
    };
    Launcher::new(ApplicationSearcher::new(vec![app("Firefox", "firefox"), app("Files", "nautilus"), app("GIMP", "gimp")]))
}

fn rows(a: &LauncherAction) -> Vec<String> {
    match a {
        LauncherAction::ShowResults(rs) => rs.iter().map(|r| r.name.clone()).collect(),
        other => panic!("expected results, got {:?}", other),
    }
}

#[test]
fn typing_shows_results_and_enter_launches_the_selection() {
    let mut l = launcher();
    let a = l.step(LauncherEvent::TextChanged("fi".to_string()));
    assert_eq!(rows(&a), vec!["Firefox", "Files"]);
    assert!(matches!(l.step(LauncherEvent::EntryActivated), LauncherAction::Nothing));
    assert!(matches!(l.step(LauncherEvent::SelectionChanged(1)), LauncherAction::Nothing));
    match l.step(LauncherEvent::EntryActivated) {
        LauncherAction::Launch(c) => assert_eq!(c, "nautilus"),
        other => panic!("expected a launch, got {:?}", other),
    }
    match l.step(LauncherEvent::RowActivated) {
        LauncherAction::Launch(c) => assert_eq!(c, "nautilus"),
        other => panic!("expected a launch, got {:?}", other),
    }
}

#[test]
fn search_without_results_keeps_the_earlier_selection() {
    let mut l = launcher();
    l.step(LauncherEvent::TextChanged("gimp".to_string()));
    l.step(LauncherEvent::SelectionChanged(0));
    let a = l.step(LauncherEvent::TextChanged("gimpx".to_string()));
    assert!(rows(&a).is_empty());
    match l.step(LauncherEvent::EntryActivated) {
        LauncherAction::Launch(c) => assert_eq!(c, "gimp"),
        other => panic!("expected a launch, got {:?}", other),
    }
}

#[test]
fn clearing_the_text_hides_the_list_once() {
    let mut l = launcher();
    assert!(matches!(l.step(LauncherEvent::TextChanged(String::new())), LauncherAction::ClearList));
    l.step(LauncherEvent::TextChanged("f".to_string()));
    assert!(matches!(l.step(LauncherEvent::TextChanged(String::new())), LauncherAction::HideList));
    assert!(matches!(l.step(LauncherEvent::TextChanged(String::new())), LauncherAction::ClearList));
}

#[test]
fn escape_focus_loss_and_closing_quit() {
    let mut l = launcher();
    assert!(matches!(l.step(LauncherEvent::KeyReleased { escape: true }), LauncherAction::Quit));
    assert!(matches!(l.step(LauncherEvent::KeyReleased { escape: false }), LauncherAction::Nothing));
    assert!(matches!(l.step(LauncherEvent::FocusLost), LauncherAction::Quit));
    assert!(matches!(l.step(LauncherEvent::WindowClosed), LauncherAction::Quit));
}
