use app_launcher::execution::{launch_outcome, shell, ExecutionResult};
use app_launcher::icons::{get_icon_theme, icon_cache_path};
use app_launcher::utils::{dark_stylesheet, gtk_css_dir, placeholder_icon_path};
use app_launcher::utils::{
    application_dirs, get_gsetting, gsetting_command, gsetting_output_is_ok, gtk_theme_command, icon_theme_command,
    settings_folder_path,
};

#[test]
fn setting_values_lose_their_quotes() {
    assert_eq!(get_gsetting("'Adwaita'").as_deref(), Some("Adwaita"));
    assert_eq!(get_gsetting("'é'").as_deref(), Some("é"));
    assert_eq!(get_gsetting("''"), None);
    assert_eq!(get_gsetting(""), None);
    assert_eq!(get_icon_theme("'Papirus-Dark'").as_deref(), Some("Papirus-Dark"));
    assert!(gsetting_output_is_ok("'Adwaita'"));
    assert!(!gsetting_output_is_ok("éab"));
}

#[test]
fn setting_commands() {
    assert_eq!(gsetting_command("a.b", "c"), "gsettings get a.b c");
    assert_eq!(icon_theme_command(), "gsettings get org.gnome.desktop.interface icon-theme");
    assert_eq!(gtk_theme_command(), "gsettings get org.gnome.desktop.interface gtk-theme");
}

#[test]
fn launcher_paths() {
    assert_eq!(settings_folder_path("/home/ann"), "/home/ann/.qlauncher/");
    assert_eq!(icon_cache_path("/home/ann/.qlauncher/"), "/home/ann/.qlauncher/icon_cache");
    assert_eq!(
        application_dirs("/home/ann"),
        vec!["/usr/share/applications/".to_string(), "/home/ann/.local/share/applications/".to_string()]
    );
}

#[test]
fn launch_outcomes() {
    assert!(matches!(launch_outcome("firefox", None), ExecutionResult::Succeeded));
    match launch_outcome("nope", Some("No such file or directory")) {
        ExecutionResult::Failed(m) => assert_eq!(m, "failed to run command nope: No such file or directory"),
        other => panic!("unexpected {:?}", other),
    }
    assert_eq!(shell(), "bash");
}

#[test]
fn theme_and_resource_paths() {
    assert_eq!(placeholder_icon_path("/h/.qlauncher/"), "/h/.qlauncher/resources/eye.png");
    assert_eq!(gtk_css_dir("Adwaita"), "/usr/share/themes/Adwaita/gtk-3.0/");
    assert_eq!(dark_stylesheet("/usr/share/themes/Adwaita/gtk-3.0/"), "/usr/share/themes/Adwaita/gtk-3.0//gtk-dark.css");
}
