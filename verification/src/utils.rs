//! Paths of the launcher's files and the reading of desktop settings.
use vstd::prelude::*;
use vstd::utf8::{decode_utf8, encode_utf8, encode_utf8_decode_utf8, is_char_boundary};

use vstd::string::StringSliceAdditionalSpecFns;

use crate::strings::concatenate;

verus! {

/// The launcher's settings folder in the home directory `home`.
pub open spec fn settings_folder(home: Seq<char>) -> Seq<char> {
    home + "/.qlauncher/"@
}

/// The path of the launcher's settings folder for the home directory `home`.
pub fn settings_folder_path(home: &str) -> (r: String)
    ensures
        r@ == settings_folder(home@),
{
    concatenate(home, "/.qlauncher/")
}

/// The image shown for results without an icon, in the settings folder.
pub fn placeholder_icon_path(settings_folder: &str) -> (r: String)
    ensures
        r@ == settings_folder@ + "resources/eye.png"@,
{
    concatenate(settings_folder, "resources/eye.png")
}

/// The folder of the GTK 3 style sheets of the GTK theme named `gtk_theme`.
pub fn gtk_css_dir(gtk_theme: &str) -> (r: String)
    ensures
        r@ == "/usr/share/themes/"@ + gtk_theme@ + "/gtk-3.0/"@,
{
    let a = concatenate("/usr/share/themes/", gtk_theme);
    concatenate(a.as_str(), "/gtk-3.0/")
}

/// The dark style sheet in a theme's style sheet folder.
pub fn dark_stylesheet(css_dir: &str) -> (r: String)
    ensures
        r@ == css_dir@ + "/gtk-dark.css"@,
{
    concatenate(css_dir, "/gtk-dark.css")
}

/// The directories that hold desktop files: the system's, then the user's.
pub fn application_dirs(home: &str) -> (r: Vec<String>)
    ensures
        r@.len() == 2,
        r@[0]@ == "/usr/share/applications/"@,
        r@[1]@ == home@ + "/.local/share/applications/"@,
{
    let mut dirs: Vec<String> = Vec::new();
    dirs.push("/usr/share/applications/".to_owned());
    dirs.push(concatenate(home, "/.local/share/applications/"));
    dirs
}

/// The command that prints the value of `key` in the settings schema `path`.
pub fn gsetting_command(path: &str, key: &str) -> (r: String)
    ensures
        r@ == "gsettings get "@ + path@ + " "@ + key@,
{
    let a = concatenate("gsettings get ", path);
    let b = concatenate(a.as_str(), " ");
    concatenate(b.as_str(), key)
}

/// The settings schema of the desktop's interface settings.
pub open spec fn interface_schema() -> Seq<char> {
    "org.gnome.desktop.interface"@
}

/// The command that prints the icon theme's name.
pub fn icon_theme_command() -> (r: String)
    ensures
        r@ == "gsettings get "@ + interface_schema() + " "@ + "icon-theme"@,
{
    gsetting_command("org.gnome.desktop.interface", "icon-theme")
}

/// The command that prints the GTK theme's name.
pub fn gtk_theme_command() -> (r: String)
    ensures
        r@ == "gsettings get "@ + interface_schema() + " "@ + "gtk-theme"@,
{
    gsetting_command("org.gnome.desktop.interface", "gtk-theme")
}

/// A printed setting can have its quotes taken off: where it is longer than two
/// bytes, bytes 1 and `n - 1` are character boundaries.
pub open spec fn gsetting_output_ok(output: Seq<char>) -> bool {
    let bytes = encode_utf8(output);
    bytes.len() > 2 ==> is_char_boundary(bytes, 1) && is_char_boundary(bytes, bytes.len() - 1)
}

/// The value of a printed setting: longer than two bytes, it is surrounded by
/// quotes, which are taken off (the first and the last byte); shorter, there is
/// no value.
pub open spec fn gsetting_value(output: Seq<char>) -> Option<Seq<char>> {
    let bytes = encode_utf8(output);
    if bytes.len() > 2 {
        Some(decode_utf8(bytes.subrange(1, bytes.len() - 1)))
    } else {
        None
    }
}

/// The value of a setting from the trimmed output of `gsettings get`.
pub fn get_gsetting(output: &str) -> (r: Option<String>)
    requires
        gsetting_output_ok(output@),
    ensures
        crate::applications::opt_view(r) == gsetting_value(output@),
{
    let n = output.as_bytes().len();
    if n > 2 {
        let (head, _) = output.split_at(n - 1);
        assert(head.spec_bytes() =~= output.spec_bytes().subrange(0, n - 1));
        assert(is_char_boundary(head.spec_bytes(), 1)) by {
            vstd::utf8::encode_utf8_valid_utf8(output@);
            vstd::utf8::encode_utf8_valid_utf8(head@);
            vstd::utf8::is_char_boundary_iff_not_is_continuation_byte(output.spec_bytes(), 1);
            vstd::utf8::is_char_boundary_iff_not_is_continuation_byte(head.spec_bytes(), 1);
            assert(head.spec_bytes()[1] == output.spec_bytes()[1]);
        }
        let (_, middle) = head.split_at(1);
        assert(middle.spec_bytes() =~= output.spec_bytes().subrange(1, n - 1));
        proof {
            encode_utf8_decode_utf8(middle@);
        }
        Some(middle.to_owned())
    } else {
        None
    }
}

/// Whether the quotes of a printed setting can be taken off.
pub fn gsetting_output_is_ok(output: &str) -> (r: bool)
    ensures
        r == gsetting_output_ok(output@),
{
    let n = output.as_bytes().len();
    if n > 2 {
        output.is_char_boundary(1) && output.is_char_boundary(n - 1)
    } else {
        true
    }
}

} // verus!
