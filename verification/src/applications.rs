//! Applications read from desktop entry files.
use vstd::prelude::*;
use vstd::utf8::{
    decode_utf8, encode_utf8, encode_utf8_decode_utf8, encode_utf8_valid_utf8, is_ascii_chars,
    is_ascii_chars_encode_utf8, is_char_boundary, is_char_boundary_iff_not_is_continuation_byte,
};

use crate::icon_lookup::{IconLookup, LookupStart, LookupView, known_answer};
use crate::icon_search::{index_path, theme_path, ActionView, FrameView, SearchStage, SearchView};
use crate::icons::{file_text, strip_bom};
use crate::inifile::{ini_get, ini_parse, load_ini, value_in, IniSections};
use crate::strings::chars_of;

verus! {

/// An installed application, as its desktop entry describes it.
#[derive(Debug, Clone)]
pub struct Application {
    pub name: String,
    pub comment: String,
    pub exec_command: String,
    pub icon_path: Option<String>,
}

/// The mathematical value of an [`Application`].
pub struct AppView {
    pub name: Seq<char>,
    pub comment: Seq<char>,
    pub exec_command: Seq<char>,
    pub icon_path: Option<Seq<char>>,
}

/// The characters of an optional string.
pub open spec fn opt_view(s: Option<String>) -> Option<Seq<char>> {
    match s {
        Some(t) => Some(t@),
        None => None,
    }
}

impl View for Application {
    type V = AppView;

    open spec fn view(&self) -> AppView {
        AppView {
            name: self.name@,
            comment: self.comment@,
            exec_command: self.exec_command@,
            icon_path: opt_view(self.icon_path),
        }
    }
}

/// A copy of an optional string.
pub fn copy_opt(s: &Option<String>) -> (r: Option<String>)
    ensures
        opt_view(r) == opt_view(*s),
{
    match s {
        Some(t) => Some(t.clone()),
        None => None,
    }
}

impl Application {
    /// A copy of this application.
    pub fn duplicate(&self) -> (r: Application)
        ensures
            r@ == self@,
    {
        Application {
            name: self.name.clone(),
            comment: self.comment.clone(),
            exec_command: self.exec_command.clone(),
            icon_path: copy_opt(&self.icon_path),
        }
    }
}

/// The views of a sequence of applications.
pub open spec fn app_views(apps: Seq<Application>) -> Seq<AppView> {
    apps.map_values(|a: Application| a@)
}

/// The `Exec` line can be shortened as the launcher does without giving up: its
/// length in UTF-8 bytes, `n`, is at least 2 and the character at index `n - 2`
/// exists; where that character is `%`, `n` is at least 3 and byte `n - 3` is a
/// character boundary.
pub open spec fn exec_line_ok(exec: Seq<char>) -> bool {
    let bytes = encode_utf8(exec);
    let n = bytes.len() as int;
    &&& n >= 2
    &&& n - 2 < exec.len()
    &&& exec[n - 2] == '%' ==> n >= 3 && is_char_boundary(bytes, n - 3)
}

/// The command of an `Exec` line: a trailing field code such as ` %U` is cut off
/// where the character at the index two less than the line's length in bytes is
/// `%`, by dropping the last three bytes.
pub open spec fn strip_field_code_spec(exec: Seq<char>) -> Seq<char> {
    let bytes = encode_utf8(exec);
    let n = bytes.len() as int;
    if exec[n - 2] == '%' {
        decode_utf8(bytes.subrange(0, n - 3))
    } else {
        exec
    }
}

/// Cuts a trailing field code off an `Exec` line.
pub fn strip_field_code(exec: &str) -> (r: String)
    requires
        exec_line_ok(exec@),
    ensures
        r@ == strip_field_code_spec(exec@),
{
    let bytes = exec.as_bytes();
    let n = bytes.len();
    let chars = chars_of(exec);
    if chars[n - 2] == '%' {
        let (head, _) = exec.split_at(n - 3);
        proof {
            encode_utf8_decode_utf8(head@);
        }
        head.to_owned()
    } else {
        exec.to_owned()
    }
}

/// An ASCII `Exec` line that ends in a space and a field code, such as
/// `firefox %u`, loses exactly those three characters; an ASCII line of at least
/// two characters whose last but one is not `%` is kept whole.
pub proof fn lemma_ascii_field_codes(base: Seq<char>, code: char)
    requires
        is_ascii_chars(base),
        '\0' <= code <= '\u{7f}',
    ensures
        exec_line_ok(base + seq![' ', '%', code]),
        strip_field_code_spec(base + seq![' ', '%', code]) == base,
        base.len() >= 2 && base[base.len() - 2] != '%' ==> exec_line_ok(base) && strip_field_code_spec(
            base,
        ) == base,
{
    let e = base + seq![' ', '%', code];
    assert(is_ascii_chars(e));
    is_ascii_chars_encode_utf8(e);
    is_ascii_chars_encode_utf8(base);
    let bytes = encode_utf8(e);
    let n = base.len() as int;
    assert(e[n + 1] == '%');
    encode_utf8_valid_utf8(e);
    assert(e[n] == ' ');
    assert(bytes[n] == 32u8);
    is_char_boundary_iff_not_is_continuation_byte(bytes, n);
    assert(bytes.subrange(0, n) =~= encode_utf8(base));
    encode_utf8_decode_utf8(base);
}

/// A value of the `[Desktop Entry]` section.
pub open spec fn entry_value(secs: IniSections, key: Seq<char>) -> Option<Seq<char>> {
    value_in(secs, Some("Desktop Entry"@), key)
}

/// The entry describes an application with a command.
pub open spec fn is_application_entry(secs: IniSections) -> bool {
    &&& entry_value(secs, "Type"@) == Some("Application"@)
    &&& entry_value(secs, "Exec"@) is Some
}

/// A desktop file can be read without giving up: it is no INI document, or no
/// application entry, or its `Exec` line is one that [`strip_field_code`] takes.
pub open spec fn entry_complete(contents: Seq<char>) -> bool {
    match ini_parse(file_text(contents)) {
        None => true,
        Some(secs) => is_application_entry(secs) ==> exec_line_ok(entry_value(secs, "Exec"@).unwrap()),
    }
}

/// What a desktop file describes before its icon is looked up.
#[derive(Debug)]
pub struct DesktopEntry {
    pub name: Option<String>,
    pub comment: String,
    pub exec_command: String,
    pub icon: Option<String>,
}

/// The mathematical value of a [`DesktopEntry`].
pub struct EntryView {
    pub name: Option<Seq<char>>,
    pub comment: Seq<char>,
    pub exec_command: Seq<char>,
    pub icon: Option<Seq<char>>,
}

impl View for DesktopEntry {
    type V = EntryView;

    open spec fn view(&self) -> EntryView {
        EntryView {
            name: opt_view(self.name),
            comment: self.comment@,
            exec_command: self.exec_command@,
            icon: opt_view(self.icon),
        }
    }
}

/// The entry of a desktop file with these contents: none where the file is no
/// INI document or describes no application with a command.
pub open spec fn entry_of(contents: Seq<char>) -> Option<EntryView> {
    match ini_parse(file_text(contents)) {
        None => None,
        Some(secs) => if is_application_entry(secs) {
            Some(
                EntryView {
                    name: entry_value(secs, "Name"@),
                    comment: match entry_value(secs, "Comment"@) {
                        Some(c) => c,
                        None => Seq::<char>::empty(),
                    },
                    exec_command: strip_field_code_spec(entry_value(secs, "Exec"@).unwrap()),
                    icon: entry_value(secs, "Icon"@),
                },
            )
        } else {
            None
        },
    }
}

/// What a desktop file gives: an entry exactly where the file is an INI document
/// whose `[Desktop Entry]` section has `Type=Application` and an `Exec` key. The
/// entry's name is that section's `Name` value (none where it has none), its
/// icon the `Icon` value, its comment the `Comment` value (empty where there is
/// none), and its command the `Exec` line with a trailing field code cut off;
/// other keys, such as `GenericName`, play no part.
pub proof fn lemma_entry_of(contents: Seq<char>)
    ensures
        ini_parse(file_text(contents)) is None ==> entry_of(contents) is None,
        ini_parse(file_text(contents)) matches Some(secs) ==> {
            let de = Some("Desktop Entry"@);
            &&& entry_of(contents) is Some <==> (value_in(secs, de, "Type"@) == Some("Application"@) && value_in(
                secs,
                de,
                "Exec"@,
            ) is Some)
            &&& entry_of(contents) matches Some(e) ==> {
                &&& e.name == value_in(secs, de, "Name"@)
                &&& e.icon == value_in(secs, de, "Icon"@)
                &&& value_in(secs, de, "Comment"@) matches Some(c) ==> e.comment == c
                &&& value_in(secs, de, "Comment"@) is None ==> e.comment.len() == 0
                &&& e.exec_command == strip_field_code_spec(value_in(secs, de, "Exec"@).unwrap())
            }
        },
{
}

/// The application an entry gives once its icon is known: none where the entry
/// has no name.
pub open spec fn application_of(e: EntryView, icon_path: Option<Seq<char>>) -> Option<AppView> {
    match e.name {
        Some(name) => Some(
            AppView { name, comment: e.comment, exec_command: e.exec_command, icon_path },
        ),
        None => None,
    }
}

/// A desktop file that cannot be read without giving up.
#[derive(Debug)]
pub struct MalformedEntry;

impl DesktopEntry {
    /// Reads the entry of a desktop file with these contents.
    pub fn from_file(contents: &str) -> (r: Option<DesktopEntry>)
        requires
            entry_complete(contents@),
        ensures
            match r {
                Some(e) => entry_of(contents@) == Some(e@),
                None => entry_of(contents@) is None,
            },
    {
        let text = strip_bom(contents);
        let doc = match load_ini(text.as_str()) {
            Ok(doc) => doc,
            Err(_) => return None,
        };
        let kind = match ini_get(&doc, Some("Desktop Entry"), "Type") {
            Some(kind) => kind,
            None => return None,
        };
        let application = "Application".to_owned();
        if kind != application {
            return None;
        }
        let exec = match ini_get(&doc, Some("Desktop Entry"), "Exec") {
            Some(exec) => exec,
            None => return None,
        };
        let exec_command = strip_field_code(exec.as_str());
        let icon = ini_get(&doc, Some("Desktop Entry"), "Icon");
        let name = ini_get(&doc, Some("Desktop Entry"), "Name");
        let comment = match ini_get(&doc, Some("Desktop Entry"), "Comment") {
            Some(c) => c,
            None => String::new(),
        };
        Some(DesktopEntry { name, comment, exec_command, icon })
    }

    /// Whether a desktop file with these contents can be read without giving up.
    pub fn is_complete(contents: &str) -> (r: bool)
        ensures
            r == entry_complete(contents@),
    {
        let text = strip_bom(contents);
        let doc = match load_ini(text.as_str()) {
            Ok(doc) => doc,
            Err(_) => return true,
        };
        let kind = match ini_get(&doc, Some("Desktop Entry"), "Type") {
            Some(kind) => kind,
            None => return true,
        };
        let application = "Application".to_owned();
        if kind != application {
            return true;
        }
        let exec = match ini_get(&doc, Some("Desktop Entry"), "Exec") {
            Some(exec) => exec,
            None => return true,
        };
        exec_line_is_ok(exec.as_str())
    }

    /// Reads the entry of a desktop file, or reports that it cannot be read
    /// without giving up.
    pub fn load(contents: &str) -> (r: Result<Option<DesktopEntry>, MalformedEntry>)
        ensures
            r is Err <==> !entry_complete(contents@),
            r matches Ok(Some(e)) ==> entry_of(contents@) == Some(e@),
            r matches Ok(None) ==> entry_of(contents@) is None,
    {
        if DesktopEntry::is_complete(contents) {
            Ok(DesktopEntry::from_file(contents))
        } else {
            Err(MalformedEntry)
        }
    }

    /// The application this entry gives with the icon path found for it.
    pub fn into_application(self, icon_path: Option<String>) -> (r: Option<Application>)
        ensures
            match r {
                Some(a) => application_of(self@, opt_view(icon_path)) == Some(a@),
                None => application_of(self@, opt_view(icon_path)) is None,
            },
    {
        match self.name {
            Some(name) => Some(
                Application {
                    name,
                    comment: self.comment,
                    exec_command: self.exec_command,
                    icon_path,
                },
            ),
            None => None,
        }
    }
}

/// Whether an `Exec` line can be shortened without giving up.
pub fn exec_line_is_ok(exec: &str) -> (r: bool)
    ensures
        r == exec_line_ok(exec@),
{
    let bytes = exec.as_bytes();
    let n = bytes.len();
    let chars = chars_of(exec);
    if n < 2 || n - 2 >= chars.len() {
        return false;
    }
    if chars[n - 2] == '%' {
        n >= 3 && exec.is_char_boundary(n - 3)
    } else {
        true
    }
}

/// Reads applications from desktop files, looking up their icons.
pub struct ApplicationReader {
    icon_lookup: IconLookup,
}

impl View for ApplicationReader {
    type V = LookupView;

    closed spec fn view(&self) -> LookupView {
        self.icon_lookup@
    }
}

impl ApplicationReader {
    /// A reader that looks up icons with the given lookup.
    pub fn new(icon_lookup: IconLookup) -> (r: ApplicationReader)
        ensures
            r@ == icon_lookup@,
    {
        ApplicationReader { icon_lookup }
    }

    /// Begins the lookup of an entry's icon (see [`IconLookup::lookup`]).
    pub fn lookup_icon(&self, icon_name: &str) -> (r: LookupStart)
        requires
            icon_name@.len() > 0,
        ensures
            match r {
                LookupStart::Found(a) => known_answer(self@, icon_name@) == Some(opt_view(a)),
                LookupStart::Search(search, action) => {
                    &&& known_answer(self@, icon_name@) is None
                    &&& search.wf()
                    &&& search@ == (SearchView {
                        icon_name: icon_name@,
                        checked: seq![self@.theme],
                        frames: Seq::<FrameView>::empty(),
                        stage: SearchStage::Theme,
                    })
                    &&& action@ == (ActionView::LoadTheme {
                        theme_path: theme_path(self@.theme),
                        index_path: index_path(self@.theme),
                    })
                },
            },
    {
        self.icon_lookup.lookup(icon_name)
    }

    /// Records the answer of an icon search (see [`IconLookup::remember`]).
    pub fn remember_icon(&mut self, icon_name: &str, found: &Option<String>)
        ensures
            final(self)@ == (LookupView {
                theme: old(self)@.theme,
                cache: old(self)@.cache.insert(icon_name@, crate::icon_lookup::cache_value(opt_view(*found))),
            }),
    {
        self.icon_lookup.remember(icon_name, found)
    }

    /// The icon lookup.
    pub fn icon_lookup(&self) -> (r: &IconLookup)
        ensures
            r@ == self@,
    {
        &self.icon_lookup
    }
}

} // verus!
