//! Icon themes and the lookup of application icons.
use vstd::prelude::*;

use crate::inifile::{ini_get, ini_parse, load_ini, value_in, IniSections};
use crate::strings::{chars_of, concatenate, parse_u16, parse_u16_spec, split_char, split_on, string_from_chars};

verus! {

/// The text of a file as the `ini` crate loads it: a leading byte order mark is
/// skipped.
pub open spec fn file_text(text: Seq<char>) -> Seq<char> {
    if text.len() > 0 && text[0] == '\u{feff}' {
        text.drop_first()
    } else {
        text
    }
}

/// The text of a file without its leading byte order mark, if it has one.
pub fn strip_bom(text: &str) -> (r: String)
    ensures
        r@ == file_text(text@),
{
    let chars = chars_of(text);
    if chars.len() > 0 && chars[0] == '\u{feff}' {
        let mut rest: Vec<char> = Vec::new();
        let mut i: usize = 1;
        while i < chars.len()
            invariant
                1 <= i <= chars.len(),
                rest@ == chars@.subrange(1, i as int),
            decreases chars.len() - i,
        {
            rest.push(chars[i]);
            assert(chars@.subrange(1, i + 1) =~= chars@.subrange(1, i as int).push(chars@[i as int]));
            i = i + 1;
        }
        assert(chars@.subrange(1, chars.len() as int) =~= chars@.drop_first());
        string_from_chars(&rest)
    } else {
        text.to_owned()
    }
}

/// The name of the icon theme, from the trimmed output of
/// [`icon_theme_command`](crate::utils::icon_theme_command).
pub fn get_icon_theme(gsettings_output: &str) -> (r: Option<String>)
    requires
        crate::utils::gsetting_output_ok(gsettings_output@),
    ensures
        crate::applications::opt_view(r) == crate::utils::gsetting_value(gsettings_output@),
{
    crate::utils::get_gsetting(gsettings_output)
}

/// The path of the icon cache file in the settings folder `settings_folder`.
pub fn icon_cache_path(settings_folder: &str) -> (r: String)
    ensures
        r@ == settings_folder@ + "icon_cache"@,
{
    concatenate(settings_folder, "icon_cache")
}

/// One directory of an icon theme.
#[derive(Debug)]
pub struct ThemeDirectory {
    pub path: String,
    pub context: String,
    pub icon_size: u16,
}

/// The mathematical value of a [`ThemeDirectory`].
pub struct DirView {
    pub path: Seq<char>,
    pub context: Seq<char>,
    pub icon_size: u16,
}

impl View for ThemeDirectory {
    type V = DirView;

    open spec fn view(&self) -> DirView {
        DirView { path: self.path@, context: self.context@, icon_size: self.icon_size }
    }
}

/// An icon theme, as its `index.theme` file describes it.
#[derive(Debug)]
pub struct IconTheme {
    pub name: String,
    pub comment: String,
    pub directories: Vec<ThemeDirectory>,
    pub inherits: Vec<String>,
}

/// The mathematical value of an [`IconTheme`].
pub struct ThemeView {
    pub name: Seq<char>,
    pub comment: Seq<char>,
    pub directories: Seq<DirView>,
    pub inherits: Seq<Seq<char>>,
}

/// The views of a sequence of strings.
pub open spec fn string_views(v: Seq<String>) -> Seq<Seq<char>> {
    v.map_values(|s: String| s@)
}

/// The views of a sequence of theme directories.
pub open spec fn dir_views(v: Seq<ThemeDirectory>) -> Seq<DirView> {
    v.map_values(|d: ThemeDirectory| d@)
}

impl View for IconTheme {
    type V = ThemeView;

    open spec fn view(&self) -> ThemeView {
        ThemeView {
            name: self.name@,
            comment: self.comment@,
            directories: dir_views(self.directories@),
            inherits: string_views(self.inherits@),
        }
    }
}

/// A value of the `[Icon Theme]` section.
pub open spec fn theme_value(secs: IniSections, key: Seq<char>) -> Option<Seq<char>> {
    value_in(secs, Some("Icon Theme"@), key)
}

/// The names of the theme's directories: its `Directories` value split at commas.
pub open spec fn directory_names(secs: IniSections) -> Seq<Seq<char>> {
    split_on(theme_value(secs, "Directories"@).unwrap(), ',')
}

/// The section of a directory gives its context and a size that parses.
pub open spec fn directory_complete(secs: IniSections, dir: Seq<char>) -> bool {
    &&& value_in(secs, Some(dir), "Context"@) is Some
    &&& value_in(secs, Some(dir), "Size"@) is Some
    &&& parse_u16_spec(value_in(secs, Some(dir), "Size"@).unwrap()) is Some
}

/// A parsed index holds everything that reading a theme needs: a name, a comment
/// and a directory list in `[Icon Theme]`, and for each listed directory a
/// section with a context and a size.
pub open spec fn sections_complete(secs: IniSections) -> bool {
    &&& theme_value(secs, "Name"@) is Some
    &&& theme_value(secs, "Comment"@) is Some
    &&& theme_value(secs, "Directories"@) is Some
    &&& forall|i: int|
        0 <= i < directory_names(secs).len() ==> directory_complete(secs, #[trigger] directory_names(secs)[i])
}

/// An index file can be read without giving up: it is no INI document at all, or
/// its document is complete.
pub open spec fn index_complete(contents: Seq<char>) -> bool {
    match ini_parse(file_text(contents)) {
        None => true,
        Some(secs) => sections_complete(secs),
    }
}

/// The directory named `dir` of the theme at `theme_path`.
pub open spec fn directory_of(secs: IniSections, theme_path: Seq<char>, dir: Seq<char>) -> DirView {
    DirView {
        path: theme_path + dir,
        context: value_in(secs, Some(dir), "Context"@).unwrap(),
        icon_size: parse_u16_spec(value_in(secs, Some(dir), "Size"@).unwrap()).unwrap(),
    }
}

/// The theme that a complete index describes.
pub open spec fn theme_of(secs: IniSections, theme_path: Seq<char>) -> ThemeView {
    ThemeView {
        name: theme_value(secs, "Name"@).unwrap(),
        comment: theme_value(secs, "Comment"@).unwrap(),
        directories: directory_names(secs).map_values(|d: Seq<char>| directory_of(secs, theme_path, d)),
        inherits: match theme_value(secs, "Inherits"@) {
            Some(v) => split_on(v, ','),
            None => Seq::<Seq<char>>::empty(),
        },
    }
}

/// The theme read from an index file with these contents: none where the file
/// is no INI document.
pub open spec fn theme_from_index(theme_path: Seq<char>, contents: Seq<char>) -> Option<ThemeView> {
    match ini_parse(file_text(contents)) {
        None => None,
        Some(secs) => Some(theme_of(secs, theme_path)),
    }
}

/// What a theme read from an index holds: nothing where the file is no INI
/// document; else the name and comment of its `[Icon Theme]` section, one
/// directory for each name in its `Directories` list, in that order, at the
/// theme's path followed by the name, with the `Context` of the directory's own
/// section and the number its `Size` key parses to, whatever other keys the
/// section holds; and the themes of its `Inherits` list.
pub proof fn lemma_theme_from_index(theme_path: Seq<char>, contents: Seq<char>)
    ensures
        ini_parse(file_text(contents)) is None ==> theme_from_index(theme_path, contents) is None,
        ini_parse(file_text(contents)) matches Some(secs) ==> {
            let t = theme_from_index(theme_path, contents).unwrap();
            let head = Some("Icon Theme"@);
            let names = split_on(value_in(secs, head, "Directories"@).unwrap(), ',');
            &&& theme_from_index(theme_path, contents) is Some
            &&& value_in(secs, head, "Name"@) matches Some(n) ==> t.name == n
            &&& value_in(secs, head, "Comment"@) matches Some(c) ==> t.comment == c
            &&& value_in(secs, head, "Directories"@) is Some ==> t.directories.len() == names.len()
            &&& value_in(secs, head, "Directories"@) is Some ==> forall|i: int|
                0 <= i < names.len() ==> {
                    &&& (#[trigger] t.directories[i]).path == theme_path + names[i]
                    &&& value_in(secs, Some(names[i]), "Context"@) matches Some(c) ==> t.directories[i].context == c
                    &&& value_in(secs, Some(names[i]), "Size"@) matches Some(z) ==> (parse_u16_spec(z) matches Some(
                        n,
                    ) ==> t.directories[i].icon_size == n)
                }
            &&& value_in(secs, head, "Inherits"@) matches Some(v) ==> t.inherits == split_on(v, ',')
            &&& value_in(secs, head, "Inherits"@) is None ==> t.inherits.len() == 0
        },
{
}

/// A sequence of directories with `d` inserted after every directory at least as
/// large as it that stands at the end.
pub open spec fn insert_by_size(sorted: Seq<DirView>, d: DirView) -> Seq<DirView>
    decreases sorted.len(),
{
    if sorted.len() == 0 {
        seq![d]
    } else if sorted.last().icon_size >= d.icon_size {
        sorted.push(d)
    } else {
        insert_by_size(sorted.drop_last(), d).push(sorted.last())
    }
}

/// The directories ordered from the largest icons to the smallest, directories
/// of equal size keeping their order: what a stable sort with the comparison
/// `b.icon_size.cmp(&a.icon_size)` gives.
pub open spec fn sort_by_size(dirs: Seq<DirView>) -> Seq<DirView>
    decreases dirs.len(),
{
    if dirs.len() == 0 {
        dirs
    } else {
        insert_by_size(sort_by_size(dirs.drop_last()), dirs.last())
    }
}

/// Sizes never grow along the sequence.
pub open spec fn sizes_descending(s: Seq<DirView>) -> bool {
    forall|i: int, j: int| 0 <= i < j < s.len() ==> s[i].icon_size >= s[j].icon_size
}

/// Inserting at the place that the scan from the end finds is [`insert_by_size`].
proof fn lemma_insert_at(s: Seq<DirView>, d: DirView, j: int)
    requires
        0 <= j <= s.len(),
        forall|k: int| j <= k < s.len() ==> s[k].icon_size < d.icon_size,
        j > 0 ==> s[j - 1].icon_size >= d.icon_size,
    ensures
        insert_by_size(s, d) == s.insert(j, d),
    decreases s.len(),
{
    if s.len() == 0 {
        assert(s.insert(j, d) =~= seq![d]);
    } else if j == s.len() {
        assert(s.insert(j, d) =~= s.push(d));
    } else {
        lemma_insert_at(s.drop_last(), d, j);
        assert(s.insert(j, d) =~= s.drop_last().insert(j, d).push(s.last()));
    }
}

/// Inserting keeps a sorted sequence sorted and adds exactly the new directory.
proof fn lemma_insert_sorted(s: Seq<DirView>, d: DirView)
    requires
        sizes_descending(s),
    ensures
        sizes_descending(insert_by_size(s, d)),
        insert_by_size(s, d).to_multiset() == s.to_multiset().insert(d),
    decreases s.len(),
{
    broadcast use vstd::seq_lib::group_to_multiset_ensures;

    if s.len() == 0 {
        assert(insert_by_size(s, d) =~= s.push(d));
    } else if s.last().icon_size >= d.icon_size {
    } else {
        let rest = s.drop_last();
        assert(sizes_descending(rest));
        lemma_insert_sorted(rest, d);
        let r = insert_by_size(rest, d);
        assert(s =~= rest.push(s.last()));
        assert forall|i: int, j: int| 0 <= i < j < r.push(s.last()).len() implies r.push(
            s.last(),
        )[i].icon_size >= r.push(s.last())[j].icon_size by {
            if j == r.len() {
                let x = r[i];
                assert(r.to_multiset().count(x) > 0);
                assert(rest.to_multiset().insert(d).count(x) > 0);
                if x != d {
                    assert(rest.to_multiset().count(x) > 0);
                    assert(rest.contains(x));
                    let k = choose|k: int| 0 <= k < rest.len() && rest[k] == x;
                    assert(s[k] == x);
                }
            }
        }
    }
}

/// Sorting by size orders the directories from the largest icons to the smallest
/// and keeps every directory, each as often as it came.
pub proof fn lemma_sort_by_size(dirs: Seq<DirView>)
    ensures
        sizes_descending(sort_by_size(dirs)),
        sort_by_size(dirs).to_multiset() == dirs.to_multiset(),
    decreases dirs.len(),
{
    broadcast use vstd::seq_lib::group_to_multiset_ensures;

    if dirs.len() == 0 {
    } else {
        lemma_sort_by_size(dirs.drop_last());
        lemma_insert_sorted(sort_by_size(dirs.drop_last()), dirs.last());
        assert(dirs =~= dirs.drop_last().push(dirs.last()));
    }
}

/// Whether a directory holds icons of size `v`.
pub open spec fn size_is(v: u16) -> spec_fn(DirView) -> bool {
    |d: DirView| d.icon_size == v
}

/// Inserting a directory adds it after the directories of its size, and adds
/// nothing to the other sizes.
proof fn lemma_insert_filter(s: Seq<DirView>, d: DirView, v: u16)
    ensures
        insert_by_size(s, d).len() == s.len() + 1,
        insert_by_size(s, d).filter(size_is(v)) == if d.icon_size == v {
            s.filter(size_is(v)).push(d)
        } else {
            s.filter(size_is(v))
        },
    decreases s.len(),
{
    if s.len() == 0 {
        assert(insert_by_size(s, d) == s.push(d));
        s.lemma_filter_push(d, size_is(v));
    } else if s.last().icon_size >= d.icon_size {
        s.lemma_filter_push(d, size_is(v));
    } else {
        let rest = s.drop_last();
        lemma_insert_filter(rest, d, v);
        insert_by_size(rest, d).lemma_filter_push(s.last(), size_is(v));
        rest.lemma_filter_push(s.last(), size_is(v));
        assert(rest.push(s.last()) =~= s);
    }
}

/// Sorting by size keeps the directories of each size, in their order.
proof fn lemma_sort_filter(dirs: Seq<DirView>, v: u16)
    ensures
        sort_by_size(dirs).len() == dirs.len(),
        sort_by_size(dirs).filter(size_is(v)) == dirs.filter(size_is(v)),
    decreases dirs.len(),
{
    if dirs.len() > 0 {
        let rest = dirs.drop_last();
        lemma_sort_filter(rest, v);
        lemma_insert_filter(sort_by_size(rest), dirs.last(), v);
        rest.lemma_filter_push(dirs.last(), size_is(v));
        assert(rest.push(dirs.last()) =~= dirs);
    }
}

/// Sorting by size is a stable sort from the largest icons to the smallest: the
/// result holds the same directories, sizes never grow along it, and the
/// directories of each size come in the order they had.
pub proof fn lemma_sort_by_size_stable(dirs: Seq<DirView>)
    ensures
        sort_by_size(dirs).len() == dirs.len(),
        sort_by_size(dirs).to_multiset() == dirs.to_multiset(),
        forall|i: int, j: int|
            0 <= i < j < sort_by_size(dirs).len() ==> sort_by_size(dirs)[i].icon_size >= sort_by_size(dirs)[j].icon_size,
        forall|v: u16| #[trigger] sort_by_size(dirs).filter(size_is(v)) == dirs.filter(size_is(v)),
{
    lemma_sort_by_size(dirs);
    lemma_sort_filter(dirs, 0);
    assert forall|v: u16| #[trigger] sort_by_size(dirs).filter(size_is(v)) == dirs.filter(size_is(v)) by {
        lemma_sort_filter(dirs, v);
    }
}

/// Orders theme directories from the largest icons to the smallest, keeping the
/// order of directories of equal size.
pub fn sort_directories(dirs: Vec<ThemeDirectory>) -> (r: Vec<ThemeDirectory>)
    ensures
        dir_views(r@) == sort_by_size(dir_views(dirs@)),
{
    let ghost all = dir_views(dirs@);
    let mut sorted: Vec<ThemeDirectory> = Vec::new();
    for d in it: dirs
        invariant
            all == dir_views(it.seq()),
            dir_views(sorted@) == sort_by_size(all.take(it.index() as int)),
    {
        let ghost k = it.index() as int;
        proof {
            assert(all.take(k + 1).drop_last() =~= all.take(k));
            assert(all.take(k + 1).last() == d@);
        }
        let mut j = sorted.len();
        while j > 0 && sorted[j - 1].icon_size < d.icon_size
            invariant
                j <= sorted.len(),
                forall|m: int| j <= m < sorted.len() ==> sorted@[m].icon_size < d.icon_size,
            decreases j,
        {
            j = j - 1;
        }
        let ghost before = dir_views(sorted@);
        proof {
            lemma_insert_at(before, d@, j as int);
        }
        sorted.insert(j, d);
        assert(dir_views(sorted@) =~= before.insert(j as int, d@));
    }
    assert(all.take(all.len() as int) =~= all);
    sorted
}

/// An index file that lacks what reading a theme needs.
#[derive(Debug)]
pub struct IncompleteIndex;

impl IconTheme {
    /// Reads the theme at `theme_path` from the contents of its `index.theme` file.
    pub fn from_file(theme_path: &str, contents: &str) -> (r: Option<IconTheme>)
        requires
            index_complete(contents@),
        ensures
            match r {
                Some(t) => theme_from_index(theme_path@, contents@) == Some(t@),
                None => theme_from_index(theme_path@, contents@) is None,
            },
    {
        let text = strip_bom(contents);
        let doc = match load_ini(text.as_str()) {
            Ok(doc) => doc,
            Err(_) => return None,
        };
        let ghost secs = ini_parse(file_text(contents@)).unwrap();
        let name = ini_get(&doc, Some("Icon Theme"), "Name").unwrap();
        let comment = ini_get(&doc, Some("Icon Theme"), "Comment").unwrap();
        let directory_list = ini_get(&doc, Some("Icon Theme"), "Directories").unwrap();
        let names = split_char(directory_list.as_str(), ',');
        assert(string_views(names@) == directory_names(secs));
        let mut directories: Vec<ThemeDirectory> = Vec::new();
        let mut i: usize = 0;
        while i < names.len()
            invariant
                i <= names.len(),
                string_views(names@) == directory_names(secs),
                sections_complete(secs),
                crate::inifile::ini_sections(doc) == secs,
                dir_views(directories@) == directory_names(secs).take(i as int).map_values(
                    |d: Seq<char>| directory_of(secs, theme_path@, d),
                ),
            decreases names.len() - i,
        {
            let dir = &names[i];
            assert(string_views(names@)[i as int] == dir@);
            assert(directory_complete(secs, directory_names(secs)[i as int]));
            let context = ini_get(&doc, Some(dir.as_str()), "Context").unwrap();
            let size_text = ini_get(&doc, Some(dir.as_str()), "Size").unwrap();
            let icon_size = parse_u16(size_text.as_str()).unwrap();
            let path = concatenate(theme_path, dir.as_str());
            let ghost pushed = ThemeDirectory { path, context, icon_size }@;
            assert(pushed == directory_of(secs, theme_path@, dir@));
            let ghost before = directories@;
            directories.push(ThemeDirectory { path, context, icon_size });
            assert(dir_views(directories@) =~= dir_views(before).push(pushed));
            assert(directory_names(secs).take(i + 1) =~= directory_names(secs).take(i as int).push(dir@));
            assert(directory_names(secs).take(i + 1).map_values(
                |d: Seq<char>| directory_of(secs, theme_path@, d),
            ) =~= directory_names(secs).take(i as int).map_values(
                |d: Seq<char>| directory_of(secs, theme_path@, d),
            ).push(pushed));
            assert(dir_views(directories@) =~= directory_names(secs).take(i + 1).map_values(
                |d: Seq<char>| directory_of(secs, theme_path@, d),
            ));
            i = i + 1;
        }
        assert(directory_names(secs).take(names.len() as int) =~= directory_names(secs));
        let inherits = match ini_get(&doc, Some("Icon Theme"), "Inherits") {
            Some(v) => split_char(v.as_str(), ','),
            None => Vec::new(),
        };
        assert(string_views(inherits@) =~= theme_of(secs, theme_path@).inherits);
        Some(IconTheme { name, comment, directories, inherits })
    }

    /// Whether an index file with these contents can be read without giving up.
    pub fn index_is_complete(contents: &str) -> (r: bool)
        ensures
            r == index_complete(contents@),
    {
        let text = strip_bom(contents);
        let doc = match load_ini(text.as_str()) {
            Ok(doc) => doc,
            Err(_) => return true,
        };
        let ghost secs = ini_parse(file_text(contents@)).unwrap();
        let name = ini_get(&doc, Some("Icon Theme"), "Name");
        let comment = ini_get(&doc, Some("Icon Theme"), "Comment");
        let directory_list = ini_get(&doc, Some("Icon Theme"), "Directories");
        if name.is_none() || comment.is_none() || directory_list.is_none() {
            return false;
        }
        let directory_list = directory_list.unwrap();
        let names = split_char(directory_list.as_str(), ',');
        let mut i: usize = 0;
        while i < names.len()
            invariant
                i <= names.len(),
                theme_value(secs, "Directories"@) is Some,
                ini_parse(file_text(contents@)) == Some(secs),
                string_views(names@) == directory_names(secs),
                crate::inifile::ini_sections(doc) == secs,
                forall|k: int| 0 <= k < i ==> directory_complete(secs, #[trigger] directory_names(secs)[k]),
            decreases names.len() - i,
        {
            let dir = &names[i];
            assert(string_views(names@)[i as int] == dir@);
            let context = ini_get(&doc, Some(dir.as_str()), "Context");
            let size_text = ini_get(&doc, Some(dir.as_str()), "Size");
            assert(directory_names(secs)[i as int] == dir@);
            if context.is_none() || size_text.is_none() {
                assert(!directory_complete(secs, dir@));
                return false;
            }
            let size_text = size_text.unwrap();
            if parse_u16(size_text.as_str()).is_none() {
                assert(!directory_complete(secs, dir@));
                return false;
            }
            assert(directory_complete(secs, dir@));
            i = i + 1;
        }
        true
    }

    /// Reads the theme at `theme_path` from its index file, or reports that the
    /// index lacks what reading it needs.
    pub fn load(theme_path: &str, contents: &str) -> (r: Result<Option<IconTheme>, IncompleteIndex>)
        ensures
            r is Err <==> !index_complete(contents@),
            r matches Ok(Some(t)) ==> theme_from_index(theme_path@, contents@) == Some(t@),
            r matches Ok(None) ==> theme_from_index(theme_path@, contents@) is None,
    {
        if IconTheme::index_is_complete(contents) {
            Ok(IconTheme::from_file(theme_path, contents))
        } else {
            Err(IncompleteIndex)
        }
    }
}

/// One entry of a directory listing.
#[derive(Debug)]
pub struct DirEntryInfo {
    pub path: String,
    pub is_dir: bool,
}

/// The mathematical value of a [`DirEntryInfo`].
pub struct EntryView {
    pub path: Seq<char>,
    pub is_dir: bool,
}

impl View for DirEntryInfo {
    type V = EntryView;

    open spec fn view(&self) -> EntryView {
        EntryView { path: self.path@, is_dir: self.is_dir }
    }
}

/// The views of a directory listing.
pub open spec fn entry_views(v: Seq<DirEntryInfo>) -> Seq<EntryView> {
    v.map_values(|e: DirEntryInfo| e@)
}

/// What `Path::file_stem` gives for a path: its file name without the last
/// extension, or nothing where the path has no file name.
pub uninterp spec fn path_file_stem(path: Seq<char>) -> Option<Seq<char>>;

/// Calls `Path::file_stem` on the path and converts the stem to a string; its
/// result is the named [`path_file_stem`] of the path.
#[verifier::external_body]
fn file_stem(path: &str) -> (r: Option<String>)
    ensures
        crate::applications::opt_view(r) == path_file_stem(path@),
{
    std::path::Path::new(path).file_stem().and_then(|stem| stem.to_str()).map(String::from)
}

/// The first entry of a listing that is no directory and whose file stem is the
/// icon's name.
pub open spec fn matching_entry(entries: Seq<EntryView>, icon_name: Seq<char>) -> Option<Seq<char>>
    decreases entries.len(),
{
    if entries.len() == 0 {
        None
    } else if !entries[0].is_dir && path_file_stem(entries[0].path) == Some(icon_name) {
        Some(entries[0].path)
    } else {
        matching_entry(entries.drop_first(), icon_name)
    }
}

/// A path from the root of the file system.
pub open spec fn is_absolute(path: Seq<char>) -> bool {
    path.len() > 0 && path[0] == '/'
}

/// The path that a listing gives for an icon is the path of one of its files.
pub proof fn lemma_matching_entry_listed(entries: Seq<EntryView>, icon_name: Seq<char>)
    ensures
        matching_entry(entries, icon_name) matches Some(p) ==> exists|i: int|
            0 <= i < entries.len() && !entries[i].is_dir && entries[i].path == p,
    decreases entries.len(),
{
    if entries.len() > 0 && !(!entries[0].is_dir && path_file_stem(entries[0].path) == Some(icon_name)) {
        let rest = entries.drop_first();
        lemma_matching_entry_listed(rest, icon_name);
        if let Some(p) = matching_entry(rest, icon_name) {
            let i = choose|i: int| 0 <= i < rest.len() && !rest[i].is_dir && rest[i].path == p;
            assert(entries[i + 1] == rest[i]);
        }
    }
}

/// The path of the icon named `icon_name` in a directory with these entries: the
/// first file whose stem is the name.
pub fn lookup_dir(icon_name: &str, entries: &Vec<DirEntryInfo>) -> (r: Option<String>)
    ensures
        crate::applications::opt_view(r) == matching_entry(entry_views(entries@), icon_name@),
{
    let name = icon_name.to_owned();
    let mut i: usize = 0;
    assert(entry_views(entries@).skip(0) =~= entry_views(entries@));
    while i < entries.len()
        invariant
            i <= entries.len(),
            name@ == icon_name@,
            matching_entry(entry_views(entries@), icon_name@) == matching_entry(
                entry_views(entries@).skip(i as int),
                icon_name@,
            ),
        decreases entries.len() - i,
    {
        let entry = &entries[i];
        assert(entry_views(entries@).skip(i as int)[0] == entry@);
        assert(entry_views(entries@).skip(i as int).drop_first() =~= entry_views(entries@).skip(i + 1));
        if !entry.is_dir {
            let stem = file_stem(entry.path.as_str());
            if let Some(stem) = stem {
                if stem == name {
                    return Some(entry.path.clone());
                }
            }
        }
        i = i + 1;
    }
    assert(entry_views(entries@).skip(i as int) =~= Seq::<EntryView>::empty());
    None
}

} // verus!
