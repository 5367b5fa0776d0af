//! The icon lookup with its cache of earlier answers.
//!
//! A lookup answers at once for an absolute path and for a name in the cache;
//! otherwise it starts an [`IconSearch`], whose answer the caller hands back to
//! [`IconLookup::remember`]. A failed search is cached too, as the text `None`.
use vstd::prelude::*;

use crate::applications::opt_view;
use crate::icon_search::{
    index_path, step_spec, theme_path, ActionView, EventView, FrameView, IconSearch, SearchAction, SearchStage,
    SearchView,
};
use crate::icons::{file_text, is_absolute, strip_bom};
use crate::inifile::{
    ini_new, ini_parse, ini_render, ini_render_text, ini_section, ini_set, ini_get, load_ini, opt_str_view,
    pairs_view, section_props, sections_set, value_in, IniProperties, IniSections,
};

verus! {

/// The map that a list of pairs gives when each pair is put in turn: a later
/// pair for a key replaces an earlier one.
pub open spec fn entries_map(es: Seq<(Seq<char>, Seq<char>)>) -> Map<Seq<char>, Seq<char>>
    decreases es.len(),
{
    if es.len() == 0 {
        Map::empty()
    } else {
        entries_map(es.drop_last()).insert(es.last().0, es.last().1)
    }
}

/// No key occurs twice.
pub open spec fn keys_distinct(es: Seq<(Seq<char>, Seq<char>)>) -> bool {
    forall|i: int, j: int| 0 <= i < es.len() && 0 <= j < es.len() && i != j ==> es[i].0 != es[j].0
}

/// With distinct keys, the map holds exactly the listed keys, each with its value.
pub proof fn lemma_entries_map(es: Seq<(Seq<char>, Seq<char>)>)
    requires
        keys_distinct(es),
    ensures
        forall|k: Seq<char>| #[trigger] entries_map(es).contains_key(k) <==> exists|i: int|
            0 <= i < es.len() && es[i].0 == k,
        forall|i: int| 0 <= i < es.len() ==> entries_map(es)[#[trigger] es[i].0] == es[i].1,
        entries_map(es).dom().finite(),
    decreases es.len(),
{
    if es.len() > 0 {
        let rest = es.drop_last();
        assert(keys_distinct(rest));
        lemma_entries_map(rest);
        assert forall|k: Seq<char>| #[trigger] entries_map(es).contains_key(k) <==> exists|i: int|
            0 <= i < es.len() && es[i].0 == k by {
            if entries_map(es).contains_key(k) && k != es.last().0 {
                let i = choose|i: int| 0 <= i < rest.len() && rest[i].0 == k;
                assert(es[i].0 == k);
            }
            if exists|i: int| 0 <= i < es.len() && es[i].0 == k {
                let i = choose|i: int| 0 <= i < es.len() && es[i].0 == k;
                if i < rest.len() {
                    assert(rest[i].0 == k);
                }
            }
        }
        assert forall|i: int| 0 <= i < es.len() implies entries_map(es)[#[trigger] es[i].0] == es[i].1 by {
            if i < rest.len() {
                assert(rest[i].0 == es[i].0);
                assert(es[i].0 != es.last().0);
            }
        }
    }
}

/// What the lookup holds: the name of the icon theme, and the cache from icon
/// names to icon paths (or the text `None` for icons that were not found).
pub struct LookupView {
    pub theme: Seq<char>,
    pub cache: Map<Seq<char>, Seq<char>>,
}

/// Looks up the files of named icons in an icon theme, remembering its answers.
pub struct IconLookup {
    icon_theme: String,
    icon_cache: Vec<(String, String)>,
}

impl View for IconLookup {
    type V = LookupView;

    closed spec fn view(&self) -> LookupView {
        LookupView { theme: self.icon_theme@, cache: entries_map(pairs_view(self.icon_cache@)) }
    }
}

/// The cache value that stands for an icon that was not found.
pub open spec fn not_found() -> Seq<char> {
    "None"@
}

/// The cache value for a search's answer.
pub open spec fn cache_value(found: Option<Seq<char>>) -> Seq<char> {
    match found {
        Some(p) => p,
        None => not_found(),
    }
}

/// How a lookup begins.
pub enum LookupStart {
    /// The answer, known without reading anything.
    Found(Option<String>),
    /// A search to run, and its first read.
    Search(IconSearch, SearchAction),
}

/// The answer a lookup knows at once: an absolute path is its own answer; a
/// cached name gives its path, or nothing where the cache holds `None`.
pub open spec fn known_answer(v: LookupView, icon_name: Seq<char>) -> Option<Option<Seq<char>>> {
    if icon_name.len() > 0 && icon_name[0] == '/' {
        Some(Some(icon_name))
    } else if v.cache.contains_key(icon_name) {
        if v.cache[icon_name] == not_found() {
            Some(None)
        } else {
            Some(Some(v.cache[icon_name]))
        }
    } else {
        None
    }
}

/// The file of a cache whose name and theme match the current theme: its
/// general section names the theme, and a matching file has a `[Cache]` section.
pub open spec fn cache_sections_complete(theme: Seq<char>, secs: IniSections) -> bool {
    &&& value_in(secs, None, "Theme"@) is Some
    &&& value_in(secs, None, "Theme"@).unwrap() == theme ==> section_props(secs, Some("Cache"@)) is Some
}

/// A cache file can be read without giving up: it is missing, or no INI
/// document, or complete.
pub open spec fn cache_file_complete(theme: Seq<char>, file: Option<Seq<char>>) -> bool {
    match file {
        None => true,
        Some(text) => match ini_parse(file_text(text)) {
            None => true,
            Some(secs) => cache_sections_complete(theme, secs),
        },
    }
}

/// The cache read from a cache file: its `[Cache]` pairs where the file was
/// written for the same theme, else nothing.
pub open spec fn cache_from_file(theme: Seq<char>, file: Option<Seq<char>>) -> Map<Seq<char>, Seq<char>> {
    match file {
        None => Map::empty(),
        Some(text) => match ini_parse(file_text(text)) {
            None => Map::empty(),
            Some(secs) => if value_in(secs, None, "Theme"@) == Some(theme) {
                entries_map(section_props(secs, Some("Cache"@)).unwrap())
            } else {
                Map::empty()
            },
        },
    }
}

/// The document that saving writes: the theme in the general section, then each
/// cache pair set in the `[Cache]` section, in turn.
pub open spec fn cache_document(theme: Seq<char>, es: Seq<(Seq<char>, Seq<char>)>) -> IniSections
    decreases es.len(),
{
    if es.len() == 0 {
        sections_set(seq![(None::<Seq<char>>, Seq::<(Seq<char>, Seq<char>)>::empty())], None, "Theme"@, theme)
    } else {
        sections_set(cache_document(theme, es.drop_last()), Some("Cache"@), es.last().0, es.last().1)
    }
}

/// Removing the pairs of a key that no pair holds removes nothing.
proof fn lemma_filter_keeps_all(props: IniProperties, key: Seq<char>)
    requires
        forall|i: int| 0 <= i < props.len() ==> props[i].0 != key,
    ensures
        props.filter(crate::inifile::other_key(key)) == props,
    decreases props.len(),
{
    reveal_with_fuel(Seq::filter, 1);
    if props.len() > 0 {
        lemma_filter_keeps_all(props.drop_last(), key);
        assert(props.drop_last().push(props.last()) =~= props);
    }
}

/// Setting a key that no pair holds appends the pair.
proof fn lemma_set_new_key(props: IniProperties, key: Seq<char>, value: Seq<char>)
    requires
        forall|i: int| 0 <= i < props.len() ==> props[i].0 != key,
    ensures
        crate::inifile::props_set(props, key, value) == props.push((key, value)),
{
    lemma_filter_keeps_all(props, key);
}

/// The document that saving writes for a non-empty cache with distinct keys: a
/// general section naming the theme, and a `[Cache]` section with the pairs in
/// order.
pub proof fn lemma_cache_document(theme: Seq<char>, es: Seq<(Seq<char>, Seq<char>)>)
    requires
        keys_distinct(es),
        es.len() > 0,
    ensures
        cache_document(theme, es) == seq![
            (None::<Seq<char>>, seq![("Theme"@, theme)]),
            (Some("Cache"@), es),
        ],
    decreases es.len(),
{
    let empty_props = Seq::<(Seq<char>, Seq<char>)>::empty();
    let base = seq![(None::<Seq<char>>, empty_props)];
    lemma_set_new_key(empty_props, "Theme"@, theme);
    assert(crate::inifile::section_index(base, None) == Some(0int));
    let general = seq![(None::<Seq<char>>, seq![("Theme"@, theme)])];
    assert(cache_document(theme, Seq::<(Seq<char>, Seq<char>)>::empty()) =~= general);
    let rest = es.drop_last();
    let (k, v) = es.last();
    if rest.len() == 0 {
        assert(rest =~= Seq::<(Seq<char>, Seq<char>)>::empty());
        assert(crate::inifile::section_index(general.drop_first(), Some("Cache"@)) is None);
        assert(crate::inifile::section_index(general, Some("Cache"@)) is None);
        assert(es =~= seq![(k, v)]);
    } else {
        assert(keys_distinct(rest));
        lemma_cache_document(theme, rest);
        let doc = cache_document(theme, rest);
        assert(doc.drop_first() =~= seq![(Some("Cache"@), rest)]);
        assert(crate::inifile::section_index(doc.drop_first(), Some("Cache"@)) == Some(0int));
        assert(crate::inifile::section_index(doc, Some("Cache"@)) == Some(1int));
        assert forall|i: int| 0 <= i < rest.len() implies rest[i].0 != k by {
            assert(es[i] == rest[i]);
        }
        lemma_set_new_key(rest, k, v);
        assert(rest.push((k, v)) =~= es);
    }
}

/// Saving the cache and reading the saved file back for the same theme gives
/// the same cache, where the `ini` crate reads back the document it wrote and the
/// cache holds at least one pair. (An empty cache is saved without a `[Cache]`
/// section, and such a file cannot be read back: see [`cache_file_complete`].)
pub proof fn lemma_saved_cache_restores(theme: Seq<char>, es: Seq<(Seq<char>, Seq<char>)>)
    requires
        keys_distinct(es),
        es.len() > 0,
        ini_parse(file_text(ini_render(cache_document(theme, es)))) == Some(cache_document(theme, es)),
    ensures
        cache_file_complete(theme, Some(ini_render(cache_document(theme, es)))),
        cache_from_file(theme, Some(ini_render(cache_document(theme, es)))) == entries_map(es),
{
    lemma_cache_document(theme, es);
    let doc = cache_document(theme, es);
    assert(section_props(doc, None) == Some(seq![("Theme"@, theme)]));
    assert(crate::inifile::prop_value(seq![("Theme"@, theme)], "Theme"@) == Some(theme));
    assert(section_props(doc.drop_first(), Some("Cache"@)) == Some(es));
    assert(section_props(doc, Some("Cache"@)) == Some(es));
}

/// The document saved for an empty cache holds only the general section with
/// the theme: it has no `[Cache]` section.
pub proof fn lemma_empty_cache_document(theme: Seq<char>)
    ensures
        cache_document(theme, Seq::empty()) == seq![(None::<Seq<char>>, seq![("Theme"@, theme)])],
{
    let empty_props = Seq::<(Seq<char>, Seq<char>)>::empty();
    let base = seq![(None::<Seq<char>>, empty_props)];
    lemma_set_new_key(empty_props, "Theme"@, theme);
    assert(crate::inifile::section_index(base, None) == Some(0int));
    assert(cache_document(theme, Seq::empty()) =~= seq![(None::<Seq<char>>, seq![("Theme"@, theme)])]);
}

/// A saved empty cache cannot be read back for its theme: its file names the
/// theme but has no `[Cache]` section.
pub proof fn lemma_empty_cache_not_restorable(theme: Seq<char>)
    requires
        ini_parse(file_text(ini_render(cache_document(theme, Seq::empty())))) == Some(
            cache_document(theme, Seq::empty()),
        ),
    ensures
        !cache_file_complete(theme, Some(ini_render(cache_document(theme, Seq::empty())))),
{
    let empty_props = Seq::<(Seq<char>, Seq<char>)>::empty();
    let base = seq![(None::<Seq<char>>, empty_props)];
    lemma_set_new_key(empty_props, "Theme"@, theme);
    assert(crate::inifile::section_index(base, None) == Some(0int));
    let doc = cache_document(theme, Seq::empty());
    assert(doc =~= seq![(None::<Seq<char>>, seq![("Theme"@, theme)])]);
    assert(section_props(doc, None) == Some(seq![("Theme"@, theme)]));
    assert(crate::inifile::prop_value(seq![("Theme"@, theme)], "Theme"@) == Some(theme));
    assert(section_props(doc.drop_first(), Some("Cache"@)) is None);
}

/// A remembered answer is what the next lookup of the same name gives (unless
/// the name is an absolute path: then the lookup gives the path itself). A
/// found path is absolute, as the paths of listed files are, so no found path is
/// spelled `None`. The cache then holds the name, with `None` exactly where
/// nothing was found, and no other name changes.
pub proof fn lemma_remembered_answer(v: LookupView, icon_name: Seq<char>, found: Option<Seq<char>>)
    requires
        icon_name.len() > 0,
        icon_name[0] != '/',
        found matches Some(p) ==> is_absolute(p),
    ensures
        ({
            let after = LookupView { theme: v.theme, cache: v.cache.insert(icon_name, cache_value(found)) };
            &&& known_answer(after, icon_name) == Some(found)
            &&& after.cache.contains_key(icon_name)
            &&& (found is None <==> after.cache[icon_name] == not_found())
            &&& found matches Some(p) ==> after.cache[icon_name] == p
            &&& after.cache.remove(icon_name) == v.cache.remove(icon_name)
        }),
{
    reveal_strlit("None");
    let after = LookupView { theme: v.theme, cache: v.cache.insert(icon_name, cache_value(found)) };
    assert(after.cache.remove(icon_name) =~= v.cache.remove(icon_name));
}

/// A lookup remembers its answer: where a search for `icon_name` (no absolute
/// path) ends on a listing whose files have absolute paths, and its answer is
/// remembered, the next lookup of the name gives that answer without a search.
pub proof fn lemma_lookup_memoized(v: LookupView, icon_name: Seq<char>, s: SearchView, e: EventView)
    requires
        icon_name.len() > 0,
        icon_name[0] != '/',
        s.icon_name == icon_name,
        e matches EventView::DirScanned(es) ==> forall|i: int| 0 <= i < es.len() ==> is_absolute(#[trigger] es[i].path),
    ensures
        step_spec(s, e).1 matches ActionView::Finish(found) ==> known_answer(
            LookupView { theme: v.theme, cache: v.cache.insert(icon_name, cache_value(found)) },
            icon_name,
        ) == Some(found),
{
    crate::icon_search::lemma_found_path_absolute(s, e);
    if let ActionView::Finish(found) = step_spec(s, e).1 {
        lemma_remembered_answer(v, icon_name, found);
    }
}

/// What a lookup knows without a search: an absolute path is its own icon; for
/// any other name the cache decides: a cached path is the answer, a cached
/// `None` means that there is no icon, and a name that the cache does not hold
/// is not known, so that the lookup searches the theme for it.
pub proof fn lemma_known_answer(v: LookupView, icon_name: Seq<char>)
    ensures
        is_absolute(icon_name) ==> known_answer(v, icon_name) == Some(Some(icon_name)),
        !is_absolute(icon_name) && !v.cache.contains_key(icon_name) ==> known_answer(v, icon_name) is None,
        !is_absolute(icon_name) && v.cache.contains_key(icon_name) && v.cache[icon_name] == "None"@
            ==> known_answer(v, icon_name) == Some(None::<Seq<char>>),
        !is_absolute(icon_name) && v.cache.contains_key(icon_name) && v.cache[icon_name] != "None"@
            ==> known_answer(v, icon_name) == Some(Some(v.cache[icon_name])),
{
}

/// An absolute path is its own icon, whatever the cache holds.
pub proof fn lemma_absolute_path_known(v: LookupView, icon_name: Seq<char>)
    requires
        icon_name.len() > 0,
        icon_name[0] == '/',
    ensures
        known_answer(v, icon_name) == Some(Some(icon_name)),
{
}

/// A cache file that lacks what reading it needs.
#[derive(Debug)]
pub struct IncompleteCache;

/// Finds the pair with key `name`.
fn find_entry(cache: &Vec<(String, String)>, name: &str) -> (r: Option<usize>)
    ensures
        match r {
            Some(i) => i < cache.len() && pairs_view(cache@)[i as int].0 == name@,
            None => forall|i: int| 0 <= i < cache.len() ==> pairs_view(cache@)[i].0 != name@,
        },
{
    let key = name.to_owned();
    let mut i: usize = 0;
    while i < cache.len()
        invariant
            i <= cache.len(),
            key@ == name@,
            forall|k: int| 0 <= k < i ==> pairs_view(cache@)[k].0 != name@,
        decreases cache.len() - i,
    {
        if cache[i].0 == key {
            return Some(i);
        }
        i = i + 1;
    }
    None
}

/// Puts a pair in the cache, replacing the value of an existing key.
fn put_entry(cache: &mut Vec<(String, String)>, name: String, value: String)
    requires
        keys_distinct(pairs_view(old(cache)@)),
    ensures
        keys_distinct(pairs_view(final(cache)@)),
        entries_map(pairs_view(final(cache)@)) == entries_map(pairs_view(old(cache)@)).insert(name@, value@),
{
    let ghost before = pairs_view(cache@);
    let ghost k = name@;
    let ghost v = value@;
    proof {
        lemma_entries_map(before);
    }
    match find_entry(cache, name.as_str()) {
        Some(i) => {
            cache.remove(i);
            let ghost removed = pairs_view(cache@);
            assert(removed =~= before.remove(i as int));
            cache.push((name, value));
            let ghost after = pairs_view(cache@);
            assert(after =~= removed.push((k, v)));
            assert(keys_distinct(after)) by {
                assert forall|a: int, b: int| 0 <= a < after.len() && 0 <= b < after.len() && a != b implies
                    after[a].0 != after[b].0 by {
                    if a < removed.len() && b < removed.len() {
                        let a0 = if a < i { a } else { a + 1 };
                        let b0 = if b < i { b } else { b + 1 };
                        assert(after[a] == before[a0]);
                        assert(after[b] == before[b0]);
                    } else if a < removed.len() {
                        let a0 = if a < i { a } else { a + 1 };
                        assert(after[a] == before[a0]);
                        assert(before[i as int].0 == k);
                    } else if b < removed.len() {
                        let b0 = if b < i { b } else { b + 1 };
                        assert(after[b] == before[b0]);
                        assert(before[i as int].0 == k);
                    }
                }
            }
            proof {
                lemma_entries_map(after);
            }
            assert(entries_map(after) =~= entries_map(before).insert(k, v)) by {
                assert forall|key: Seq<char>| #[trigger] entries_map(after).contains_key(key) <==> entries_map(
                    before,
                ).insert(k, v).contains_key(key) by {
                    if entries_map(after).contains_key(key) {
                        let a = choose|a: int| 0 <= a < after.len() && after[a].0 == key;
                        if a < removed.len() {
                            let a0 = if a < i { a } else { a + 1 };
                            assert(after[a] == before[a0]);
                        }
                    }
                    if entries_map(before).contains_key(key) && key != k {
                        let a0 = choose|a0: int| 0 <= a0 < before.len() && before[a0].0 == key;
                        assert(a0 != i);
                        let a = if a0 < i { a0 } else { a0 - 1 };
                        assert(after[a] == before[a0]);
                    }
                }
                assert forall|key: Seq<char>| #[trigger] entries_map(after).contains_key(key) implies entries_map(
                    after,
                )[key] == entries_map(before).insert(k, v)[key] by {
                    let a = choose|a: int| 0 <= a < after.len() && after[a].0 == key;
                    if a < removed.len() {
                        let a0 = if a < i { a } else { a + 1 };
                        assert(after[a] == before[a0]);
                    }
                }
            }
        },
        None => {
            cache.push((name, value));
            let ghost after = pairs_view(cache@);
            assert(after =~= before.push((k, v)));
            assert(after.drop_last() =~= before);
        },
    }
}

impl IconLookup {
    #[verifier::type_invariant]
    spec fn cache_keys_distinct(self) -> bool {
        keys_distinct(pairs_view(self.icon_cache@))
    }

    /// The cache pairs in the order in which saving writes them.
    pub closed spec fn cache_entries(&self) -> Seq<(Seq<char>, Seq<char>)> {
        pairs_view(self.icon_cache@)
    }

    /// A lookup in the theme named `icon_theme`, with the cache read from the
    /// contents of the cache file (`None` where there is no such file).
    pub fn new(icon_theme: String, cache_file: Option<&str>) -> (r: IconLookup)
        requires
            cache_file_complete(icon_theme@, opt_str_view(cache_file)),
        ensures
            r@ == (LookupView {
                theme: icon_theme@,
                cache: cache_from_file(icon_theme@, opt_str_view(cache_file)),
            }),
    {
        let mut cache: Vec<(String, String)> = Vec::new();
        assert(pairs_view(cache@) =~= Seq::<(Seq<char>, Seq<char>)>::empty());
        if let Some(contents) = cache_file {
            let text = strip_bom(contents);
            if let Ok(doc) = load_ini(text.as_str()) {
                let ghost secs = ini_parse(file_text(contents@)).unwrap();
                let file_theme = ini_get(&doc, None, "Theme").unwrap();
                if icon_theme == file_theme {
                    let pairs = ini_section(&doc, Some("Cache")).unwrap();
                    let ghost all = pairs_view(pairs@);
                    let mut i: usize = 0;
                    while i < pairs.len()
                        invariant
                            i <= pairs.len(),
                            all == pairs_view(pairs@),
                            keys_distinct(pairs_view(cache@)),
                            entries_map(pairs_view(cache@)) == entries_map(all.take(i as int)),
                        decreases pairs.len() - i,
                    {
                        let key = pairs[i].0.clone();
                        let value = pairs[i].1.clone();
                        assert(all.take(i + 1).drop_last() =~= all.take(i as int));
                        assert(all.take(i + 1).last() == (key@, value@));
                        put_entry(&mut cache, key, value);
                        i = i + 1;
                    }
                    assert(all.take(pairs.len() as int) =~= all);
                }
            }
        }
        IconLookup { icon_theme, icon_cache: cache }
    }

    /// Whether a cache file with these contents can be read for the theme named
    /// `icon_theme` without giving up.
    pub fn cache_file_is_complete(icon_theme: &str, cache_file: Option<&str>) -> (r: bool)
        ensures
            r == cache_file_complete(icon_theme@, opt_str_view(cache_file)),
    {
        match cache_file {
            None => true,
            Some(contents) => {
                let text = strip_bom(contents);
                match load_ini(text.as_str()) {
                    Err(_) => true,
                    Ok(doc) => match ini_get(&doc, None, "Theme") {
                        None => false,
                        Some(file_theme) => {
                            let theme = icon_theme.to_owned();
                            if theme == file_theme {
                                ini_section(&doc, Some("Cache")).is_some()
                            } else {
                                true
                            }
                        },
                    },
                }
            },
        }
    }

    /// A lookup read as [`IconLookup::new`] reads it, or a report that the cache
    /// file lacks what reading it needs.
    pub fn load(icon_theme: String, cache_file: Option<&str>) -> (r: Result<IconLookup, IncompleteCache>)
        ensures
            r is Err <==> !cache_file_complete(icon_theme@, opt_str_view(cache_file)),
            r matches Ok(l) ==> l@ == (LookupView {
                theme: icon_theme@,
                cache: cache_from_file(icon_theme@, opt_str_view(cache_file)),
            }),
    {
        if IconLookup::cache_file_is_complete(icon_theme.as_str(), cache_file) {
            Ok(IconLookup::new(icon_theme, cache_file))
        } else {
            Err(IncompleteCache)
        }
    }

    /// The name of the icon theme.
    pub fn icon_theme(&self) -> (r: &String)
        ensures
            r@ == self@.theme,
    {
        &self.icon_theme
    }

    /// Begins the lookup of the icon named `icon_name`: the answer where it is
    /// known at once (see [`known_answer`]), else the search in the theme.
    pub fn lookup(&self, icon_name: &str) -> (r: LookupStart)
        requires
            icon_name@.len() > 0,
        ensures
            match r {
                LookupStart::Found(a) => known_answer(self@, icon_name@) == Some(opt_view(a)),
                LookupStart::Search(search, action) => {
                    &&& known_answer(self@, icon_name@) is None
                    &&& search.wf()
                    &&& search@ == (SearchView {
                        icon_name: icon_name@,
                        checked: seq![self@.theme],
                        frames: Seq::<FrameView>::empty(),
                        stage: SearchStage::Theme,
                    })
                    &&& action@ == (ActionView::LoadTheme {
                        theme_path: theme_path(self@.theme),
                        index_path: index_path(self@.theme),
                    })
                },
            },
    {
        match self.known(icon_name) {
            Some(answer) => LookupStart::Found(answer),
            None => {
                let (search, action) = IconSearch::start(self.icon_theme.as_str(), icon_name);
                LookupStart::Search(search, action)
            },
        }
    }

    /// Records the answer of a search for `icon_name`: its path, or `None` where
    /// nothing was found.
    pub fn remember(&mut self, icon_name: &str, found: &Option<String>)
        ensures
            final(self)@ == (LookupView {
                theme: old(self)@.theme,
                cache: old(self)@.cache.insert(icon_name@, cache_value(opt_view(*found))),
            }),
    {
        proof {
            use_type_invariant(&*self);
        }
        let value = match found {
            Some(p) => p.clone(),
            None => "None".to_owned(),
        };
        let mut cache: Vec<(String, String)> = Vec::new();
        std::mem::swap(&mut cache, &mut self.icon_cache);
        put_entry(&mut cache, icon_name.to_owned(), value);
        self.icon_cache = cache;
    }

    /// The text of the cache file that saving writes: the document of
    /// [`cache_document`], with the theme and every cache pair.
    pub fn save(&self) -> (r: String)
        ensures
            r@ == ini_render(cache_document(self@.theme, self.cache_entries())),
            keys_distinct(self.cache_entries()),
            entries_map(self.cache_entries()) == self@.cache,
    {
        proof {
            use_type_invariant(self);
        }
        let mut doc = ini_new();
        ini_set(&mut doc, None, "Theme", self.icon_theme.as_str());
        let ghost es = self.cache_entries();
        let mut i: usize = 0;
        while i < self.icon_cache.len()
            invariant
                i <= self.icon_cache.len(),
                es == self.cache_entries(),
                crate::inifile::ini_sections(doc) == cache_document(self@.theme, es.take(i as int)),
            decreases self.icon_cache.len() - i,
        {
            let (key, value) = (&self.icon_cache[i].0, &self.icon_cache[i].1);
            assert(es.take(i + 1).drop_last() =~= es.take(i as int));
            assert(es.take(i + 1).last() == (key@, value@));
            ini_set(&mut doc, Some("Cache"), key.as_str(), value.as_str());
            i = i + 1;
        }
        assert(es.take(es.len() as int) =~= es);
        ini_render_text(&doc)
    }

    /// The answer of a lookup of `icon_name` that needs no search, if there is one.
    pub fn known(&self, icon_name: &str) -> (r: Option<Option<String>>)
        ensures
            match r {
                Some(a) => known_answer(self@, icon_name@) == Some(opt_view(a)),
                None => known_answer(self@, icon_name@) is None,
            },
    {
        proof {
            use_type_invariant(self);
            lemma_entries_map(pairs_view(self.icon_cache@));
        }
        let chars = crate::strings::chars_of(icon_name);
        if chars.len() > 0 && chars[0] == '/' {
            return Some(Some(icon_name.to_owned()));
        }
        match find_entry(&self.icon_cache, icon_name) {
            Some(i) => {
                let value = &self.icon_cache[i].1;
                assert(pairs_view(self.icon_cache@)[i as int].1 == value@);
                let none = "None".to_owned();
                if *value == none {
                    Some(None)
                } else {
                    Some(Some(value.clone()))
                }
            },
            None => None,
        }
    }
}

} // verus!
