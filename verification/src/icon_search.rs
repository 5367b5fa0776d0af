//! The search for an icon through a theme and the themes it inherits from.
//!
//! The search reads theme index files and directory listings, which the caller
//! does: [`IconSearch::step`] takes what the last read gave and says what to read
//! next, until it says the search is done. The order of reads is a depth-first
//! walk: a theme's directories from the largest icons to the smallest, then the
//! themes it inherits from, in order, each theme at most once; where no theme
//! has the icon, the general pixmaps directory.
use vstd::prelude::*;

use crate::applications::opt_view;
use crate::icons::{
    dir_views, entry_views, is_absolute, lemma_sort_by_size_stable, lookup_dir, size_is, matching_entry, sort_by_size, sort_directories, string_views,
    DirEntryInfo, DirView, EntryView, IconTheme, ThemeDirectory, ThemeView,
};
use crate::strings::concatenate;

verus! {

/// Where icon themes are installed.
pub open spec fn icons_root() -> Seq<char> {
    "/usr/share/icons/"@
}

/// The directory of loose application icons that the search reads last.
pub open spec fn pixmaps_dir() -> Seq<char> {
    "/usr/share/pixmaps/"@
}

/// The directory of the theme named `name`.
pub open spec fn theme_path(name: Seq<char>) -> Seq<char> {
    icons_root() + name + "/"@
}

/// The index file of the theme named `name`.
pub open spec fn index_path(name: Seq<char>) -> Seq<char> {
    theme_path(name) + "index.theme"@
}

/// A theme being searched: its directories in search order and the themes it
/// inherits from, with how far the search has gone in each.
pub struct SearchFrame {
    dirs: Vec<String>,
    next_dir: usize,
    inherits: Vec<String>,
    next_inherit: usize,
}

/// The mathematical value of a [`SearchFrame`].
pub struct FrameView {
    pub dirs: Seq<Seq<char>>,
    pub next_dir: int,
    pub inherits: Seq<Seq<char>>,
    pub next_inherit: int,
}

impl View for SearchFrame {
    type V = FrameView;

    closed spec fn view(&self) -> FrameView {
        FrameView {
            dirs: string_views(self.dirs@),
            next_dir: self.next_dir as int,
            inherits: string_views(self.inherits@),
            next_inherit: self.next_inherit as int,
        }
    }
}

/// What the search waits for.
#[derive(PartialEq, Eq, Structural, Debug, Clone, Copy)]
pub enum SearchStage {
    /// The index of the theme it asked for.
    Theme,
    /// The listing of a theme directory it asked for.
    ThemeDir,
    /// The listing of the pixmaps directory.
    Pixmaps,
    /// Nothing: the search is done.
    Done,
}

/// What the caller reads next, or the search's answer.
#[derive(Debug)]
pub enum SearchAction {
    /// Read the index file at `index_path` of the theme at `theme_path`.
    LoadTheme { theme_path: String, index_path: String },
    /// List the directory at this path.
    ScanDir(String),
    /// The search is done; this is the icon's path, if one was found.
    Finish(Option<String>),
}

/// The mathematical value of a [`SearchAction`].
pub enum ActionView {
    LoadTheme { theme_path: Seq<char>, index_path: Seq<char> },
    ScanDir(Seq<char>),
    Finish(Option<Seq<char>>),
}

impl View for SearchAction {
    type V = ActionView;

    open spec fn view(&self) -> ActionView {
        match self {
            SearchAction::LoadTheme { theme_path, index_path } => ActionView::LoadTheme {
                theme_path: theme_path@,
                index_path: index_path@,
            },
            SearchAction::ScanDir(p) => ActionView::ScanDir(p@),
            SearchAction::Finish(r) => ActionView::Finish(opt_view(*r)),
        }
    }
}

/// What the last read gave.
#[derive(Debug)]
pub enum SearchEvent {
    /// The theme asked for, or nothing where its index could not be read as a
    /// document.
    ThemeLoaded(Option<IconTheme>),
    /// The entries of the directory asked for (none where it could not be listed).
    DirScanned(Vec<DirEntryInfo>),
}

/// The mathematical value of a [`SearchEvent`].
pub enum EventView {
    ThemeLoaded(Option<ThemeView>),
    DirScanned(Seq<EntryView>),
}

impl View for SearchEvent {
    type V = EventView;

    open spec fn view(&self) -> EventView {
        match self {
            SearchEvent::ThemeLoaded(Some(t)) => EventView::ThemeLoaded(Some(t@)),
            SearchEvent::ThemeLoaded(None) => EventView::ThemeLoaded(None),
            SearchEvent::DirScanned(es) => EventView::DirScanned(entry_views(es@)),
        }
    }
}

/// A search for one icon, between two reads.
pub struct IconSearch {
    icon_name: String,
    checked: Vec<String>,
    frames: Vec<SearchFrame>,
    stage: SearchStage,
}

/// The mathematical value of an [`IconSearch`].
pub struct SearchView {
    pub icon_name: Seq<char>,
    /// The themes the search has entered, in the order it entered them.
    pub checked: Seq<Seq<char>>,
    /// The themes being searched, innermost last.
    pub frames: Seq<FrameView>,
    pub stage: SearchStage,
}

impl View for IconSearch {
    type V = SearchView;

    closed spec fn view(&self) -> SearchView {
        SearchView {
            icon_name: self.icon_name@,
            checked: string_views(self.checked@),
            frames: self.frames@.map_values(|f: SearchFrame| f@),
            stage: self.stage,
        }
    }
}

/// The reads left in a theme, and one for leaving it.
pub open spec fn frame_remaining(f: FrameView) -> nat {
    ((f.dirs.len() - f.next_dir) as nat) + ((f.inherits.len() - f.next_inherit) as nat) + 1
}

/// The steps left in all the themes being searched.
pub open spec fn remaining(frames: Seq<FrameView>) -> nat
    decreases frames.len(),
{
    if frames.len() == 0 {
        0
    } else {
        remaining(frames.drop_last()) + frame_remaining(frames.last())
    }
}

/// A theme's position within its lists.
pub open spec fn frame_wf(f: FrameView) -> bool {
    0 <= f.next_dir <= f.dirs.len() && 0 <= f.next_inherit <= f.inherits.len()
}

/// The frame with one more directory done.
pub open spec fn next_dir_done(f: FrameView) -> FrameView {
    FrameView { next_dir: f.next_dir + 1, ..f }
}

/// The frame with one more inherited theme done.
pub open spec fn next_inherit_done(f: FrameView) -> FrameView {
    FrameView { next_inherit: f.next_inherit + 1, ..f }
}

/// The search's next move once the current read is settled: the next directory
/// of the innermost theme; else its next inherited theme that has not been
/// entered (a theme already entered is passed over); else leaving the theme.
/// With no theme left, the pixmaps directory.
pub open spec fn advance(checked: Seq<Seq<char>>, frames: Seq<FrameView>) -> (
    Seq<Seq<char>>,
    Seq<FrameView>,
    SearchStage,
    ActionView,
)
    decreases remaining(frames),
{
    if frames.len() == 0 {
        (checked, frames, SearchStage::Pixmaps, ActionView::ScanDir(pixmaps_dir()))
    } else {
        let f = frames.last();
        let last = frames.len() - 1;
        proof {
            assert(frames.update(last, next_inherit_done(f)).drop_last() =~= frames.drop_last());
        }
        if 0 <= f.next_dir < f.dirs.len() {
            (
                checked,
                frames.update(last, next_dir_done(f)),
                SearchStage::ThemeDir,
                ActionView::ScanDir(f.dirs[f.next_dir]),
            )
        } else if 0 <= f.next_inherit < f.inherits.len() {
            let name = f.inherits[f.next_inherit];
            let rest = frames.update(last, next_inherit_done(f));
            if checked.contains(name) {
                advance(checked, rest)
            } else {
                (
                    checked.push(name),
                    rest,
                    SearchStage::Theme,
                    ActionView::LoadTheme { theme_path: theme_path(name), index_path: index_path(name) },
                )
            }
        } else {
            advance(checked, frames.drop_last())
        }
    }
}

/// The frame for a theme just read: its directories' paths from the largest
/// icons to the smallest, and the themes it inherits from.
pub open spec fn frame_for(t: ThemeView) -> FrameView {
    FrameView {
        dirs: sort_by_size(t.directories).map_values(|d: DirView| d.path),
        next_dir: 0,
        inherits: t.inherits,
        next_inherit: 0,
    }
}

/// The event is what the search waits for.
pub open spec fn expects(stage: SearchStage, e: EventView) -> bool {
    match e {
        EventView::ThemeLoaded(_) => stage == SearchStage::Theme,
        EventView::DirScanned(_) => stage == SearchStage::ThemeDir || stage == SearchStage::Pixmaps,
    }
}

/// The search after `e`, and what it asks for next.
pub open spec fn step_spec(s: SearchView, e: EventView) -> (SearchView, ActionView) {
    let (checked, frames, stage, action) = match e {
        EventView::ThemeLoaded(None) => advance(s.checked, s.frames),
        EventView::ThemeLoaded(Some(t)) => advance(s.checked, s.frames.push(frame_for(t))),
        EventView::DirScanned(entries) => match matching_entry(entries, s.icon_name) {
            Some(p) => (s.checked, s.frames, SearchStage::Done, ActionView::Finish(Some(p))),
            None => if s.stage == SearchStage::Pixmaps {
                (s.checked, s.frames, SearchStage::Done, ActionView::Finish(None))
            } else {
                advance(s.checked, s.frames)
            },
        },
    };
    (SearchView { icon_name: s.icon_name, checked, frames, stage }, action)
}

/// Every theme being searched has a sound position.
pub open spec fn frames_wf(frames: Seq<FrameView>) -> bool {
    forall|i: int| 0 <= i < frames.len() ==> frame_wf(#[trigger] frames[i])
}

/// The path of a theme's directory.
fn theme_path_of(name: &str) -> (r: String)
    ensures
        r@ == theme_path(name@),
{
    let a = concatenate("/usr/share/icons/", name);
    concatenate(a.as_str(), "/")
}

/// Advancing keeps every frame sound.
pub(crate) proof fn lemma_advance_wf(checked: Seq<Seq<char>>, frames: Seq<FrameView>)
    requires
        frames_wf(frames),
    ensures
        frames_wf(advance(checked, frames).1),
    decreases remaining(frames),
{
    if frames.len() > 0 {
        let f = frames.last();
        let last = frames.len() - 1;
        assert(frames.update(last, next_inherit_done(f)).drop_last() =~= frames.drop_last());
        assert(frame_wf(frames[last]));
        if 0 <= f.next_dir < f.dirs.len() {
            assert(frames_wf(frames.update(last, next_dir_done(f))));
        } else if 0 <= f.next_inherit < f.inherits.len() {
            let rest = frames.update(last, next_inherit_done(f));
            assert(frames_wf(rest));
            if checked.contains(f.inherits[f.next_inherit]) {
                lemma_advance_wf(checked, rest);
            }
        } else {
            assert(frames_wf(frames.drop_last()));
            lemma_advance_wf(checked, frames.drop_last());
        }
    }
}

/// The paths of theme directories, in order.
fn directory_paths(dirs: Vec<ThemeDirectory>) -> (r: Vec<String>)
    ensures
        string_views(r@) == dir_views(dirs@).map_values(|d: DirView| d.path),
{
    let ghost all = dir_views(dirs@);
    let mut paths: Vec<String> = Vec::new();
    for d in it: dirs
        invariant
            all == dir_views(it.seq()),
            string_views(paths@) == all.take(it.index() as int).map_values(|d: DirView| d.path),
    {
        let ghost k = it.index() as int;
        let ghost before = string_views(paths@);
        let ghost dv = d@;
        assert(all.take(k + 1) =~= all.take(k).push(dv));
        paths.push(d.path);
        assert(string_views(paths@) =~= before.push(dv.path));
        assert(all.take(k + 1).map_values(|d: DirView| d.path) =~= all.take(k).map_values(
            |d: DirView| d.path,
        ).push(dv.path));
    }
    assert(all.take(all.len() as int) =~= all);
    paths
}

/// Where advancing enters a theme, the theme had not been entered and is the one
/// added to the entered themes; otherwise the entered themes stay as they were.
pub proof fn lemma_advance_enters_fresh(checked: Seq<Seq<char>>, frames: Seq<FrameView>)
    ensures
        ({
            let (c2, f2, stage, action) = advance(checked, frames);
            match action {
                ActionView::LoadTheme { theme_path: tp, index_path: ip } => exists|name: Seq<char>|
                    !checked.contains(name) && c2 == checked.push(name) && tp == theme_path(name)
                        && ip == index_path(name),
                _ => c2 == checked,
            }
        }),
    decreases remaining(frames),
{
    if frames.len() > 0 {
        let f = frames.last();
        let last = frames.len() - 1;
        assert(frames.update(last, next_inherit_done(f)).drop_last() =~= frames.drop_last());
        if 0 <= f.next_dir < f.dirs.len() {
        } else if 0 <= f.next_inherit < f.inherits.len() {
            let name = f.inherits[f.next_inherit];
            let rest = frames.update(last, next_inherit_done(f));
            if checked.contains(name) {
                lemma_advance_enters_fresh(checked, rest);
            } else {
                let (c2, f2, stage, action) = advance(checked, frames);
                assert(c2 == checked.push(name));
            }
        } else {
            lemma_advance_enters_fresh(checked, frames.drop_last());
        }
    }
}

/// Where advancing enters a theme, that theme is listed as inherited by one of
/// the themes being searched.
pub proof fn lemma_advance_enters_inherited(checked: Seq<Seq<char>>, frames: Seq<FrameView>)
    ensures
        ({
            let (c2, f2, stage, action) = advance(checked, frames);
            action is LoadTheme ==> c2.len() > 0 && exists|i: int|
                0 <= i < frames.len() && frames[i].inherits.contains(c2.last())
        }),
    decreases remaining(frames),
{
    if frames.len() > 0 {
        let f = frames.last();
        let last = frames.len() - 1;
        assert(frames.update(last, next_inherit_done(f)).drop_last() =~= frames.drop_last());
        if 0 <= f.next_dir < f.dirs.len() {
        } else if 0 <= f.next_inherit < f.inherits.len() {
            let name = f.inherits[f.next_inherit];
            let rest = frames.update(last, next_inherit_done(f));
            if checked.contains(name) {
                lemma_advance_enters_inherited(checked, rest);
                let (c2, f2, stage, action) = advance(checked, rest);
                if action is LoadTheme {
                    let i = choose|i: int| 0 <= i < rest.len() && rest[i].inherits.contains(c2.last());
                    assert(rest[i].inherits == frames[i].inherits);
                }
            } else {
                assert(frames[last].inherits.contains(name));
            }
        } else {
            lemma_advance_enters_inherited(checked, frames.drop_last());
            let (c2, f2, stage, action) = advance(checked, frames.drop_last());
            if action is LoadTheme {
                let i = choose|i: int| 0 <= i < frames.drop_last().len() && frames.drop_last()[i].inherits.contains(c2.last());
                assert(frames.drop_last()[i] == frames[i]);
            }
        }
    }
}

/// Only inherited themes are entered: a step that asks for a theme's index asks
/// for a theme listed as inherited by one of the themes being searched, or by
/// the theme the step was handed.
pub proof fn lemma_step_enters_inherited(s: SearchView, e: EventView)
    ensures
        step_spec(s, e).1 is LoadTheme ==> {
            let name = step_spec(s, e).0.checked.last();
            ||| exists|i: int| 0 <= i < s.frames.len() && s.frames[i].inherits.contains(name)
            ||| e matches EventView::ThemeLoaded(Some(t)) && t.inherits.contains(name)
        },
{
    let frames = match e {
        EventView::ThemeLoaded(Some(t)) => s.frames.push(frame_for(t)),
        _ => s.frames,
    };
    lemma_advance_enters_inherited(s.checked, frames);
    let (s2, a) = step_spec(s, e);
    if a is LoadTheme {
        let name = s2.checked.last();
        let i = choose|i: int| 0 <= i < frames.len() && frames[i].inherits.contains(name);
        if i < s.frames.len() {
            assert(frames[i] == s.frames[i]);
        }
    }
}

/// No theme is entered twice in one search: each step keeps the entered themes
/// free of repeats, and a step that asks for a theme's index asks for one not
/// entered before.
pub proof fn lemma_step_enters_each_theme_once(s: SearchView, e: EventView)
    requires
        s.checked.no_duplicates(),
    ensures
        step_spec(s, e).0.checked.no_duplicates(),
        step_spec(s, e).1 is LoadTheme ==> exists|name: Seq<char>|
            !s.checked.contains(name) && step_spec(s, e).0.checked == s.checked.push(name)
                && step_spec(s, e).1 == (ActionView::LoadTheme {
                theme_path: theme_path(name),
                index_path: index_path(name),
            }),
        !(step_spec(s, e).1 is LoadTheme) ==> step_spec(s, e).0.checked == s.checked,
{
    let frames = match e {
        EventView::ThemeLoaded(Some(t)) => s.frames.push(frame_for(t)),
        _ => s.frames,
    };
    lemma_advance_enters_fresh(s.checked, frames);
    let (s2, a) = step_spec(s, e);
    if a is LoadTheme {
        let name = choose|name: Seq<char>|
            !s.checked.contains(name) && s2.checked == s.checked.push(name) && a == (
            ActionView::LoadTheme { theme_path: theme_path(name), index_path: index_path(name) });
        assert forall|i: int, j: int| 0 <= i < s2.checked.len() && 0 <= j < s2.checked.len() && i != j implies
            s2.checked[i] != s2.checked[j] by {
            if i == s.checked.len() {
                assert(s.checked[j] == s2.checked[j]);
            } else if j == s.checked.len() {
                assert(s.checked[i] == s2.checked[i]);
            }
        }
    }
}

/// Advancing never ends the search: it asks for a theme's index or a listing.
pub proof fn lemma_advance_asks(checked: Seq<Seq<char>>, frames: Seq<FrameView>)
    ensures
        !(advance(checked, frames).3 is Finish),
        advance(checked, frames).2 != SearchStage::Done,
    decreases remaining(frames),
{
    if frames.len() > 0 {
        let f = frames.last();
        let last = frames.len() - 1;
        assert(frames.update(last, next_inherit_done(f)).drop_last() =~= frames.drop_last());
        if 0 <= f.next_dir < f.dirs.len() {
        } else if 0 <= f.next_inherit < f.inherits.len() {
            if checked.contains(f.inherits[f.next_inherit]) {
                lemma_advance_asks(checked, frames.update(last, next_inherit_done(f)));
            }
        } else {
            lemma_advance_asks(checked, frames.drop_last());
        }
    }
}

/// A search ends with a path only on a directory listing, and the path is that
/// of a file in that listing.
pub proof fn lemma_found_path_listed(s: SearchView, e: EventView)
    ensures
        step_spec(s, e).1 matches ActionView::Finish(Some(p)) ==> (e matches EventView::DirScanned(es)
            && exists|i: int| 0 <= i < es.len() && !es[i].is_dir && es[i].path == p),
{
    match e {
        EventView::ThemeLoaded(None) => lemma_advance_asks(s.checked, s.frames),
        EventView::ThemeLoaded(Some(t)) => lemma_advance_asks(s.checked, s.frames.push(frame_for(t))),
        EventView::DirScanned(es) => {
            lemma_advance_asks(s.checked, s.frames);
            crate::icons::lemma_matching_entry_listed(es, s.icon_name);
        },
    }
}

/// Where every file of a listing has an absolute path, a search that ends on it
/// with a path ends with an absolute one.
pub proof fn lemma_found_path_absolute(s: SearchView, e: EventView)
    requires
        e matches EventView::DirScanned(es) ==> forall|i: int| 0 <= i < es.len() ==> is_absolute(#[trigger] es[i].path),
    ensures
        step_spec(s, e).1 matches ActionView::Finish(Some(p)) ==> is_absolute(p),
{
    lemma_found_path_listed(s, e);
}

/// Where advancing asks for a listing of a theme directory, fewer steps are
/// left in the themes being searched.
pub proof fn lemma_advance_remaining(checked: Seq<Seq<char>>, frames: Seq<FrameView>)
    requires
        frames_wf(frames),
    ensures
        advance(checked, frames).2 == SearchStage::ThemeDir ==> remaining(advance(checked, frames).1)
            < remaining(frames),
    decreases remaining(frames),
{
    if frames.len() > 0 {
        let f = frames.last();
        let last = frames.len() - 1;
        assert(frame_wf(frames[last]));
        assert(frames.update(last, next_inherit_done(f)).drop_last() =~= frames.drop_last());
        assert(frames.update(last, next_dir_done(f)).drop_last() =~= frames.drop_last());
        if 0 <= f.next_dir < f.dirs.len() {
            assert(frames.update(last, next_dir_done(f)).last() == next_dir_done(f));
        } else if 0 <= f.next_inherit < f.inherits.len() {
            let rest = frames.update(last, next_inherit_done(f));
            assert(rest.last() == next_inherit_done(f));
            assert(frames_wf(rest));
            if checked.contains(f.inherits[f.next_inherit]) {
                lemma_advance_remaining(checked, rest);
            }
        } else {
            assert(frames_wf(frames.drop_last()));
            lemma_advance_remaining(checked, frames.drop_last());
        }
    }
}

/// Advancing drops or moves within themes, never adds one: each theme left is
/// one of those it had, at the same place, with the same inherited themes.
pub proof fn lemma_advance_keeps_inherits(checked: Seq<Seq<char>>, frames: Seq<FrameView>)
    ensures
        advance(checked, frames).1.len() <= frames.len(),
        forall|i: int| 0 <= i < advance(checked, frames).1.len() ==> #[trigger] advance(checked, frames).1[i].inherits
            == frames[i].inherits,
    decreases remaining(frames),
{
    if frames.len() > 0 {
        let f = frames.last();
        let last = frames.len() - 1;
        assert(frames.update(last, next_inherit_done(f)).drop_last() =~= frames.drop_last());
        if 0 <= f.next_dir < f.dirs.len() {
        } else if 0 <= f.next_inherit < f.inherits.len() {
            let rest = frames.update(last, next_inherit_done(f));
            if checked.contains(f.inherits[f.next_inherit]) {
                lemma_advance_keeps_inherits(checked, rest);
                assert forall|i: int| 0 <= i < advance(checked, frames).1.len() implies #[trigger] advance(
                    checked,
                    frames,
                ).1[i].inherits == frames[i].inherits by {
                    assert(rest[i].inherits == frames[i].inherits);
                }
            }
        } else {
            let below = frames.drop_last();
            lemma_advance_keeps_inherits(checked, below);
            assert forall|i: int| 0 <= i < advance(checked, frames).1.len() implies #[trigger] advance(
                checked,
                frames,
            ).1[i].inherits == frames[i].inherits by {
                assert(below[i] == frames[i]);
            }
        }
    }
}

/// A theme with directories that is handed to the search becomes its innermost
/// theme, and the search asks at once for the listing of the first of them. It
/// lists them from the largest icons to the smallest, directories of equal size
/// in the order the index lists them, and it will go on to the themes the new
/// theme inherits from, from the first.
pub proof fn lemma_loaded_theme_order(s: SearchView, t: ThemeView)
    requires
        t.directories.len() > 0,
    ensures
        ({
            let (s2, action) = step_spec(s, EventView::ThemeLoaded(Some(t)));
            let f = s2.frames.last();
            &&& s2.frames.len() == s.frames.len() + 1
            &&& s2.frames.drop_last() == s.frames
            &&& s2.checked == s.checked
            &&& s2.icon_name == s.icon_name
            &&& s2.stage == SearchStage::ThemeDir
            &&& f.next_dir == 1
            &&& f.inherits == t.inherits
            &&& f.next_inherit == 0
            &&& f.dirs.len() == t.directories.len()
            &&& action == ActionView::ScanDir(f.dirs[0])
            &&& exists|order: Seq<DirView>|
                {
                    &&& f.dirs == order.map_values(|d: DirView| d.path)
                    &&& #[trigger] order.to_multiset() == t.directories.to_multiset()
                    &&& forall|i: int, j: int|
                        0 <= i < j < order.len() ==> order[i].icon_size >= order[j].icon_size
                    &&& forall|v: u16| #[trigger] order.filter(size_is(v)) == t.directories.filter(size_is(v))
                }
        }),
{
    let ft = frame_for(t);
    let frames = s.frames.push(ft);
    let last = frames.len() - 1;
    lemma_sort_by_size_stable(t.directories);
    let order = sort_by_size(t.directories);
    assert(frames.last() == ft);
    let (s2, action) = step_spec(s, EventView::ThemeLoaded(Some(t)));
    assert(s2.frames == frames.update(last, next_dir_done(ft)));
    assert(s2.frames.drop_last() =~= s.frames);
    let f = s2.frames.last();
    assert(f == next_dir_done(ft));
    assert(f.dirs =~= order.map_values(|d: DirView| d.path));
}

impl IconSearch {
    /// The search's state is sound.
    pub closed spec fn wf(&self) -> bool {
        frames_wf(self@.frames)
    }

    /// Starts the search for `icon_name` in the theme named `theme`: the theme is
    /// entered and its index is the first read.
    pub fn start(theme: &str, icon_name: &str) -> (r: (IconSearch, SearchAction))
        ensures
            r.0.wf(),
            r.0@ == (SearchView {
                icon_name: icon_name@,
                checked: seq![theme@],
                frames: Seq::<FrameView>::empty(),
                stage: SearchStage::Theme,
            }),
            r.1@ == (ActionView::LoadTheme { theme_path: theme_path(theme@), index_path: index_path(theme@) }),
    {
        let path = theme_path_of(theme);
        let index = concatenate(path.as_str(), "index.theme");
        let mut checked: Vec<String> = Vec::new();
        checked.push(theme.to_owned());
        let search = IconSearch {
            icon_name: icon_name.to_owned(),
            checked,
            frames: Vec::new(),
            stage: SearchStage::Theme,
        };
        assert(search@.checked =~= seq![theme@]);
        assert(search@.frames =~= Seq::<FrameView>::empty());
        (search, SearchAction::LoadTheme { theme_path: path, index_path: index })
    }

    /// Takes what the last read gave and says what to read next, or the answer.
    /// A theme that was read becomes the innermost theme being searched; a
    /// directory listing that holds the icon ends the search with its path.
    pub fn step(&mut self, event: SearchEvent) -> (action: SearchAction)
        requires
            old(self).wf(),
            expects(old(self)@.stage, event@),
        ensures
            final(self).wf(),
            (final(self)@, action@) == step_spec(old(self)@, event@),
    {
        let ghost e = event@;
        match event {
            SearchEvent::ThemeLoaded(None) => {
                let action = self.advance();
                assert(self@.icon_name == old(self)@.icon_name);
                action
            },
            SearchEvent::ThemeLoaded(Some(theme)) => {
                let ghost tv = theme@;
                let IconTheme { name: _, comment: _, directories, inherits } = theme;
                let sorted = sort_directories(directories);
                let dirs = directory_paths(sorted);
                let frame = SearchFrame { dirs, next_dir: 0, inherits, next_inherit: 0 };
                assert(frame@ == frame_for(tv));
                let ghost frames0 = self@.frames;
                self.frames.push(frame);
                assert(self@.frames =~= frames0.push(frame_for(tv)));
                assert(frames_wf(self@.frames));
                self.advance()
            },
            SearchEvent::DirScanned(entries) => {
                match lookup_dir(self.icon_name.as_str(), &entries) {
                    Some(path) => {
                        self.stage = SearchStage::Done;
                        SearchAction::Finish(Some(path))
                    },
                    None => {
                        if self.stage == SearchStage::Pixmaps {
                            self.stage = SearchStage::Done;
                            SearchAction::Finish(None)
                        } else {
                            self.advance()
                        }
                    },
                }
            },
        }
    }

    /// What the search waits for.
    pub fn stage(&self) -> (r: SearchStage)
        ensures
            r == self@.stage,
    {
        self.stage
    }

    /// Whether a theme entered already (the name is not entered again).
    fn is_checked(&self, name: &String) -> (r: bool)
        ensures
            r == self@.checked.contains(name@),
    {
        let mut i: usize = 0;
        while i < self.checked.len()
            invariant
                i <= self.checked.len(),
                forall|k: int| 0 <= k < i ==> self@.checked[k] != name@,
            decreases self.checked.len() - i,
        {
            if self.checked[i] == *name {
                assert(self@.checked[i as int] == name@);
                return true;
            }
            i = i + 1;
        }
        false
    }

    /// Settles the current read: moves to the next directory or theme, and says
    /// what to read.
    fn advance(&mut self) -> (action: SearchAction)
        requires
            old(self).wf(),
        ensures
            final(self).wf(),
            final(self)@.icon_name == old(self)@.icon_name,
            (final(self)@.checked, final(self)@.frames, final(self)@.stage, action@) == advance(
                old(self)@.checked,
                old(self)@.frames,
            ),
    {
        proof {
            lemma_advance_wf(self@.checked, self@.frames);
        }
        let ghost goal = advance(old(self)@.checked, old(self)@.frames);
        loop
            invariant
                goal == advance(old(self)@.checked, old(self)@.frames),
                self.wf(),
                self@.icon_name == old(self)@.icon_name,
                advance(self@.checked, self@.frames) == goal,
            decreases remaining(self@.frames),
        {
            let ghost frames0 = self@.frames;
            let ghost last = frames0.len() - 1;
            proof {
                if frames0.len() > 0 {
                    assert(frame_wf(frames0[last]));
                    assert(frames0.update(last, next_inherit_done(frames0.last())).drop_last() =~= frames0.drop_last());
                }
            }
            match self.frames.pop() {
                None => {
                    self.stage = SearchStage::Pixmaps;
                    assert(self@.frames =~= frames0);
                    return SearchAction::ScanDir("/usr/share/pixmaps/".to_owned());
                },
                Some(mut frame) => {
                    assert(frame@ == frames0.last());
                    assert(self@.frames =~= frames0.drop_last());
                    if frame.next_dir < frame.dirs.len() {
                        let path = frame.dirs[frame.next_dir].clone();
                        assert(path@ == frame@.dirs[frame@.next_dir]);
                        frame.next_dir = frame.next_dir + 1;
                        self.frames.push(frame);
                        self.stage = SearchStage::ThemeDir;
                        assert(self@.frames =~= frames0.update(last, next_dir_done(frames0.last())));
                        return SearchAction::ScanDir(path);
                    } else if frame.next_inherit < frame.inherits.len() {
                        let name = frame.inherits[frame.next_inherit].clone();
                        assert(name@ == frame@.inherits[frame@.next_inherit]);
                        frame.next_inherit = frame.next_inherit + 1;
                        self.frames.push(frame);
                        assert(self@.frames =~= frames0.update(last, next_inherit_done(frames0.last())));
                        if !self.is_checked(&name) {
                            let path = theme_path_of(name.as_str());
                            let index = concatenate(path.as_str(), "index.theme");
                            let ghost checked0 = self@.checked;
                            let ghost name_view = name@;
                            self.checked.push(name);
                            self.stage = SearchStage::Theme;
                            assert(self@.checked =~= checked0.push(name_view));
                            return SearchAction::LoadTheme { theme_path: path, index_path: index };
                        }
                    }
                },
            }
        }
    }
}

} // verus!
