//! The order of an icon search, as a recursion.
//!
//! The icon lookup of the launcher is a recursion over themes: search a theme's
//! directories, then each theme it inherits from in turn, with one set of
//! entered themes shared by the whole search, and fall back to the pixmaps
//! directory. [`lookup_answer`] states that recursion over an [`IconWorld`] (what
//! reading each index file and each directory gives). The laws below show that
//! [`IconSearch::step`](crate::icon_search::IconSearch::step), driven by the
//! reads of such a world, ends with the answer of the recursion.
use vstd::prelude::*;

use crate::icon_search::{
    advance, frame_for, frame_remaining, frame_wf, frames_wf, index_path, next_dir_done, next_inherit_done,
    pixmaps_dir, remaining, step_spec, theme_path, ActionView, EventView, FrameView, SearchStage, SearchView,
};
use crate::icons::{matching_entry, EntryView, ThemeView};

verus! {

/// What reading gives: the theme read from each index file (none where it is
/// not an INI document or cannot be read), and the entries of each directory.
pub struct IconWorld {
    pub themes: spec_fn(Seq<char>) -> Option<ThemeView>,
    pub listings: spec_fn(Seq<char>) -> Seq<EntryView>,
}

/// The icon's path in the first of these directories that holds it.
pub open spec fn dir_search(w: IconWorld, icon: Seq<char>, dirs: Seq<Seq<char>>) -> Option<Seq<char>>
    decreases dirs.len(),
{
    if dirs.len() == 0 {
        None
    } else {
        match matching_entry((w.listings)(dirs[0]), icon) {
            Some(p) => Some(p),
            None => dir_search(w, icon, dirs.drop_first()),
        }
    }
}

/// The search of the theme named `name` with the entered themes `checked`: a
/// theme entered already gives nothing; else it is entered, its directories are
/// searched from the largest icons to the smallest, then the themes it inherits
/// from. The result is the answer, the entered themes after the search, and
/// the fuel left; nothing where the fuel (one unit per theme entered) runs out.
pub open spec fn theme_search(
    w: IconWorld,
    icon: Seq<char>,
    name: Seq<char>,
    checked: Seq<Seq<char>>,
    fuel: nat,
) -> Option<(Option<Seq<char>>, Seq<Seq<char>>, nat)>
    decreases fuel, 0nat,
{
    if checked.contains(name) {
        Some((None, checked, fuel))
    } else if fuel == 0 {
        None
    } else {
        let entered = checked.push(name);
        match (w.themes)(index_path(name)) {
            None => Some((None, entered, (fuel - 1) as nat)),
            Some(t) => match dir_search(w, icon, frame_for(t).dirs) {
                Some(p) => Some((Some(p), entered, (fuel - 1) as nat)),
                None => list_search(w, icon, t.inherits, entered, (fuel - 1) as nat),
            },
        }
    }
}

/// The search of each of the named themes in turn, until one gives an answer.
pub open spec fn list_search(
    w: IconWorld,
    icon: Seq<char>,
    names: Seq<Seq<char>>,
    checked: Seq<Seq<char>>,
    fuel: nat,
) -> Option<(Option<Seq<char>>, Seq<Seq<char>>, nat)>
    decreases fuel, names.len() + 1,
{
    if names.len() == 0 {
        Some((None, checked, fuel))
    } else {
        match theme_search(w, icon, names[0], checked, fuel) {
            None => None,
            Some((Some(p), c, f)) => Some((Some(p), c, f)),
            Some((None, c, f)) => list_search(
                w,
                icon,
                names.drop_first(),
                c,
                if f <= fuel {
                    f
                } else {
                    fuel
                },
            ),
        }
    }
}

/// The answer of looking up `icon` in the theme named `theme`: what the
/// recursion finds, else the icon's file in the pixmaps directory; nothing where
/// the fuel runs out.
pub open spec fn lookup_answer(w: IconWorld, theme: Seq<char>, icon: Seq<char>, fuel: nat) -> Option<
    Option<Seq<char>>,
> {
    match theme_search(w, icon, theme, seq![], fuel) {
        None => None,
        Some((Some(p), _, _)) => Some(Some(p)),
        Some((None, _, _)) => Some(matching_entry((w.listings)(pixmaps_dir()), icon)),
    }
}

/// The answer that a search about to move on from these frames gives.
pub open spec fn cont(
    w: IconWorld,
    icon: Seq<char>,
    checked: Seq<Seq<char>>,
    frames: Seq<FrameView>,
    fuel: nat,
) -> Option<Option<Seq<char>>>
    decreases fuel, remaining(frames),
{
    if frames.len() == 0 {
        Some(matching_entry((w.listings)(pixmaps_dir()), icon))
    } else {
        let f = frames.last();
        let last = frames.len() - 1;
        proof {
            assert(frames.update(last, next_inherit_done(f)).drop_last() =~= frames.drop_last());
            assert(frames.update(last, next_dir_done(f)).drop_last() =~= frames.drop_last());
        }
        if 0 <= f.next_dir < f.dirs.len() {
            match matching_entry((w.listings)(f.dirs[f.next_dir]), icon) {
                Some(p) => Some(Some(p)),
                None => cont(w, icon, checked, frames.update(last, next_dir_done(f)), fuel),
            }
        } else if 0 <= f.next_inherit < f.inherits.len() {
            let name = f.inherits[f.next_inherit];
            let rest = frames.update(last, next_inherit_done(f));
            if checked.contains(name) {
                cont(w, icon, checked, rest, fuel)
            } else if fuel == 0 {
                None
            } else {
                match (w.themes)(index_path(name)) {
                    None => cont(w, icon, checked.push(name), rest, (fuel - 1) as nat),
                    Some(t) => cont(w, icon, checked.push(name), rest.push(frame_for(t)), (fuel - 1) as nat),
                }
            }
        } else {
            cont(w, icon, checked, frames.drop_last(), fuel)
        }
    }
}

/// Searching a theme never gains fuel.
pub proof fn lemma_theme_fuel(w: IconWorld, icon: Seq<char>, name: Seq<char>, checked: Seq<Seq<char>>, fuel: nat)
    ensures
        theme_search(w, icon, name, checked, fuel) matches Some((_, _, f)) ==> f <= fuel,
    decreases fuel, 0nat,
{
    if !checked.contains(name) && fuel > 0 {
        if let Some(t) = (w.themes)(index_path(name)) {
            lemma_list_fuel(w, icon, t.inherits, checked.push(name), (fuel - 1) as nat);
        }
    }
}

/// Searching a list of themes never gains fuel.
pub proof fn lemma_list_fuel(w: IconWorld, icon: Seq<char>, names: Seq<Seq<char>>, checked: Seq<Seq<char>>, fuel: nat)
    ensures
        list_search(w, icon, names, checked, fuel) matches Some((_, _, f)) ==> f <= fuel,
    decreases fuel, names.len() + 1,
{
    if names.len() > 0 {
        lemma_theme_fuel(w, icon, names[0], checked, fuel);
        if let Some((None, c, f)) = theme_search(w, icon, names[0], checked, fuel) {
            lemma_list_fuel(w, icon, names.drop_first(), c, f);
        }
    }
}

/// The answer of a search with the frame `top` innermost: the first directory
/// of `top` still to search that holds the icon; else the search of the themes
/// `top` still inherits from; else what the frames below give.
pub open spec fn compose(
    w: IconWorld,
    icon: Seq<char>,
    checked: Seq<Seq<char>>,
    below: Seq<FrameView>,
    top: FrameView,
    fuel: nat,
) -> Option<Option<Seq<char>>> {
    match dir_search(w, icon, top.dirs.skip(top.next_dir)) {
        Some(p) => Some(Some(p)),
        None => match list_search(w, icon, top.inherits.skip(top.next_inherit), checked, fuel) {
            None => None,
            Some((Some(p), _, _)) => Some(Some(p)),
            Some((None, c, f)) => cont(w, icon, c, below, f),
        },
    }
}

/// The frames of a search behave as the recursion: the innermost frame is
/// searched as [`compose`] says, and then the frames below it.
pub proof fn lemma_compose(
    w: IconWorld,
    icon: Seq<char>,
    checked: Seq<Seq<char>>,
    below: Seq<FrameView>,
    top: FrameView,
    fuel: nat,
)
    requires
        frame_wf(top),
    ensures
        cont(w, icon, checked, below.push(top), fuel) == compose(w, icon, checked, below, top, fuel),
    decreases fuel, frame_remaining(top),
{
    let frames = below.push(top);
    let last = frames.len() - 1;
    assert(frames.last() == top);
    assert(frames.drop_last() =~= below);
    let dirs_left = top.dirs.skip(top.next_dir);
    let names_left = top.inherits.skip(top.next_inherit);
    if top.next_dir < top.dirs.len() {
        let next = next_dir_done(top);
        assert(frames.update(last, next) =~= below.push(next));
        assert(dirs_left[0] == top.dirs[top.next_dir]);
        assert(dirs_left.drop_first() =~= next.dirs.skip(next.next_dir));
        lemma_compose(w, icon, checked, below, next, fuel);
        assert(cont(w, icon, checked, frames, fuel) == compose(w, icon, checked, below, top, fuel));
    } else {
        assert(dirs_left =~= Seq::<Seq<char>>::empty());
        if top.next_inherit < top.inherits.len() {
            let name = top.inherits[top.next_inherit];
            let next = next_inherit_done(top);
            assert(frames.update(last, next) =~= below.push(next));
            assert(names_left[0] == name);
            assert(names_left.drop_first() =~= next.inherits.skip(next.next_inherit));
            assert(next.dirs.skip(next.next_dir) =~= Seq::<Seq<char>>::empty());
            if checked.contains(name) {
                lemma_compose(w, icon, checked, below, next, fuel);
                assert(theme_search(w, icon, name, checked, fuel) == Some((None::<Seq<char>>, checked, fuel)));
                assert(list_search(w, icon, names_left, checked, fuel) == list_search(w, icon, next.inherits.skip(next.next_inherit), checked, fuel));
                assert(dir_search(w, icon, next.dirs.skip(next.next_dir)) is None);
                assert(compose(w, icon, checked, below, next, fuel) == compose(w, icon, checked, below, top, fuel));
                assert(cont(w, icon, checked, frames, fuel) == cont(w, icon, checked, below.push(next), fuel));
                assert(cont(w, icon, checked, frames, fuel) == compose(w, icon, checked, below, top, fuel));
            } else if fuel == 0 {
                assert(cont(w, icon, checked, frames, fuel) == compose(w, icon, checked, below, top, fuel));
            } else {
                let entered = checked.push(name);
                let f1 = (fuel - 1) as nat;
                match (w.themes)(index_path(name)) {
                    None => {
                        lemma_compose(w, icon, entered, below, next, f1);
                        assert(cont(w, icon, checked, frames, fuel) == compose(w, icon, checked, below, top, fuel));
                    },
                    Some(t) => {
                        let inner = frame_for(t);
                        assert(inner.dirs.skip(0) =~= inner.dirs);
                        assert(inner.inherits.skip(0) =~= inner.inherits);
                        lemma_compose(w, icon, entered, below.push(next), inner, f1);
                        lemma_list_fuel(w, icon, t.inherits, entered, f1);
                        if dir_search(w, icon, inner.dirs) is None {
                            if let Some((None, c2, f2)) = list_search(w, icon, t.inherits, entered, f1) {
                                lemma_compose(w, icon, c2, below, next, f2);
                            }
                        }
                        assert(cont(w, icon, checked, frames, fuel) == compose(w, icon, checked, below, top, fuel));
                    },
                }
            }
        } else {
            assert(names_left =~= Seq::<Seq<char>>::empty());
            assert(cont(w, icon, checked, frames, fuel) == compose(w, icon, checked, below, top, fuel));
        }
    }
}

/// The path of the directory that a search waiting for a listing asked for.
pub open spec fn pending_dir(s: SearchView) -> Seq<char> {
    if s.stage == SearchStage::Pixmaps {
        pixmaps_dir()
    } else {
        s.frames.last().dirs[s.frames.last().next_dir - 1]
    }
}

/// What the search asked for last, given what it waits for.
pub open spec fn pending_read(s: SearchView) -> ActionView {
    if s.stage == SearchStage::Theme {
        ActionView::LoadTheme {
            theme_path: theme_path(s.checked.last()),
            index_path: index_path(s.checked.last()),
        }
    } else {
        ActionView::ScanDir(pending_dir(s))
    }
}

/// A search between two reads: its frames are sound, and what it waits for
/// names a read: the last theme it entered, or a directory of its innermost
/// theme that it has passed.
pub open spec fn waiting(s: SearchView) -> bool {
    &&& frames_wf(s.frames)
    &&& s.stage != SearchStage::Done
    &&& s.stage == SearchStage::Theme ==> s.checked.len() > 0
    &&& s.stage == SearchStage::ThemeDir ==> s.frames.len() > 0 && 1 <= s.frames.last().next_dir
        <= s.frames.last().dirs.len()
}

/// What the world gives for the read the search waits for.
pub open spec fn world_event(w: IconWorld, s: SearchView) -> EventView {
    if s.stage == SearchStage::Theme {
        EventView::ThemeLoaded((w.themes)(index_path(s.checked.last())))
    } else {
        EventView::DirScanned((w.listings)(pending_dir(s)))
    }
}

/// The answer a waiting search gives once the world answers its reads.
pub open spec fn expected(w: IconWorld, s: SearchView, fuel: nat) -> Option<Option<Seq<char>>> {
    if s.stage == SearchStage::Theme {
        match (w.themes)(index_path(s.checked.last())) {
            None => cont(w, s.icon_name, s.checked, s.frames, fuel),
            Some(t) => cont(w, s.icon_name, s.checked, s.frames.push(frame_for(t)), fuel),
        }
    } else if s.stage == SearchStage::Pixmaps {
        Some(matching_entry((w.listings)(pixmaps_dir()), s.icon_name))
    } else {
        match matching_entry((w.listings)(pending_dir(s)), s.icon_name) {
            Some(p) => Some(Some(p)),
            None => cont(w, s.icon_name, s.checked, s.frames, fuel),
        }
    }
}

/// Moving on from frames leaves a waiting search whose answer is that of the
/// frames (entering a theme uses a unit of fuel) and whose last action is the
/// read it waits for.
proof fn lemma_advance_cont(w: IconWorld, icon: Seq<char>, checked: Seq<Seq<char>>, frames: Seq<FrameView>, fuel: nat)
    requires
        frames_wf(frames),
    ensures
        ({
            let (c2, f2, stage, action) = advance(checked, frames);
            let s2 = SearchView { icon_name: icon, checked: c2, frames: f2, stage };
            &&& waiting(s2)
            &&& action == pending_read(s2)
            &&& cont(w, icon, checked, frames, fuel) == if stage == SearchStage::Theme {
                if fuel == 0 {
                    None
                } else {
                    expected(w, s2, (fuel - 1) as nat)
                }
            } else {
                expected(w, s2, fuel)
            }
        }),
    decreases remaining(frames),
{
    crate::icon_search::lemma_advance_wf(checked, frames);
    if frames.len() > 0 {
        let f = frames.last();
        let last = frames.len() - 1;
        assert(frames.update(last, next_inherit_done(f)).drop_last() =~= frames.drop_last());
        assert(frame_wf(frames[last]));
        if 0 <= f.next_dir < f.dirs.len() {
            let f2 = frames.update(last, next_dir_done(f));
            assert(f2.last() == next_dir_done(f));
        } else if 0 <= f.next_inherit < f.inherits.len() {
            let rest = frames.update(last, next_inherit_done(f));
            assert(frames_wf(rest));
            if checked.contains(f.inherits[f.next_inherit]) {
                lemma_advance_cont(w, icon, checked, rest, fuel);
            }
        } else {
            assert(frames_wf(frames.drop_last()));
            lemma_advance_cont(w, icon, checked, frames.drop_last(), fuel);
        }
    }
}

/// One step of a search driven by the world keeps its answer: a step that ends
/// the search ends it with that answer, and any other step leaves a waiting
/// search with the same answer (for no more fuel), whose action is the read it
/// waits for.
pub proof fn lemma_step_keeps_answer(w: IconWorld, s: SearchView, fuel: nat, answer: Option<Seq<char>>)
    requires
        waiting(s),
        expected(w, s, fuel) == Some(answer),
    ensures
        ({
            let (s2, action) = step_spec(s, world_event(w, s));
            match action {
                ActionView::Finish(r) => r == answer && s2.stage == SearchStage::Done,
                _ => {
                    &&& waiting(s2)
                    &&& action == pending_read(s2)
                    &&& s2.icon_name == s.icon_name
                    &&& exists|f2: nat| f2 <= fuel && expected(w, s2, f2) == Some(answer)
                },
            }
        }),
{
    let e = world_event(w, s);
    let (s2, action) = step_spec(s, e);
    if s.stage == SearchStage::Theme {
        let frames = match (w.themes)(index_path(s.checked.last())) {
            None => s.frames,
            Some(t) => s.frames.push(frame_for(t)),
        };
        assert(frames_wf(frames)) by {
            if let Some(t) = (w.themes)(index_path(s.checked.last())) {
                assert forall|i: int| 0 <= i < frames.len() implies frame_wf(#[trigger] frames[i]) by {
                    if i < s.frames.len() {
                        assert(frames[i] == s.frames[i]);
                    }
                }
            }
        }
        lemma_advance_cont(w, s.icon_name, s.checked, frames, fuel);
        if s2.stage == SearchStage::Theme {
            assert(expected(w, s2, (fuel - 1) as nat) == Some(answer));
        } else {
            assert(expected(w, s2, fuel) == Some(answer));
        }
    } else if s.stage == SearchStage::Pixmaps {
    } else {
        if matching_entry((w.listings)(pending_dir(s)), s.icon_name) is None {
            lemma_advance_cont(w, s.icon_name, s.checked, s.frames, fuel);
            if s2.stage == SearchStage::Theme {
                assert(expected(w, s2, (fuel - 1) as nat) == Some(answer));
            } else {
                assert(expected(w, s2, fuel) == Some(answer));
            }
        }
    }
}

/// The search that starts in the theme named `theme` waits for that theme's
/// index, and its answer is that of the recursion.
pub proof fn lemma_start_answer(w: IconWorld, theme: Seq<char>, icon: Seq<char>, fuel: nat)
    ensures
        ({
            let s = SearchView {
                icon_name: icon,
                checked: seq![theme],
                frames: Seq::<FrameView>::empty(),
                stage: SearchStage::Theme,
            };
            &&& waiting(s)
            &&& expected(w, s, fuel) == lookup_answer(w, theme, icon, fuel + 1)
        }),
{
    let s = SearchView {
        icon_name: icon,
        checked: seq![theme],
        frames: Seq::<FrameView>::empty(),
        stage: SearchStage::Theme,
    };
    let empty_checked = Seq::<Seq<char>>::empty();
    assert(!empty_checked.contains(theme));
    assert(empty_checked.push(theme) =~= seq![theme]);
    assert(s.checked.last() == theme);
    if let Some(t) = (w.themes)(index_path(theme)) {
        let inner = frame_for(t);
        assert(inner.dirs.skip(0) =~= inner.dirs);
        assert(inner.inherits.skip(0) =~= inner.inherits);
        assert(Seq::<FrameView>::empty().push(inner) =~= seq![inner]);
        lemma_compose(w, icon, seq![theme], Seq::<FrameView>::empty(), inner, fuel);
    }
}

/// Every theme that the frames name as inherited is one of `names`.
pub open spec fn inherits_within(frames: Seq<FrameView>, names: Set<Seq<char>>) -> bool {
    forall|i: int, j: int|
        0 <= i < frames.len() && 0 <= j < frames[i].inherits.len() ==> names.contains(
            #[trigger] frames[i].inherits[j],
        )
}

/// Every theme that an index file of the world names as inherited is one of
/// `names`.
pub open spec fn world_inherits_within(w: IconWorld, names: Set<Seq<char>>) -> bool {
    forall|p: Seq<char>, j: int|
        (w.themes)(p) is Some && 0 <= j < (w.themes)(p).unwrap().inherits.len() ==> names.contains(
            #[trigger] (w.themes)(p).unwrap().inherits[j],
        )
}

/// What a search waits for, ranked: a theme's index, then a theme directory,
/// then the pixmaps directory.
pub open spec fn stage_rank(stage: SearchStage) -> nat {
    match stage {
        SearchStage::Theme => 2,
        SearchStage::ThemeDir => 1,
        _ => 0,
    }
}

/// The answer of a search that the world answers for at most `n` reads; nothing
/// where it has not ended by then.
pub open spec fn run(w: IconWorld, s: SearchView, n: nat) -> Option<Option<Seq<char>>>
    decreases n,
{
    if n == 0 {
        None
    } else {
        let (s2, action) = step_spec(s, world_event(w, s));
        match action {
            ActionView::Finish(r) => Some(r),
            _ => run(w, s2, (n - 1) as nat),
        }
    }
}

/// Entering a theme of `names` not entered before leaves fewer of `names` to
/// enter.
proof fn lemma_enter_fewer_left(names: Set<Seq<char>>, checked: Seq<Seq<char>>, name: Seq<char>)
    requires
        names.finite(),
        names.contains(name),
        !checked.contains(name),
    ensures
        names.difference(checked.push(name).to_set()).len() < names.difference(checked.to_set()).len(),
{
    checked.lemma_push_to_set_commute(name);
    let left = names.difference(checked.to_set());
    vstd::set::axiom_set_difference_finite(names, checked.to_set());
    assert(names.difference(checked.push(name).to_set()) =~= left.remove(name));
    vstd::set::axiom_set_remove_len(left, name);
}

/// One read of a search driven by the world either ends it, or leaves a waiting
/// search within the same names that is further on: it entered one more of the
/// names, or entered none and waits for a read of lower rank, or waits for a
/// read of the same rank with fewer steps left in its themes.
pub proof fn lemma_step_progress(w: IconWorld, names: Set<Seq<char>>, s: SearchView)
    requires
        names.finite(),
        world_inherits_within(w, names),
        inherits_within(s.frames, names),
        waiting(s),
    ensures
        ({
            let (s2, action) = step_spec(s, world_event(w, s));
            !(action is Finish) ==> {
                &&& waiting(s2)
                &&& inherits_within(s2.frames, names)
                &&& s2.icon_name == s.icon_name
                &&& {
                    ||| names.difference(s2.checked.to_set()).len() < names.difference(s.checked.to_set()).len()
                    ||| (s2.checked == s.checked && stage_rank(s2.stage) < stage_rank(s.stage))
                    ||| (s2.checked == s.checked && s2.stage == s.stage && remaining(s2.frames) < remaining(
                        s.frames,
                    ))
                }
            }
        }),
{
    let (s2, action) = step_spec(s, world_event(w, s));
    let ends_here = s.stage == SearchStage::Pixmaps || (s.stage == SearchStage::ThemeDir && matching_entry(
        (w.listings)(pending_dir(s)),
        s.icon_name,
    ) is Some);
    if !ends_here {
        let frames = if s.stage == SearchStage::Theme {
            match (w.themes)(index_path(s.checked.last())) {
                None => s.frames,
                Some(t) => s.frames.push(frame_for(t)),
            }
        } else {
            s.frames
        };
        assert(frames_wf(frames) && inherits_within(frames, names)) by {
            if s.stage == SearchStage::Theme {
                if let Some(t) = (w.themes)(index_path(s.checked.last())) {
                    assert forall|i: int| 0 <= i < frames.len() implies frame_wf(#[trigger] frames[i]) by {
                        if i < s.frames.len() {
                            assert(frames[i] == s.frames[i]);
                        }
                    }
                    assert forall|i: int, j: int| 0 <= i < frames.len() && 0 <= j < frames[i].inherits.len() implies names.contains(
                        #[trigger] frames[i].inherits[j],
                    ) by {
                        if i < s.frames.len() {
                            assert(frames[i] == s.frames[i]);
                        } else {
                            assert(frames[i].inherits == t.inherits);
                            let p = index_path(s.checked.last());
                            assert(names.contains((w.themes)(p).unwrap().inherits[j]));
                        }
                    }
                }
            }
        }
        assert((s2.checked, s2.frames, s2.stage, action) == advance(s.checked, frames));
        lemma_advance_cont(w, s.icon_name, s.checked, frames, 0);
        crate::icon_search::lemma_advance_keeps_inherits(s.checked, frames);
        crate::icon_search::lemma_advance_enters_fresh(s.checked, frames);
        crate::icon_search::lemma_advance_enters_inherited(s.checked, frames);
        crate::icon_search::lemma_advance_remaining(s.checked, frames);
        assert(inherits_within(s2.frames, names)) by {
            assert forall|i: int, j: int| 0 <= i < s2.frames.len() && 0 <= j < s2.frames[i].inherits.len() implies names.contains(
                #[trigger] s2.frames[i].inherits[j],
            ) by {
                assert(s2.frames[i].inherits == frames[i].inherits);
            }
        }
        if action is LoadTheme {
            let name = choose|name: Seq<char>| !s.checked.contains(name) && s2.checked == s.checked.push(name)
                && action == (ActionView::LoadTheme { theme_path: theme_path(name), index_path: index_path(name) });
            assert(s2.checked.last() == name);
            let i = choose|i: int| 0 <= i < frames.len() && frames[i].inherits.contains(s2.checked.last());
            let j = choose|j: int| 0 <= j < frames[i].inherits.len() && frames[i].inherits[j] == name;
            assert(names.contains(frames[i].inherits[j]));
            lemma_enter_fewer_left(names, s.checked, name);
        }
    }
}

/// Every search ends: where the index files name finitely many themes as
/// inherited, a waiting search that the world answers gives its answer after
/// finitely many reads, inherited themes that name each other included.
pub proof fn lemma_search_ends(w: IconWorld, names: Set<Seq<char>>, s: SearchView)
    requires
        names.finite(),
        world_inherits_within(w, names),
        inherits_within(s.frames, names),
        waiting(s),
    ensures
        exists|n: nat| #[trigger] run(w, s, n) is Some,
    decreases names.difference(s.checked.to_set()).len(), stage_rank(s.stage), remaining(s.frames),
{
    let (s2, action) = step_spec(s, world_event(w, s));
    lemma_step_progress(w, names, s);
    if action is Finish {
        assert(run(w, s, 1) is Some);
    } else {
        lemma_search_ends(w, names, s2);
        let n = choose|n: nat| #[trigger] run(w, s2, n) is Some;
        assert(run(w, s, n + 1) == run(w, s2, n));
    }
}

/// A search that the world answers ends with the answer it is expected to give.
pub proof fn lemma_run_answer(w: IconWorld, s: SearchView, fuel: nat, answer: Option<Seq<char>>, n: nat)
    requires
        waiting(s),
        expected(w, s, fuel) == Some(answer),
    ensures
        run(w, s, n) matches Some(r) ==> r == answer,
    decreases n,
{
    if n > 0 {
        let (s2, action) = step_spec(s, world_event(w, s));
        lemma_step_keeps_answer(w, s, fuel, answer);
        if !(action is Finish) {
            let f2 = choose|f2: nat| f2 <= fuel && expected(w, s2, f2) == Some(answer);
            lemma_run_answer(w, s2, f2, answer, (n - 1) as nat);
        }
    }
}

/// The search for `icon` that starts in the theme named `theme` ends, where the
/// index files name finitely many themes as inherited, and it ends with the
/// answer of the recursion wherever the recursion gives one.
pub proof fn lemma_lookup_search_ends(w: IconWorld, names: Set<Seq<char>>, theme: Seq<char>, icon: Seq<char>)
    requires
        names.finite(),
        world_inherits_within(w, names),
    ensures
        ({
            let s = SearchView {
                icon_name: icon,
                checked: seq![theme],
                frames: Seq::<FrameView>::empty(),
                stage: SearchStage::Theme,
            };
            &&& exists|n: nat| #[trigger] run(w, s, n) is Some
            &&& forall|n: nat, fuel: nat| #![trigger run(w, s, n), lookup_answer(w, theme, icon, fuel)]
                run(w, s, n) is Some && lookup_answer(w, theme, icon, fuel) is Some && fuel > 0 ==> run(w, s, n)
                    == lookup_answer(w, theme, icon, fuel)
        }),
{
    let s = SearchView {
        icon_name: icon,
        checked: seq![theme],
        frames: Seq::<FrameView>::empty(),
        stage: SearchStage::Theme,
    };
    lemma_start_answer(w, theme, icon, 0);
    lemma_search_ends(w, names, s);
    assert forall|n: nat, fuel: nat| #![trigger run(w, s, n), lookup_answer(w, theme, icon, fuel)]
        run(w, s, n) is Some && lookup_answer(w, theme, icon, fuel) is Some && fuel > 0 implies run(w, s, n)
            == lookup_answer(w, theme, icon, fuel) by {
        let f = (fuel - 1) as nat;
        lemma_start_answer(w, theme, icon, f);
        lemma_run_answer(w, s, f, lookup_answer(w, theme, icon, fuel).unwrap(), n);
    }
}

} // verus!
