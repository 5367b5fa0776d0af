//! The decisions of the launcher window.
//!
//! The window sends each user event to [`Launcher::step`], which answers with
//! what the window does: fill or hide the result list, launch a command, or
//! close.
use vstd::prelude::*;

use crate::applications::AppView;
use crate::engine::{
    result_of, result_views, search_results, ApplicationSearcher, ResultView, SearchEngine, SearchResult,
};

verus! {

/// Something that happened in the window.
#[derive(Debug)]
pub enum LauncherEvent {
    /// The search text is now this.
    TextChanged(String),
    /// The row with this index was selected.
    SelectionChanged(usize),
    /// A row was activated (clicked).
    RowActivated,
    /// Enter was pressed in the search entry.
    EntryActivated,
    /// A key was released; `escape` tells whether it was Escape.
    KeyReleased { escape: bool },
    /// The window lost the focus.
    FocusLost,
    /// The window was closed.
    WindowClosed,
}

/// The mathematical value of a [`LauncherEvent`].
pub enum EventView {
    TextChanged(Seq<char>),
    SelectionChanged(int),
    RowActivated,
    EntryActivated,
    KeyReleased { escape: bool },
    FocusLost,
    WindowClosed,
}

impl View for LauncherEvent {
    type V = EventView;

    open spec fn view(&self) -> EventView {
        match self {
            LauncherEvent::TextChanged(t) => EventView::TextChanged(t@),
            LauncherEvent::SelectionChanged(i) => EventView::SelectionChanged(*i as int),
            LauncherEvent::RowActivated => EventView::RowActivated,
            LauncherEvent::EntryActivated => EventView::EntryActivated,
            LauncherEvent::KeyReleased { escape } => EventView::KeyReleased { escape: *escape },
            LauncherEvent::FocusLost => EventView::FocusLost,
            LauncherEvent::WindowClosed => EventView::WindowClosed,
        }
    }
}

/// What the window does in answer.
#[derive(Debug)]
pub enum LauncherAction {
    /// Empty the result list and hide it.
    HideList,
    /// Empty the result list.
    ClearList,
    /// Empty the result list, show it and fill it with these rows; where there
    /// are rows, select the first and grow the window.
    ShowResults(Vec<SearchResult>),
    /// Run this command and close.
    Launch(String),
    /// Close.
    Quit,
    /// Nothing.
    Nothing,
}

/// The mathematical value of a [`LauncherAction`].
pub enum ActionView {
    HideList,
    ClearList,
    ShowResults(Seq<ResultView>),
    Launch(Seq<char>),
    Quit,
    Nothing,
}

impl View for LauncherAction {
    type V = ActionView;

    open spec fn view(&self) -> ActionView {
        match self {
            LauncherAction::HideList => ActionView::HideList,
            LauncherAction::ClearList => ActionView::ClearList,
            LauncherAction::ShowResults(rs) => ActionView::ShowResults(result_views(rs@)),
            LauncherAction::Launch(c) => ActionView::Launch(c@),
            LauncherAction::Quit => ActionView::Quit,
            LauncherAction::Nothing => ActionView::Nothing,
        }
    }
}

/// The state of the launcher window.
pub struct Launcher {
    engine: ApplicationSearcher,
    results: Vec<SearchResult>,
    selected: Option<SearchResult>,
    list_visible: bool,
}

/// The mathematical value of a [`Launcher`]: the installed applications, the
/// rows of the last search that found any, the selected result, and whether the
/// result list is shown.
pub struct LauncherView {
    pub apps: Seq<AppView>,
    pub results: Seq<ResultView>,
    pub selected: Option<ResultView>,
    pub list_visible: bool,
}

/// The view of an optional result.
pub open spec fn opt_result_view(r: Option<SearchResult>) -> Option<ResultView> {
    match r {
        Some(x) => Some(x@),
        None => None,
    }
}

impl View for Launcher {
    type V = LauncherView;

    closed spec fn view(&self) -> LauncherView {
        LauncherView {
            apps: self.engine@,
            results: result_views(self.results@),
            selected: opt_result_view(self.selected),
            list_visible: self.list_visible,
        }
    }
}

/// The event can happen in this state: a selected row exists.
pub open spec fn event_possible(s: LauncherView, e: EventView) -> bool {
    match e {
        EventView::SelectionChanged(i) => 0 <= i < s.results.len(),
        _ => true,
    }
}

/// The launcher after `e`, and what the window does.
///
/// An empty search text hides the list where it was shown. Another text shows
/// the list with the search's results; where there are results they become the
/// rows, while a search without results leaves the earlier rows and selection in
/// place. Selecting a row selects its result. Activating a row or pressing Enter
/// launches the selected result's command, if one is selected. Escape, losing
/// the focus and closing the window close the launcher.
pub open spec fn launcher_step(s: LauncherView, e: EventView) -> (LauncherView, ActionView) {
    match e {
        EventView::TextChanged(text) => if text.len() == 0 {
            if s.list_visible {
                (LauncherView { list_visible: false, ..s }, ActionView::HideList)
            } else {
                (s, ActionView::ClearList)
            }
        } else {
            let found = search_results(s.apps, text);
            if found.len() > 0 {
                (
                    LauncherView { results: found, list_visible: true, ..s },
                    ActionView::ShowResults(found),
                )
            } else {
                (LauncherView { list_visible: true, ..s }, ActionView::ShowResults(found))
            }
        },
        EventView::SelectionChanged(i) => (
            LauncherView { selected: Some(s.results[i]), ..s },
            ActionView::Nothing,
        ),
        EventView::RowActivated | EventView::EntryActivated => match s.selected {
            Some(r) => (s, ActionView::Launch(r.exec_command)),
            None => (s, ActionView::Nothing),
        },
        EventView::KeyReleased { escape } => if escape {
            (s, ActionView::Quit)
        } else {
            (s, ActionView::Nothing)
        },
        EventView::FocusLost | EventView::WindowClosed => (s, ActionView::Quit),
    }
}

/// The result is what some installed application gives.
pub open spec fn from_installed(r: ResultView, apps: Seq<AppView>) -> bool {
    exists|i: int| 0 <= i < apps.len() && r == result_of(apps[i])
}

/// Every row and the selected result come from installed applications.
pub open spec fn rows_from_installed(s: LauncherView) -> bool {
    &&& forall|i: int| 0 <= i < s.results.len() ==> from_installed(#[trigger] s.results[i], s.apps)
    &&& s.selected matches Some(r) ==> from_installed(r, s.apps)
}

/// Every result of a search is what some searched application gives.
pub proof fn lemma_results_from_apps(apps: Seq<AppView>, query: Seq<char>)
    ensures
        forall|i: int| 0 <= i < search_results(apps, query).len() ==> from_installed(
            #[trigger] search_results(apps, query)[i],
            apps,
        ),
    decreases apps.len(),
{
    if apps.len() > 0 {
        let rest = apps.drop_last();
        lemma_results_from_apps(rest, query);
        let rs = search_results(apps, query);
        let prev = search_results(rest, query);
        assert forall|i: int| 0 <= i < rs.len() implies from_installed(#[trigger] rs[i], apps) by {
            if i < prev.len() {
                assert(rs[i] == prev[i]);
                assert(from_installed(prev[i], rest));
                let k = choose|k: int| 0 <= k < rest.len() && prev[i] == result_of(rest[k]);
                assert(apps[k] == rest[k]);
            } else {
                assert(rs[i] == result_of(apps[apps.len() - 1]));
            }
        }
    }
}

/// The launcher only ever shows, selects and launches what installed
/// applications give: every step keeps the rows and the selection drawn from the
/// applications, and a launched command is the command of one of them.
pub proof fn lemma_launches_installed(s: LauncherView, e: EventView)
    requires
        rows_from_installed(s),
        event_possible(s, e),
    ensures
        rows_from_installed(launcher_step(s, e).0),
        launcher_step(s, e).0.apps == s.apps,
        launcher_step(s, e).1 matches ActionView::Launch(cmd) ==> exists|i: int|
            0 <= i < s.apps.len() && cmd == s.apps[i].exec_command,
{
    match e {
        EventView::TextChanged(text) => {
            lemma_results_from_apps(s.apps, text);
        },
        EventView::SelectionChanged(i) => {
            assert(from_installed(s.results[i], s.apps));
        },
        EventView::RowActivated | EventView::EntryActivated => {
            if let Some(r) = s.selected {
                let k = choose|k: int| 0 <= k < s.apps.len() && r == result_of(s.apps[k]);
                assert(r.exec_command == s.apps[k].exec_command);
            }
        },
        _ => {},
    }
}

/// Selecting row `i` selects the result shown in that row, and changes nothing
/// else; pressing Enter or activating a row afterwards launches that result's
/// command.
pub proof fn lemma_selection_launches(s: LauncherView, i: int)
    requires
        0 <= i < s.results.len(),
    ensures
        ({
            let s2 = launcher_step(s, EventView::SelectionChanged(i)).0;
            &&& s2.selected == Some(s.results[i])
            &&& s2.results == s.results
            &&& s2.apps == s.apps
            &&& s2.list_visible == s.list_visible
            &&& launcher_step(s, EventView::SelectionChanged(i)).1 == ActionView::Nothing
            &&& launcher_step(s2, EventView::EntryActivated).1 == ActionView::Launch(s.results[i].exec_command)
            &&& launcher_step(s2, EventView::RowActivated).1 == ActionView::Launch(s.results[i].exec_command)
        }),
{
}

/// A copy of a list of results.
fn duplicate_results(rs: &Vec<SearchResult>) -> (r: Vec<SearchResult>)
    ensures
        result_views(r@) == result_views(rs@),
{
    let mut out: Vec<SearchResult> = Vec::new();
    let mut i: usize = 0;
    while i < rs.len()
        invariant
            i <= rs.len(),
            result_views(out@) == result_views(rs@).take(i as int),
        decreases rs.len() - i,
    {
        let ghost before = result_views(out@);
        out.push(rs[i].duplicate());
        assert(result_views(out@) =~= before.push(rs@[i as int]@));
        assert(result_views(rs@).take(i + 1) =~= result_views(rs@).take(i as int).push(rs@[i as int]@));
        i = i + 1;
    }
    assert(result_views(rs@).take(rs.len() as int) =~= result_views(rs@));
    out
}

impl Launcher {
    /// A launcher over the applications of `engine`, with no rows, nothing
    /// selected and the list hidden.
    pub fn new(engine: ApplicationSearcher) -> (r: Launcher)
        ensures
            r@ == (LauncherView {
                apps: engine@,
                results: Seq::<ResultView>::empty(),
                selected: None,
                list_visible: false,
            }),
    {
        let r = Launcher { engine, results: Vec::new(), selected: None, list_visible: false };
        assert(result_views(r.results@) =~= Seq::<ResultView>::empty());
        r
    }

    /// Handles one event of the window.
    pub fn step(&mut self, event: LauncherEvent) -> (action: LauncherAction)
        requires
            event_possible(old(self)@, event@),
        ensures
            (final(self)@, action@) == launcher_step(old(self)@, event@),
    {
        match event {
            LauncherEvent::TextChanged(text) => {
                if text.as_str().is_empty() {
                    if self.list_visible {
                        self.list_visible = false;
                        LauncherAction::HideList
                    } else {
                        LauncherAction::ClearList
                    }
                } else {
                    self.list_visible = true;
                    let found = self.engine.search(text.as_str());
                    if found.len() > 0 {
                        let rows = duplicate_results(&found);
                        self.results = found;
                        LauncherAction::ShowResults(rows)
                    } else {
                        LauncherAction::ShowResults(found)
                    }
                }
            },
            LauncherEvent::SelectionChanged(i) => {
                let r = self.results[i].duplicate();
                self.selected = Some(r);
                LauncherAction::Nothing
            },
            LauncherEvent::RowActivated | LauncherEvent::EntryActivated => {
                match &self.selected {
                    Some(r) => LauncherAction::Launch(r.exec_command.clone()),
                    None => LauncherAction::Nothing,
                }
            },
            LauncherEvent::KeyReleased { escape } => {
                if escape {
                    LauncherAction::Quit
                } else {
                    LauncherAction::Nothing
                }
            },
            LauncherEvent::FocusLost | LauncherEvent::WindowClosed => LauncherAction::Quit,
        }
    }
}

} // verus!
