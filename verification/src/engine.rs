//! Searching the installed applications by name.
use vstd::prelude::*;

use crate::applications::{app_views, copy_opt, opt_view, AppView, Application};
use crate::strings::{ascii_lower, ascii_upper, chars_of, contains_chars, is_substring, lowercase, to_lowercase};
use vstd::utf8::is_ascii_chars;

verus! {

/// One application that a search found.
#[derive(Debug, Clone)]
pub struct SearchResult {
    pub name: String,
    pub exec_command: String,
    pub icon_path: Option<String>,
}

/// The mathematical value of a [`SearchResult`].
pub struct ResultView {
    pub name: Seq<char>,
    pub exec_command: Seq<char>,
    pub icon_path: Option<Seq<char>>,
}

impl View for SearchResult {
    type V = ResultView;

    open spec fn view(&self) -> ResultView {
        ResultView { name: self.name@, exec_command: self.exec_command@, icon_path: opt_view(self.icon_path) }
    }
}

/// The views of a sequence of search results.
pub open spec fn result_views(rs: Seq<SearchResult>) -> Seq<ResultView> {
    rs.map_values(|r: SearchResult| r@)
}

/// The result that an application gives when a search finds it.
pub open spec fn result_of(app: AppView) -> ResultView {
    ResultView { name: app.name, exec_command: app.exec_command, icon_path: app.icon_path }
}

/// An application is found by a lowercased query `needle` when its lowercased
/// name contains it.
pub open spec fn name_matches(name: Seq<char>, needle: Seq<char>) -> bool {
    is_substring(needle, lowercase(name))
}

/// The results of searching `apps` with the lowercased query `needle`: the
/// applications whose lowercased names contain it, in their order.
pub open spec fn needle_results(apps: Seq<AppView>, needle: Seq<char>) -> Seq<ResultView>
    decreases apps.len(),
{
    if apps.len() == 0 {
        seq![]
    } else {
        let rest = needle_results(apps.drop_last(), needle);
        if name_matches(apps.last().name, needle) {
            rest.push(result_of(apps.last()))
        } else {
            rest
        }
    }
}

/// The results of searching `apps` for `query`: the query is lowercased, then
/// the applications whose lowercased names contain it are found, in order.
pub open spec fn search_results(apps: Seq<AppView>, query: Seq<char>) -> Seq<ResultView> {
    needle_results(apps, lowercase(query))
}

/// Whether a result's lowercased name contains `needle`.
pub open spec fn result_matches(needle: Seq<char>) -> spec_fn(ResultView) -> bool {
    |r: ResultView| is_substring(needle, lowercase(r.name))
}

/// Every result of a search comes from an application whose name matches the
/// query, and every such application gives a result: searching is filtering the
/// applications by name, keeping their order.
pub proof fn lemma_search_is_filter(apps: Seq<AppView>, needle: Seq<char>)
    ensures
        needle_results(apps, needle) == apps.filter(|a: AppView| name_matches(a.name, needle)).map_values(
            |a: AppView| result_of(a),
        ),
    decreases apps.len(),
{
    let pred = |a: AppView| name_matches(a.name, needle);
    if apps.len() > 0 {
        lemma_search_is_filter(apps.drop_last(), needle);
        reveal_with_fuel(Seq::filter, 1);
        assert(apps.drop_last().push(apps.last()) =~= apps);
        apps.drop_last().lemma_filter_push(apps.last(), pred);
        if pred(apps.last()) {
            assert(apps.drop_last().filter(pred).push(apps.last()).map_values(|a: AppView| result_of(a))
                =~= apps.drop_last().filter(pred).map_values(|a: AppView| result_of(a)).push(
                result_of(apps.last()),
            ));
        }
    } else {
        assert(apps.filter(pred) =~= Seq::<AppView>::empty());
    }
}

/// A search never finds more results than there are applications.
pub proof fn lemma_search_len(apps: Seq<AppView>, needle: Seq<char>)
    ensures
        needle_results(apps, needle).len() <= apps.len(),
    decreases apps.len(),
{
    if apps.len() > 0 {
        lemma_search_len(apps.drop_last(), needle);
    }
}

/// The empty query finds every application, in order, each with its own name,
/// command and icon.
pub proof fn lemma_empty_query_finds_all(apps: Seq<AppView>)
    ensures
        needle_results(apps, Seq::<char>::empty()) == apps.map_values(|a: AppView| result_of(a)),
    decreases apps.len(),
{
    if apps.len() > 0 {
        lemma_empty_query_finds_all(apps.drop_last());
        crate::strings::lemma_empty_substring(lowercase(apps.last().name));
        assert(apps.map_values(|a: AppView| result_of(a)) =~= apps.drop_last().map_values(
            |a: AppView| result_of(a),
        ).push(result_of(apps.last())));
    } else {
        assert(apps.map_values(|a: AppView| result_of(a)) =~= Seq::<ResultView>::empty());
    }
}

/// Narrowing a query never adds or reorders results: when the lowercased `wide`
/// query occurs in the lowercased `narrow` one, the results for `narrow` are the
/// results for `wide` whose names also match `narrow`, in the same order (a
/// subsequence of them).
pub proof fn lemma_narrowing_query(apps: Seq<AppView>, wide: Seq<char>, narrow: Seq<char>)
    requires
        is_substring(wide, narrow),
    ensures
        needle_results(apps, narrow) == needle_results(apps, wide).filter(result_matches(narrow)),
    decreases apps.len(),
{
    reveal_with_fuel(Seq::filter, 1);
    let pred = result_matches(narrow);
    if apps.len() > 0 {
        lemma_narrowing_query(apps.drop_last(), wide, narrow);
        let last = apps.last();
        let rw = needle_results(apps.drop_last(), wide);
        if name_matches(last.name, narrow) {
            crate::strings::lemma_substring_transitive(wide, narrow, lowercase(last.name));
        }
        if name_matches(last.name, wide) {
            assert(rw.push(result_of(last)).drop_last() =~= rw);
            rw.lemma_filter_push(result_of(last), pred);
        }
    } else {
        assert(Seq::<ResultView>::empty().filter(pred) =~= Seq::<ResultView>::empty());
    }
}

/// For ASCII queries, a query that holds another never adds or reorders
/// results: its results are those of the shorter query whose names also match it.
pub proof fn lemma_ascii_narrowing_query(apps: Seq<AppView>, wide: Seq<char>, narrow: Seq<char>)
    requires
        is_substring(wide, narrow),
    ensures
        needle_results(apps, ascii_lower(narrow)) == needle_results(apps, ascii_lower(wide)).filter(
            result_matches(ascii_lower(narrow)),
        ),
{
    crate::strings::lemma_ascii_lower_substring(wide, narrow);
    lemma_narrowing_query(apps, ascii_lower(wide), ascii_lower(narrow));
}

/// Searching ignores ASCII case: an ASCII query, its uppercased form and its
/// lowercased form are all ASCII, and all three give the same results (for an
/// ASCII query the search gives `needle_results` of the query lowercased).
pub proof fn lemma_ascii_case_ignored(apps: Seq<AppView>, q: Seq<char>)
    requires
        is_ascii_chars(q),
    ensures
        is_ascii_chars(ascii_upper(q)),
        is_ascii_chars(ascii_lower(q)),
        needle_results(apps, ascii_lower(ascii_upper(q))) == needle_results(apps, ascii_lower(q)),
        needle_results(apps, ascii_lower(ascii_lower(q))) == needle_results(apps, ascii_lower(q)),
{
    crate::strings::lemma_ascii_case_forms(q);
}

impl SearchResult {
    /// A copy of this result.
    pub fn duplicate(&self) -> (r: SearchResult)
        ensures
            r@ == self@,
    {
        SearchResult {
            name: self.name.clone(),
            exec_command: self.exec_command.clone(),
            icon_path: copy_opt(&self.icon_path),
        }
    }
}

/// Something that answers search queries.
pub trait SearchEngine {
    /// The results for `query`.
    fn search(&self, query: &str) -> Vec<SearchResult>;
}

/// A search engine over the installed applications.
pub struct ApplicationSearcher {
    applications: Vec<Application>,
}

impl View for ApplicationSearcher {
    type V = Seq<AppView>;

    closed spec fn view(&self) -> Seq<AppView> {
        app_views(self.applications@)
    }
}

impl ApplicationSearcher {
    /// A searcher over the given applications, which keeps their order.
    pub fn new(applications: Vec<Application>) -> (s: ApplicationSearcher)
        ensures
            s@ == app_views(applications@),
    {
        ApplicationSearcher { applications }
    }

    /// The applications this searcher holds.
    pub fn applications(&self) -> (r: &Vec<Application>)
        ensures
            app_views(r@) == self@,
    {
        &self.applications
    }
}

impl SearchEngine for ApplicationSearcher {
    /// The applications whose lowercased name contains the lowercased query,
    /// in the order in which the searcher holds them.
    fn search(&self, query: &str) -> (results: Vec<SearchResult>)
        ensures
            result_views(results@) == search_results(self@, query@),
            is_ascii_chars(query@) ==> search_results(self@, query@) == needle_results(
                self@,
                ascii_lower(query@),
            ),
    {
        let lowered = to_lowercase(query);
        let needle = chars_of(lowered.as_str());
        let mut results: Vec<SearchResult> = Vec::new();
        let mut i: usize = 0;
        while i < self.applications.len()
            invariant
                i <= self.applications.len(),
                needle@ == lowercase(query@),
                is_ascii_chars(query@) ==> lowercase(query@) == ascii_lower(query@),
                result_views(results@) == search_results(self@.take(i as int), query@),
            decreases self.applications.len() - i,
        {
            let app = &self.applications[i];
            let name = to_lowercase(app.name.as_str());
            let hay = chars_of(name.as_str());
            proof {
                assert(self@.take(i + 1).drop_last() =~= self@.take(i as int));
                assert(self@.take(i + 1).last() == app@);
            }
            if contains_chars(&hay, &needle) {
                let r = SearchResult {
                    name: app.name.clone(),
                    exec_command: app.exec_command.clone(),
                    icon_path: copy_opt(&app.icon_path),
                };
                results.push(r);
                assert(result_views(results@) =~= search_results(self@.take(i as int), query@).push(
                    result_of(app@),
                ));
            }
            i = i + 1;
        }
        assert(self@.take(self.applications.len() as int) =~= self@);
        results
    }
}

} // verus!
