//! The search over workspaces: those that match, and their repositories.

use crate::api::{full_url, repo_listing, repo_pages, Bitbucket, Repo, Workspace, GROUP_CAP};
use crate::exchange::{Answer, Ask, AskView, Step, StepView};
use crate::paging::{gather, Paging, PagingView};
use crate::text::{self, has_text, lowercased, string_opt};
use std::collections::VecDeque;
use vstd::prelude::*;

verus! {

/// One of two texts contains the query.
pub open spec fn either_has(slug: Seq<char>, name: Seq<char>, query: Seq<char>) -> bool {
    has_text(slug, query) || has_text(name, query)
}

/// A workspace's slug or name, in lower case, contains the query.
pub open spec fn workspace_matches(w: Workspace, query: Seq<char>) -> bool {
    either_has(
        lowercased(w.slug@),
        lowercased(
            match w.name {
                Some(name) => name@,
                None => Seq::empty(),
            },
        ),
        query,
    )
}

/// The first of the workspaces that were found, as many as are looked into.
pub open spec fn first_found(found: Seq<Workspace>) -> Seq<Workspace> {
    if found.len() > GROUP_CAP {
        found.take(GROUP_CAP as int)
    } else {
        found
    }
}

/// The workspaces that match.
pub open spec fn matching(all: Seq<Workspace>, query: Seq<char>) -> Seq<Workspace> {
    all.filter(|w: Workspace| workspace_matches(w, query))
}

/// The repositories of the workspaces that were found are to be listed.
pub open spec fn look_into(found: Seq<Workspace>) -> StepView<
    SearchView,
    Seq<(Workspace, Seq<Repo>)>,
> {
    list_next(Seq::empty(), first_found(found))
}

/// Workspaces with their repositories.
#[derive(Debug)]
pub struct Groups {
    pub groups: Vec<(Workspace, Vec<Repo>)>,
}

impl View for Groups {
    type V = Seq<(Workspace, Seq<Repo>)>;

    open spec fn view(&self) -> Seq<(Workspace, Seq<Repo>)> {
        self.groups@.map_values(|g: (Workspace, Vec<Repo>)| (g.0, g.1@))
    }
}

/// A search over workspaces: they are discovered first, then the repositories
/// of those that match are listed one workspace after another.
pub enum WorkspaceSearch {
    Discover { query: String, paging: Paging<Workspace> },
    List {
        groups: Groups,
        workspace: Workspace,
        paging: Paging<Repo>,
        rest: VecDeque<Workspace>,
    },
}

/// A [`WorkspaceSearch`] over plain sequences.
pub enum SearchView {
    Discover { query: Seq<char>, paging: PagingView<Workspace> },
    List {
        groups: Seq<(Workspace, Seq<Repo>)>,
        workspace: Workspace,
        paging: PagingView<Repo>,
        rest: Seq<Workspace>,
    },
}

impl View for WorkspaceSearch {
    type V = SearchView;

    open spec fn view(&self) -> SearchView {
        match self {
            WorkspaceSearch::Discover { query, paging } => SearchView::Discover {
                query: query@,
                paging: paging@,
            },
            WorkspaceSearch::List { groups, workspace, paging, rest } => SearchView::List {
                groups: groups@,
                workspace: *workspace,
                paging: paging@,
                rest: rest@,
            },
        }
    }
}

/// The repositories of the next workspace are listed, until there is none.
pub open spec fn list_next(groups: Seq<(Workspace, Seq<Repo>)>, rest: Seq<Workspace>) -> StepView<
    SearchView,
    Seq<(Workspace, Seq<Repo>)>,
> {
    if rest.len() == 0 {
        StepView::Done(groups)
    } else {
        StepView::More(
            SearchView::List {
                groups,
                workspace: rest[0],
                paging: repo_listing(rest[0].slug@),
                rest: rest.drop_first(),
            },
        )
    }
}

/// A search goes on with an answer. One that was not asked for changes
/// nothing.
pub open spec fn search_fed(s: SearchView, answer: Answer) -> StepView<
    SearchView,
    Seq<(Workspace, Seq<Repo>)>,
> {
    match (s, answer) {
        (SearchView::Discover { query, paging }, Answer::Workspaces(Ok(page))) => match gather(
            paging,
            page.values@,
            string_opt(page.next),
        ) {
            StepView::More(paging) => StepView::More(SearchView::Discover { query, paging }),
            StepView::Done(all) => look_into(matching(all.values, query)),
            StepView::Failed(e) => StepView::Failed(e),
        },
        (SearchView::Discover { .. }, Answer::Workspaces(Err(e))) => StepView::Failed(e@),
        (
            SearchView::List { groups, workspace, paging, rest },
            Answer::Repos(Ok(page)),
        ) => match gather(paging, page.values@, string_opt(page.next)) {
            StepView::More(paging) => StepView::More(
                SearchView::List { groups, workspace, paging, rest },
            ),
            StepView::Done(all) => list_next(groups.push((workspace, all.values)), rest),
            StepView::Failed(e) => StepView::Failed(e),
        },
        (SearchView::List { .. }, Answer::Repos(Err(e))) => StepView::Failed(e@),
        _ => StepView::More(s),
    }
}

/// What a search asks.
pub open spec fn search_ask(s: SearchView, instance: Seq<char>) -> AskView {
    match s {
        SearchView::Discover { paging, .. } => AskView::Workspaces(full_url(instance, paging.next)),
        SearchView::List { paging, .. } => AskView::Repos(full_url(instance, paging.next)),
    }
}

/// A slug or a name contains the query.
pub fn either_contains(slug: &str, name: &str, query: &str) -> (r: bool)
    ensures
        r == either_has(slug@, name@, query@),
{
    text::contains(slug, query) || text::contains(name, query)
}

fn matches_workspace(w: &Workspace, query: &str) -> (r: bool)
    ensures
        r == workspace_matches(*w, query@),
{
    let slug = text::lowercase(w.slug.as_str());
    let name = match &w.name {
        Some(name) => text::lowercase(name.as_str()),
        None => text::lowercase(String::new().as_str()),
    };
    either_contains(slug.as_str(), name.as_str(), query)
}

impl WorkspaceSearch {
    /// Keeps the workspaces that match, and looks into the first of them.
    fn list(all: Vec<Workspace>, query: &str) -> (r: Step<WorkspaceSearch, Groups>)
        ensures
            r@ == look_into(matching(all@, query@)),
    {
        let ghost pred = |w: Workspace| workspace_matches(w, query@);
        let mut found: VecDeque<Workspace> = VecDeque::new();
        for w in it: all
            invariant
                it.seq() == all@,
                pred == (|w: Workspace| workspace_matches(w, query@)),
                found@ == all@.take(it.index() as int).filter(pred),
        {
            let ghost i = it.index() as int;
            proof {
                assert(all@.take(i + 1) =~= all@.take(i).push(all@[i]));
                all@.take(i).lemma_filter_push(all@[i], pred);
            }
            if matches_workspace(&w, query) {
                found.push_back(w);
            }
        }
        assert(all@.take(all@.len() as int) =~= all@);
        WorkspaceSearch::look_into(found)
    }

    /// Begins to list the repositories of the first of the workspaces that were
    /// found.
    pub fn look_into(found: VecDeque<Workspace>) -> (r: Step<WorkspaceSearch, Groups>)
        ensures
            r@ == look_into(found@),
    {
        let mut first = found;
        first.truncate(GROUP_CAP);
        assert(first@ =~= first_found(found@));
        let groups = Groups { groups: Vec::new() };
        assert(groups@ =~= Seq::empty());
        WorkspaceSearch::list_next(groups, first)
    }

    fn list_next(groups: Groups, rest: VecDeque<Workspace>) -> (r: Step<WorkspaceSearch, Groups>)
        ensures
            r@ == list_next(groups@, rest@),
    {
        let mut rest = rest;
        match rest.pop_front() {
            Some(workspace) => {
                let paging = repo_pages(workspace.slug.as_str());
                Step::More(WorkspaceSearch::List { groups, workspace, paging, rest })
            },
            None => Step::Done(groups),
        }
    }

    /// What the search waits for.
    pub fn ask(&self, bb: &Bitbucket) -> (r: Ask)
        ensures
            r@ == search_ask(self@, bb.instance@),
    {
        match self {
            WorkspaceSearch::Discover { paging, .. } => Ask::Workspaces(
                bb.url(paging.next.as_str()),
            ),
            WorkspaceSearch::List { paging, .. } => Ask::Repos(bb.url(paging.next.as_str())),
        }
    }

    /// Goes on with an answer.
    pub fn feed(self, answer: Answer) -> (r: Step<WorkspaceSearch, Groups>)
        ensures
            r@ == search_fed(self@, answer),
    {
        match (self, answer) {
            (
                WorkspaceSearch::Discover { query, paging },
                Answer::Workspaces(Ok(page)),
            ) => match paging.feed(page) {
                Step::More(paging) => Step::More(WorkspaceSearch::Discover { query, paging }),
                Step::Done(all) => WorkspaceSearch::list(all.values, query.as_str()),
                Step::Failed(e) => Step::Failed(e),
            },
            (WorkspaceSearch::Discover { .. }, Answer::Workspaces(Err(e))) => Step::Failed(e),
            (
                WorkspaceSearch::List { groups, workspace, paging, rest },
                Answer::Repos(Ok(page)),
            ) => match paging.feed(page) {
                Step::More(paging) => Step::More(
                    WorkspaceSearch::List { groups, workspace, paging, rest },
                ),
                Step::Done(all) => {
                    let ghost before = groups@;
                    let mut groups = groups;
                    let ghost added = (workspace, all.values@);
                    groups.groups.push((workspace, all.values));
                    assert(groups@ =~= before.push(added));
                    WorkspaceSearch::list_next(groups, rest)
                },
                Step::Failed(e) => Step::Failed(e),
            },
            (WorkspaceSearch::List { .. }, Answer::Repos(Err(e))) => Step::Failed(e),
            (search, _) => Step::More(search),
        }
    }
}

}
