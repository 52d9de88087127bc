//! Discovery: the search over workspaces and their repositories
//! (`search/repos`), and the repositories of one workspace (`org/repos`).

use super::Handler;
use crate::text;
use crate::api::{repo_listing, workspace_listing, Repo, Workspace};
use crate::discovery::{look_into, search_fed, Groups, SearchView, WorkspaceSearch};
use crate::exchange::{Answer, Step, StepView};
use crate::json::{self, json, json_all, JsonView};
use crate::paging::{Gathered, Paging};
use serde_json::Value;
use std::collections::VecDeque;
use vstd::prelude::*;

verus! {

/// How many repositories of a workspace a search shows.
pub const SHOWN_PER_GROUP: usize = 10;

/// With so many items, a search shows no further workspace.
pub const SHOWN_ITEMS: usize = 20;

/// The configured workspaces whose slug contains the query.
pub open spec fn configured(slugs: Seq<String>, query: Seq<char>) -> Seq<Workspace> {
    slugs.filter(|s: String| text::has_text(text::lowercased(s@), query)).map_values(
        |s: String| Workspace { slug: s, name: None },
    )
}

/// A search begins. Workspaces that are configured are served without
/// discovery; otherwise the account's are discovered.
pub open spec fn search_start(slugs: Seq<String>, query: Seq<char>) -> StepView<
    SearchView,
    Seq<(Workspace, Seq<Repo>)>,
> {
    if slugs.len() > 0 {
        look_into(configured(slugs, text::lowercased(query)))
    } else {
        StepView::More(
            SearchView::Discover { query: text::lowercased(query), paging: workspace_listing() },
        )
    }
}

/// A workspace on the wire.
pub open spec fn org_object(slug: Seq<char>) -> JsonView {
    JsonView::Object(Map::empty().insert("org"@, JsonView::Str(slug)))
}

/// A repository on the wire.
pub open spec fn repo_object(repo: Repo) -> JsonView {
    JsonView::Object(Map::empty().insert("full_name"@, JsonView::Str(repo.full_name@)))
}

/// The repositories of a workspace that a search shows: the first ones.
pub open spec fn shown(repos: Seq<Repo>) -> Seq<Repo> {
    if repos.len() > SHOWN_PER_GROUP {
        repos.take(SHOWN_PER_GROUP as int)
    } else {
        repos
    }
}

/// What a search shows of a workspace: itself, and the first of its
/// repositories.
pub open spec fn group_items(group: (Workspace, Seq<Repo>)) -> Seq<JsonView> {
    seq![org_object(group.0.slug@)] + shown(group.1).map_values(|r: Repo| repo_object(r))
}

/// Workspace after workspace follows on `items`, until there are enough.
pub open spec fn found_items(items: Seq<JsonView>, groups: Seq<(Workspace, Seq<Repo>)>) -> Seq<
    JsonView,
>
    decreases groups.len(),
{
    if groups.len() == 0 {
        items
    } else {
        let more = items + group_items(groups[0]);
        if more.len() >= SHOWN_ITEMS {
            more
        } else {
            found_items(more, groups.drop_first())
        }
    }
}

/// What a search found, on the wire. Where it found nothing, the query is
/// offered as a workspace.
pub open spec fn search_object(query: Seq<char>, groups: Seq<(Workspace, Seq<Repo>)>) -> JsonView {
    let found = found_items(Seq::empty(), groups);
    JsonView::Object(
        Map::empty().insert(
            "items"@,
            JsonView::Array(
                if found.len() == 0 {
                    seq![org_object(query)]
                } else {
                    found
                },
            ),
        ),
    )
}

/// The repositories of a workspace on the wire: their names, without the
/// workspace's.
pub open spec fn names_object(repos: Seq<Repo>) -> JsonView {
    JsonView::Object(
        Map::empty().insert(
            "repos"@,
            JsonView::Array(
                repos.map_values(|r: Repo| JsonView::Str(text::after_last(r.full_name@, '/'))),
            ),
        ),
    )
}

fn org_value(slug: &str) -> (r: Value)
    ensures
        json(r) == org_object(slug@),
{
    let mut v = json::object();
    json::set(&mut v, "org", json::string(slug));
    v
}

fn add_group(items: &mut Vec<Value>, workspace: &Workspace, repos: &Vec<Repo>)
    ensures
        json_all(final(items)@) == json_all(old(items)@) + group_items((*workspace, repos@)),
{
    let ghost items0 = json_all(items@);
    let ghost wire = shown(repos@).map_values(|r: Repo| repo_object(r));
    items.push(org_value(workspace.slug.as_str()));
    let ghost items1 = items0.push(org_object(workspace.slug@));
    let mut i: usize = 0;
    assert(json_all(items@) =~= items1 + wire.take(0));
    while i < repos.len() && i < SHOWN_PER_GROUP
        invariant
            i <= repos@.len(),
            i <= SHOWN_PER_GROUP,
            wire == shown(repos@).map_values(|r: Repo| repo_object(r)),
            json_all(items@) == items1 + wire.take(i as int),
        decreases repos@.len() - i,
    {
        let ghost before = json_all(items@);
        let mut v = json::object();
        json::set(&mut v, "full_name", json::string(repos[i].full_name.as_str()));
        assert(json(v) == wire[i as int]);
        items.push(v);
        assert(json_all(items@) =~= before.push(wire[i as int]));
        assert(json_all(items@) =~= items1 + wire.take(i + 1));
        i += 1;
    }
    assert(wire.take(i as int) =~= wire);
    assert(json_all(items@) =~= items0 + group_items((*workspace, repos@)));
}

/// What a search found, on the wire.
pub fn search_value(query: &str, found: &Groups) -> (r: Value)
    ensures
        json(r) == search_object(query@, found@),
{
    let mut items: Vec<Value> = Vec::new();
    let mut i: usize = 0;
    let mut enough = false;
    assert(json_all(items@) =~= Seq::empty());
    assert(found@.skip(0) =~= found@);
    while i < found.groups.len() && !enough
        invariant
            i <= found.groups@.len(),
            found@.len() == found.groups@.len(),
            found_items(Seq::empty(), found@) == if enough {
                json_all(items@)
            } else {
                found_items(json_all(items@), found@.skip(i as int))
            },
        decreases found.groups@.len() - i,
    {
        let ghost rest = found@.skip(i as int);
        let ghost before = json_all(items@);
        let group = &found.groups[i];
        add_group(&mut items, &group.0, &group.1);
        assert(rest[0] == found@[i as int]);
        assert(rest.drop_first() =~= found@.skip(i + 1));
        assert(json_all(items@) == before + group_items(rest[0]));
        assert(json_all(items@).len() == items@.len());
        enough = items.len() >= SHOWN_ITEMS;
        i += 1;
    }
    let ghost all = found_items(Seq::empty(), found@);
    assert(json_all(items@) == all);
    assert(json_all(items@).len() == items@.len());
    if items.is_empty() {
        items.push(org_value(query));
        assert(json_all(items@) =~= seq![org_object(query@)]);
    }
    let mut v = json::object();
    json::set(&mut v, "items", json::array(items));
    v
}

/// The repositories of a workspace on the wire.
pub fn names_value(all: &Gathered<Repo>) -> (r: Value)
    ensures
        json(r) == names_object(all.values@),
{
    let ghost wire = all.values@.map_values(
        |r: Repo| JsonView::Str(text::after_last(r.full_name@, '/')),
    );
    let mut names: Vec<Value> = Vec::new();
    let mut i: usize = 0;
    assert(json_all(names@) =~= wire.take(0));
    while i < all.values.len()
        invariant
            i <= all.values@.len(),
            wire == all.values@.map_values(
                |r: Repo| JsonView::Str(text::after_last(r.full_name@, '/')),
            ),
            json_all(names@) == wire.take(i as int),
        decreases all.values@.len() - i,
    {
        let ghost before = json_all(names@);
        names.push(json::string(all.values[i].name()));
        assert(json_all(names@) =~= before.push(wire[i as int]));
        assert(wire.take(i + 1) =~= before.push(wire[i as int]));
        i += 1;
    }
    assert(wire.take(i as int) =~= wire);
    let mut v = json::object();
    json::set(&mut v, "repos", json::array(names));
    v
}

impl Handler {
    /// Begins to search the workspaces whose slug or name contains the query.
    pub fn search(&self, query: &str) -> (r: Step<WorkspaceSearch, Groups>)
        ensures
            r@ == search_start(self.workspaces@, query@),
    {
        if self.workspaces.is_empty() {
            return Step::More(self.bb.search(query));
        }
        let q = text::lowercase(query);
        let ghost pred = |s: String| text::has_text(text::lowercased(s@), q@);
        let ghost as_workspace = |s: String| Workspace { slug: s, name: None };
        let mut found: VecDeque<Workspace> = VecDeque::new();
        let mut i: usize = 0;
        assert(found@ =~= self.workspaces@.take(0).filter(pred).map_values(as_workspace));
        while i < self.workspaces.len()
            invariant
                i <= self.workspaces@.len(),
                pred == (|s: String| text::has_text(text::lowercased(s@), q@)),
                as_workspace == (|s: String| Workspace { slug: s, name: None }),
                found@ == self.workspaces@.take(i as int).filter(pred).map_values(as_workspace),
            decreases self.workspaces@.len() - i,
        {
            let ghost before = self.workspaces@.take(i as int).filter(pred);
            let slug = &self.workspaces[i];
            proof {
                assert(self.workspaces@.take(i + 1) =~= self.workspaces@.take(i as int).push(*slug));
                self.workspaces@.take(i as int).lemma_filter_push(*slug, pred);
            }
            if text::contains(text::lowercase(slug.as_str()).as_str(), q.as_str()) {
                found.push_back(Workspace { slug: slug.clone(), name: None });
                assert(before.push(*slug).map_values(as_workspace) =~= before.map_values(
                    as_workspace,
                ).push(as_workspace(*slug)));
            }
            i += 1;
        }
        assert(self.workspaces@.take(i as int) =~= self.workspaces@);
        assert(found@ == configured(self.workspaces@, q@));
        WorkspaceSearch::look_into(found)
    }

    /// Begins `org/repos`.
    pub fn org_repos(&self, org: &str) -> (r: Paging<Repo>)
        ensures
            r@ == repo_listing(org@),
    {
        self.bb.workspace_repos(org)
    }
}

proof fn items_are_bounded(items: Seq<JsonView>, groups: Seq<(Workspace, Seq<Repo>)>)
    requires
        items.len() < SHOWN_ITEMS,
    ensures
        items.len() <= found_items(items, groups).len() <= SHOWN_ITEMS + SHOWN_PER_GROUP,
        groups.len() > 0 ==> found_items(items, groups).len() > items.len(),
    decreases groups.len(),
{
    if groups.len() > 0 {
        let more = items + group_items(groups[0]);
        if more.len() < SHOWN_ITEMS {
            items_are_bounded(more, groups.drop_first());
        }
    }
}

/// A search shows a bounded number of items, and at least one: where nothing was
/// found, the query itself.
pub proof fn searches_show_something(query: Seq<char>, groups: Seq<(Workspace, Seq<Repo>)>)
    ensures
        found_items(Seq::empty(), groups).len() <= SHOWN_ITEMS + SHOWN_PER_GROUP,
        groups.len() > 0 ==> found_items(Seq::empty(), groups).len() > 0,
        groups.len() == 0 ==> search_object(query, groups) == JsonView::Object(
            Map::empty().insert("items"@, JsonView::Array(seq![org_object(query)])),
        ),
{
    items_are_bounded(Seq::empty(), groups);
}

/// Where workspaces are configured, a search never discovers: it asks for the
/// repositories of at most as many configured workspaces as are looked into.
pub proof fn configured_workspaces_need_no_discovery(
    slugs: Seq<String>,
    query: Seq<char>,
    s: SearchView,
    answer: Answer,
)
    requires
        slugs.len() > 0,
        s is List,
    ensures
        search_start(slugs, query) matches StepView::More(begun) ==> begun is List,
        search_fed(s, answer) matches StepView::More(after) ==> after is List,
{
}

}
