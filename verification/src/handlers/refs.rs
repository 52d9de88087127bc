//! `repo/refs`: the branches and tags with their commits, for picking a
//! revision. The default branch is marked, as far as it is known.

use super::Handler;
use super::tree::{remember, remembered};
use crate::api::{branch_listing, full_url, repo_path, tag_listing, NamedRef, REF_CAP};
use crate::cache::meta_file;
use crate::exchange::{effects, Answer, Ask, AskView, Effect, EffectView, Step, StepView};
use crate::json::{self, bool_member, json, json_all, JsonView};
use crate::paging::{
    gather, gather_pages, linked, pages_aggregate, values_of, GatheredView, PageOf, Paging,
    PagingView,
};
use crate::text::{self, string_opt};
use serde_json::Value;
use vstd::prelude::*;

verus! {

/// `repo/refs` under way: branches, tags, and then the default branch, from
/// what is remembered of the repository, otherwise from the repository itself.
pub enum RefsOf {
    Branches { full_name: String, paging: Paging<NamedRef> },
    Tags { full_name: String, branches: Vec<NamedRef>, paging: Paging<NamedRef> },
    Meta { full_name: String, branches: Vec<NamedRef>, tags: Vec<NamedRef> },
    Repo { full_name: String, branches: Vec<NamedRef>, tags: Vec<NamedRef> },
}

/// A [`RefsOf`] over plain sequences.
pub enum RefsView {
    Branches { full_name: Seq<char>, paging: PagingView<NamedRef> },
    Tags { full_name: Seq<char>, branches: Seq<NamedRef>, paging: PagingView<NamedRef> },
    Meta { full_name: Seq<char>, branches: Seq<NamedRef>, tags: Seq<NamedRef> },
    Repo { full_name: Seq<char>, branches: Seq<NamedRef>, tags: Seq<NamedRef> },
}

impl View for RefsOf {
    type V = RefsView;

    open spec fn view(&self) -> RefsView {
        match self {
            RefsOf::Branches { full_name, paging } => RefsView::Branches {
                full_name: full_name@,
                paging: paging@,
            },
            RefsOf::Tags { full_name, branches, paging } => RefsView::Tags {
                full_name: full_name@,
                branches: branches@,
                paging: paging@,
            },
            RefsOf::Meta { full_name, branches, tags } => RefsView::Meta {
                full_name: full_name@,
                branches: branches@,
                tags: tags@,
            },
            RefsOf::Repo { full_name, branches, tags } => RefsView::Repo {
                full_name: full_name@,
                branches: branches@,
                tags: tags@,
            },
        }
    }
}

/// Branches and tags, and the default branch's name where it is known.
#[derive(Debug)]
pub struct RefList {
    pub branches: Vec<NamedRef>,
    pub tags: Vec<NamedRef>,
    pub default_branch: Option<String>,
}

/// A [`RefList`] over plain sequences.
pub struct RefListView {
    pub branches: Seq<NamedRef>,
    pub tags: Seq<NamedRef>,
    pub default_branch: Option<Seq<char>>,
}

impl View for RefList {
    type V = RefListView;

    open spec fn view(&self) -> RefListView {
        RefListView {
            branches: self.branches@,
            tags: self.tags@,
            default_branch: string_opt(self.default_branch),
        }
    }
}

/// What `repo/refs` asks.
pub open spec fn refs_ask(r: RefsView, instance: Seq<char>) -> AskView {
    match r {
        RefsView::Branches { paging, .. } => AskView::Refs(full_url(instance, paging.next)),
        RefsView::Tags { paging, .. } => AskView::Refs(full_url(instance, paging.next)),
        RefsView::Meta { full_name, .. } => AskView::Meta(meta_file(full_name)),
        RefsView::Repo { full_name, .. } => AskView::Repo(full_url(instance, repo_path(full_name))),
    }
}

/// `repo/refs` goes on with an answer. One that was not asked for changes
/// nothing. A default branch that cannot be found out goes unmarked.
pub open spec fn refs_fed(r: RefsView, answer: Answer) -> StepView<RefsView, RefListView> {
    match (r, answer) {
        (RefsView::Branches { full_name, paging }, Answer::Refs(Ok(page))) => match gather(
            paging,
            page.values@,
            string_opt(page.next),
        ) {
            StepView::More(paging) => StepView::More(RefsView::Branches { full_name, paging }),
            StepView::Done(all) => StepView::More(
                RefsView::Tags { full_name, branches: all.values, paging: tag_listing(full_name) },
            ),
            StepView::Failed(e) => StepView::Failed(e),
        },
        (RefsView::Branches { .. }, Answer::Refs(Err(e))) => StepView::Failed(e@),
        (RefsView::Tags { full_name, branches, paging }, Answer::Refs(Ok(page))) => match gather(
            paging,
            page.values@,
            string_opt(page.next),
        ) {
            StepView::More(paging) => StepView::More(
                RefsView::Tags { full_name, branches, paging },
            ),
            StepView::Done(all) => StepView::More(
                RefsView::Meta { full_name, branches, tags: all.values },
            ),
            StepView::Failed(e) => StepView::Failed(e),
        },
        (RefsView::Tags { .. }, Answer::Refs(Err(e))) => StepView::Failed(e@),
        (RefsView::Meta { branches, tags, .. }, Answer::Meta(Some(m))) => StepView::Done(
            RefListView { branches, tags, default_branch: Some(m.branch@) },
        ),
        (RefsView::Meta { full_name, branches, tags }, Answer::Meta(None)) => StepView::More(
            RefsView::Repo { full_name, branches, tags },
        ),
        (RefsView::Repo { branches, tags, .. }, Answer::Repo(Ok(repo))) => StepView::Done(
            RefListView { branches, tags, default_branch: Some(repo.branch_name()) },
        ),
        (RefsView::Repo { branches, tags, .. }, Answer::Repo(Err(_))) => StepView::Done(
            RefListView { branches, tags, default_branch: None },
        ),
        _ => StepView::More(r),
    }
}

/// What `repo/refs` does with an answer: a repository that was fetched is
/// remembered.
pub open spec fn refs_effects(r: RefsView, answer: Answer) -> Seq<EffectView> {
    match (r, answer) {
        (RefsView::Repo { .. }, Answer::Repo(Ok(repo))) => seq![remembered(repo)],
        _ => Seq::empty(),
    }
}

impl RefsOf {
    /// What the method waits for.
    pub fn ask(&self, handler: &Handler) -> (r: Ask)
        ensures
            r@ == refs_ask(self@, handler.bb.instance@),
    {
        match self {
            RefsOf::Branches { paging, .. } => Ask::Refs(handler.bb.url(paging.next.as_str())),
            RefsOf::Tags { paging, .. } => Ask::Refs(handler.bb.url(paging.next.as_str())),
            RefsOf::Meta { full_name, .. } => handler.cache.repo_meta(full_name.as_str()),
            RefsOf::Repo { full_name, .. } => handler.bb.repo(full_name.as_str()),
        }
    }

    /// Goes on with an answer.
    pub fn feed(self, answer: Answer, handler: &Handler, fx: &mut Vec<Effect>) -> (r: Step<
        RefsOf,
        RefList,
    >)
        ensures
            r@ == refs_fed(self@, answer),
            effects(final(fx)@) == effects(old(fx)@) + refs_effects(self@, answer),
    {
        let ghost before = effects(fx@);
        assert(before + Seq::<EffectView>::empty() =~= before);
        match (self, answer) {
            (RefsOf::Branches { full_name, paging }, Answer::Refs(Ok(page))) => match paging.feed(
                page,
            ) {
                Step::More(paging) => Step::More(RefsOf::Branches { full_name, paging }),
                Step::Done(all) => {
                    let paging = handler.bb.tags(full_name.as_str());
                    Step::More(RefsOf::Tags { full_name, branches: all.values, paging })
                },
                Step::Failed(e) => Step::Failed(e),
            },
            (RefsOf::Branches { .. }, Answer::Refs(Err(e))) => Step::Failed(e),
            (
                RefsOf::Tags { full_name, branches, paging },
                Answer::Refs(Ok(page)),
            ) => match paging.feed(page) {
                Step::More(paging) => Step::More(RefsOf::Tags { full_name, branches, paging }),
                Step::Done(all) => Step::More(
                    RefsOf::Meta { full_name, branches, tags: all.values },
                ),
                Step::Failed(e) => Step::Failed(e),
            },
            (RefsOf::Tags { .. }, Answer::Refs(Err(e))) => Step::Failed(e),
            (RefsOf::Meta { branches, tags, .. }, Answer::Meta(Some(m))) => Step::Done(
                RefList { branches, tags, default_branch: Some(m.branch) },
            ),
            (RefsOf::Meta { full_name, branches, tags }, Answer::Meta(None)) => Step::More(
                RefsOf::Repo { full_name, branches, tags },
            ),
            (RefsOf::Repo { branches, tags, .. }, Answer::Repo(Ok(repo))) => {
                let meta = remember(&repo, &handler.cache, fx);
                Step::Done(RefList { branches, tags, default_branch: Some(meta.branch) })
            },
            (RefsOf::Repo { branches, tags, .. }, Answer::Repo(Err(_))) => Step::Done(
                RefList { branches, tags, default_branch: None },
            ),
            (refs, _) => Step::More(refs),
        }
    }
}

/// One ref on the wire.
pub open spec fn ref_members(r: NamedRef) -> Map<Seq<char>, JsonView> {
    Map::empty().insert("name"@, JsonView::Str(r.name@)).insert(
        "sha"@,
        JsonView::Str(r.target.hash@),
    )
}

/// One branch on the wire; only the default branch is marked.
pub open spec fn branch_object(b: NamedRef, default_branch: Option<Seq<char>>) -> JsonView {
    JsonView::Object(
        if default_branch == Some(b.name@) {
            ref_members(b).insert("default"@, JsonView::Bool(true))
        } else {
            ref_members(b)
        },
    )
}

/// Branches and tags on the wire.
pub open spec fn refs_object(l: RefListView) -> JsonView {
    JsonView::Object(
        Map::empty().insert(
            "branches"@,
            JsonView::Array(
                l.branches.map_values(|b: NamedRef| branch_object(b, l.default_branch)),
            ),
        ).insert(
            "tags"@,
            JsonView::Array(l.tags.map_values(|t: NamedRef| JsonView::Object(ref_members(t)))),
        ),
    )
}

fn ref_value(r: &NamedRef) -> (v: Value)
    ensures
        json(v) == JsonView::Object(ref_members(*r)),
{
    let mut v = json::object();
    json::set(&mut v, "name", json::string(r.name.as_str()));
    json::set(&mut v, "sha", json::string(r.target.hash.as_str()));
    v
}

fn branch_value(b: &NamedRef, default_branch: &Option<String>) -> (v: Value)
    ensures
        json(v) == branch_object(*b, string_opt(*default_branch)),
{
    let mut v = ref_value(b);
    if let Some(d) = default_branch {
        if text::same(b.name.as_str(), d.as_str()) {
            json::set(&mut v, "default", json::boolean(true));
        }
    }
    v
}

impl RefList {
    /// The refs on the wire.
    pub fn to_json(&self) -> (r: Value)
        ensures
            json(r) == refs_object(self@),
    {
        let ghost default_branch = string_opt(self.default_branch);
        let ghost branch_wire = self.branches@.map_values(
            |b: NamedRef| branch_object(b, default_branch),
        );
        let mut branches: Vec<Value> = Vec::new();
        let mut i: usize = 0;
        assert(json_all(branches@) =~= branch_wire.take(0));
        while i < self.branches.len()
            invariant
                i <= self.branches@.len(),
                default_branch == string_opt(self.default_branch),
                branch_wire == self.branches@.map_values(
                    |b: NamedRef| branch_object(b, default_branch),
                ),
                json_all(branches@) == branch_wire.take(i as int),
            decreases self.branches@.len() - i,
        {
            let ghost before = json_all(branches@);
            branches.push(branch_value(&self.branches[i], &self.default_branch));
            assert(json_all(branches@) =~= before.push(branch_wire[i as int]));
            assert(branch_wire.take(i + 1) =~= before.push(branch_wire[i as int]));
            i += 1;
        }
        assert(branch_wire.take(i as int) =~= branch_wire);
        let ghost tag_wire = self.tags@.map_values(
            |t: NamedRef| JsonView::Object(ref_members(t)),
        );
        let mut tags: Vec<Value> = Vec::new();
        let mut k: usize = 0;
        assert(json_all(tags@) =~= tag_wire.take(0));
        while k < self.tags.len()
            invariant
                k <= self.tags@.len(),
                tag_wire == self.tags@.map_values(
                    |t: NamedRef| JsonView::Object(ref_members(t)),
                ),
                json_all(tags@) == tag_wire.take(k as int),
            decreases self.tags@.len() - k,
        {
            let ghost before = json_all(tags@);
            tags.push(ref_value(&self.tags[k]));
            assert(json_all(tags@) =~= before.push(tag_wire[k as int]));
            assert(tag_wire.take(k + 1) =~= before.push(tag_wire[k as int]));
            k += 1;
        }
        assert(tag_wire.take(k as int) =~= tag_wire);
        let mut v = json::object();
        json::set(&mut v, "branches", json::array(branches));
        json::set(&mut v, "tags", json::array(tags));
        assert(branch_wire =~= self@.branches.map_values(
            |b: NamedRef| branch_object(b, self@.default_branch),
        ));
        v
    }
}

impl Handler {
    /// Begins `repo/refs`.
    pub fn repo_refs(&self, full_name: &str) -> (r: RefsOf)
        ensures
            r@ == (RefsView::Branches {
                full_name: full_name@,
                paging: branch_listing(full_name@),
            }),
    {
        RefsOf::Branches {
            full_name: full_name.to_owned(),
            paging: self.bb.branches(full_name),
        }
    }
}

/// A branch is marked as the default one.
pub open spec fn marked(v: JsonView) -> bool {
    bool_member(v, "default"@) == Some(true)
}

/// Of branches that go by different names, one at most is marked as the default
/// one; where the default branch is not known, none is. Tags never are.
pub proof fn one_default_at_most(l: RefListView, i: int, k: int)
    requires
        0 <= i < l.branches.len(),
        0 <= k < l.branches.len(),
        marked(branch_object(l.branches[i], l.default_branch)),
        marked(branch_object(l.branches[k], l.default_branch)),
    ensures
        l.branches[i].name@ == l.branches[k].name@,
        l.default_branch == Some(l.branches[i].name@),
        forall|t: NamedRef| !marked(JsonView::Object(#[trigger] ref_members(t))),
{
    reveal_strlit("default");
    reveal_strlit("name");
    reveal_strlit("sha");
    assert("default"@.len() != "name"@.len());
    assert("default"@.len() != "sha"@.len());
}

/// Branches and tags are listed whole: whatever number of pages they come in,
/// all of their values are taken, in order. No list in memory is as long as the
/// bound that is left out here.
pub proof fn refs_are_listed_whole(full_name: Seq<char>, pages: Seq<PageOf<NamedRef>>)
    requires
        linked(pages),
        values_of(pages).len() < usize::MAX,
    ensures
        gather_pages(branch_listing(full_name), pages) == StepView::<
            PagingView<NamedRef>,
            GatheredView<NamedRef>,
        >::Done(GatheredView { values: values_of(pages), truncated: false }),
        gather_pages(tag_listing(full_name), pages) == StepView::<
            PagingView<NamedRef>,
            GatheredView<NamedRef>,
        >::Done(GatheredView { values: values_of(pages), truncated: false }),
{
    pages_aggregate(branch_listing(full_name).next, REF_CAP as nat, pages);
    pages_aggregate(tag_listing(full_name).next, REF_CAP as nat, pages);
}

}
