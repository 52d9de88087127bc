//! `repo/refs`: every branch and tag is shown, and the default branch is marked.

use super::wire::array_member;
use crate::api::{ApiError, NamedRef, Paged, Repo};
use crate::cache::RepoMeta;
use crate::exchange::Answer;
use crate::handlers::refs::{
    branch_object, ref_members, refs_fed, refs_object, RefListView, RefsView,
};
use crate::handlers::task::{task_fed, TaskView, TurnView};
use crate::handlers::tree::meta_of;
use crate::json::{bool_member, member, text_member, JsonView};
use crate::paging::PagingView;
use vstd::prelude::*;

verus! {

/// An item shows a ref: its name and its commit.
pub open spec fn shows_ref(item: JsonView, r: NamedRef) -> bool {
    &&& text_member(item, "name"@) == Some(r.name@)
    &&& text_member(item, "sha"@) == Some(r.target.hash@)
}

/// A reply shows branches and tags, each of them in its place. A branch is marked
/// as the default one exactly where it goes by that name; no other item has such
/// a mark.
pub open spec fn shows_refs(
    v: JsonView,
    branches: Seq<NamedRef>,
    tags: Seq<NamedRef>,
    default_branch: Option<Seq<char>>,
) -> bool {
    &&& array_member(v, "branches"@) matches Some(items) && {
        &&& items.len() == branches.len()
        &&& forall|i: int|
            0 <= i < branches.len() ==> {
                &&& shows_ref(#[trigger] items[i], branches[i])
                &&& bool_member(items[i], "default"@) == Some(true) <==> default_branch == Some(
                    branches[i].name@,
                )
                &&& member(items[i], "default"@) is Some ==> default_branch == Some(
                    branches[i].name@,
                )
            }
    }
    &&& array_member(v, "tags"@) matches Some(items) && {
        &&& items.len() == tags.len()
        &&& forall|i: int|
            0 <= i < tags.len() ==> shows_ref(#[trigger] items[i], tags[i]) && member(
                items[i],
                "default"@,
            ) is None
    }
}

proof fn lists_are_shown(l: RefListView)
    ensures
        shows_refs(refs_object(l), l.branches, l.tags, l.default_branch),
{
    reveal_strlit("branches");
    reveal_strlit("tags");
    reveal_strlit("name");
    reveal_strlit("sha");
    reveal_strlit("default");
    assert("branches"@.len() == 8 && "tags"@.len() == 4);
    assert("name"@.len() == 4 && "sha"@.len() == 3 && "default"@.len() == 7);
    let shown = l.branches.map_values(|b: NamedRef| branch_object(b, l.default_branch));
    assert forall|i: int| 0 <= i < l.branches.len() implies {
        &&& shows_ref(#[trigger] shown[i], l.branches[i])
        &&& bool_member(shown[i], "default"@) == Some(true) <==> l.default_branch == Some(
            l.branches[i].name@,
        )
        &&& member(shown[i], "default"@) is Some ==> l.default_branch == Some(l.branches[i].name@)
    } by {
        assert(shown[i] == branch_object(l.branches[i], l.default_branch));
    }
    let tags = l.tags.map_values(|t: NamedRef| JsonView::Object(ref_members(t)));
    assert forall|i: int| 0 <= i < l.tags.len() implies shows_ref(#[trigger] tags[i], l.tags[i])
        && member(tags[i], "default"@) is None by {
        assert(tags[i] == JsonView::Object(ref_members(l.tags[i])));
    }
}

/// Once branches and tags are listed, what is remembered of the repository marks
/// the branch of that name, and so does the repository itself, `main` where it
/// names none. Where neither can be had, no branch is marked.
pub proof fn default_branches_are_marked(
    full_name: Seq<char>,
    branches: Seq<NamedRef>,
    tags: Seq<NamedRef>,
    meta: RepoMeta,
    repo: Repo,
    error: ApiError,
    instance: Seq<char>,
)
    ensures
        ({
            let refs = RefsView::Meta { full_name, branches, tags };
            &&& task_fed(TaskView::RepoRefs { refs }, Answer::Meta(Some(meta)), instance) matches TurnView::Reply(
                Ok(v),
            )
            &&& shows_refs(v, branches, tags, Some(meta.branch@))
        }),
        task_fed(
            TaskView::RepoRefs { refs: RefsView::Meta { full_name, branches, tags } },
            Answer::Meta(None),
            instance,
        ) == TurnView::More(
            TaskView::RepoRefs { refs: RefsView::Repo { full_name, branches, tags } },
        ),
        ({
            let refs = RefsView::Repo { full_name, branches, tags };
            &&& task_fed(TaskView::RepoRefs { refs }, Answer::Repo(Ok(repo)), instance) matches TurnView::Reply(
                Ok(v),
            )
            &&& shows_refs(
                v,
                branches,
                tags,
                Some(
                    match repo.mainbranch {
                        Some(m) => m.name@,
                        None => "main"@,
                    },
                ),
            )
        }),
        ({
            let refs = RefsView::Repo { full_name, branches, tags };
            &&& task_fed(TaskView::RepoRefs { refs }, Answer::Repo(Err(error)), instance) matches TurnView::Reply(
                Ok(v),
            )
            &&& shows_refs(v, branches, tags, None)
        }),
{
    lists_are_shown(RefListView { branches, tags, default_branch: Some(meta.branch@) });
    lists_are_shown(RefListView { branches, tags, default_branch: Some(repo.branch_name()) });
    lists_are_shown(RefListView { branches, tags, default_branch: None });
}

/// A repository that is remembered leads to the same reply as the repository
/// itself.
pub proof fn remembered_defaults_are_the_same(
    full_name: Seq<char>,
    branches: Seq<NamedRef>,
    tags: Seq<NamedRef>,
    meta: RepoMeta,
    repo: Repo,
    instance: Seq<char>,
)
    requires
        meta@ == meta_of(repo),
    ensures
        refs_fed(RefsView::Meta { full_name, branches, tags }, Answer::Meta(Some(meta))) == refs_fed(
            RefsView::Repo { full_name, branches, tags },
            Answer::Repo(Ok(repo)),
        ),
        task_fed(
            TaskView::RepoRefs { refs: RefsView::Meta { full_name, branches, tags } },
            Answer::Meta(Some(meta)),
            instance,
        ) == task_fed(
            TaskView::RepoRefs { refs: RefsView::Repo { full_name, branches, tags } },
            Answer::Repo(Ok(repo)),
            instance,
        ),
{
}

/// The branches of all pages are kept while the tags are listed, and the tags of
/// all pages besides them while the default branch is looked for.
pub proof fn listed_refs_are_kept(
    full_name: Seq<char>,
    branches: Seq<NamedRef>,
    cap: nat,
    before: Seq<NamedRef>,
    here: Seq<char>,
    page: Paged<NamedRef>,
    instance: Seq<char>,
)
    requires
        before.len() + page.values@.len() < cap,
    ensures
        ({
            let paging = PagingView { cap, out: before, next: here };
            let all = before + page.values@;
            let answer = Answer::Refs(Ok(page));
            let at_branches = TaskView::RepoRefs { refs: RefsView::Branches { full_name, paging } };
            let at_tags = TaskView::RepoRefs { refs: RefsView::Tags { full_name, branches, paging } };
            match page.next {
                None => {
                    &&& task_fed(at_branches, answer, instance) matches TurnView::More(
                        TaskView::RepoRefs {
                            refs: RefsView::Tags { full_name: name, branches: kept, paging: tags },
                        },
                    )
                    &&& name == full_name
                    &&& kept == all
                    &&& tags.next == "/2.0/repositories/"@ + full_name + "/refs/tags?pagelen=100"@
                    &&& tags.out.len() == 0
                    &&& tags.cap == usize::MAX
                    &&& task_fed(at_tags, answer, instance) == TurnView::More(
                        TaskView::RepoRefs {
                            refs: RefsView::Meta { full_name, branches, tags: all },
                        },
                    )
                },
                Some(next) => {
                    let more = PagingView { cap, out: all, next: next@ };
                    &&& task_fed(at_branches, answer, instance) == TurnView::More(
                        TaskView::RepoRefs { refs: RefsView::Branches { full_name, paging: more } },
                    )
                    &&& task_fed(at_tags, answer, instance) == TurnView::More(
                        TaskView::RepoRefs {
                            refs: RefsView::Tags { full_name, branches, paging: more },
                        },
                    )
                },
            }
        }),
{
}

}
