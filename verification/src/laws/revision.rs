//! Revisions: what is asked to resolve a branch, a tag or the default branch, and
//! that what is served is what the forge says it points to.

use super::tree::at_commit;
use crate::api::{full_url, is_missing, ApiError, ErrorView, Ref, Repo};
use crate::cache::{encoded, RepoMeta, Tree};
use crate::exchange::{Answer, AskView, EffectView, StepView};
use crate::handlers::wire_error;
use crate::handlers::blob::BlobAtView;
use crate::handlers::log::LogView;
use crate::handlers::task::{task_ask, task_effects, task_fed, TaskView, TurnView};
use crate::handlers::tree::{
    names_commit, pin_ask, pin_effects, pin_fed, pin_start, tree_effects, tree_fed, PinView,
    PinnedView, RepoTreeView, ServedView, TreeAtView,
};
use crate::text::{hex_digit, in_quotes, stands_at};
use crate::walk::WalkView;
use vstd::prelude::*;

verus! {

/// A URL below a repository: the instance, the repository, and what follows it.
pub open spec fn below(instance: Seq<char>, full_name: Seq<char>, rest: Seq<char>) -> Seq<char> {
    instance + "/2.0/repositories/"@ + full_name + rest
}

/// Paths are asked for below the instance. Links that are URLs already are asked
/// for as they are.
pub proof fn paths_are_asked_for_below_the_instance(
    instance: Seq<char>,
    rest: Seq<char>,
    c: char,
    full_name: Seq<char>,
    path: Seq<char>,
)
    requires
        c != 'h',
    ensures
        full_url(instance, "http"@ + rest) == "http"@ + rest,
        full_url(instance, seq![c] + rest) == instance + (seq![c] + rest),
        full_url(instance, "/2.0/repositories/"@ + full_name + path) == below(
            instance,
            full_name,
            path,
        ),
        full_url(instance, "/2.0/repositories/"@ + full_name) == below(
            instance,
            full_name,
            Seq::empty(),
        ),
{
    reveal_strlit("http");
    reveal_strlit("/2.0/repositories/");
    let link = "http"@ + rest;
    assert(link.subrange(0, 4) =~= "http"@);
    let other = seq![c] + rest;
    if stands_at(other, "http"@, 0) {
        assert(other.subrange(0, 4)[0] == other[0]);
    }
    let long = "/2.0/repositories/"@ + full_name + path;
    assert(long[0] == '/');
    if stands_at(long, "http"@, 0) {
        assert(long.subrange(0, 4)[0] == long[0]);
    }
    assert(instance + long =~= below(instance, full_name, path));
    let short = "/2.0/repositories/"@ + full_name;
    assert(short[0] == '/');
    if stands_at(short, "http"@, 0) {
        assert(short.subrange(0, 4)[0] == short[0]);
    }
    assert(instance + short =~= below(instance, full_name, Seq::empty()));
}

/// A full commit hash: forty of the digits of hexadecimal numbers.
pub open spec fn full_hash(r: Seq<char>) -> bool {
    r.len() == 40 && forall|i: int|
        0 <= i < r.len() ==> "0123456789abcdefABCDEF"@.contains(#[trigger] r[i])
}

proof fn hex_digits_are_listed(c: char)
    ensures
        hex_digit(c) <==> "0123456789abcdefABCDEF"@.contains(c),
{
    reveal_strlit("0123456789abcdefABCDEF");
    let all = "0123456789abcdefABCDEF"@;
    let n = c as u32;
    if hex_digit(c) {
        let k = if '0' <= c <= '9' {
            n - 0x30
        } else if 'a' <= c <= 'f' {
            n - 0x61 + 10
        } else {
            n - 0x41 + 16
        };
        assert(0 <= k < 22);
        assert(all[k] == c);
    }
    if all.contains(c) {
        let k = choose|k: int| 0 <= k < all.len() && all[k] == c;
        assert(0 <= k < 22);
        assert(hex_digit(all[k]));
    }
}

/// Without a ref, what is remembered of the repository is looked up first. A full
/// commit hash, and nothing else, is taken for what it is, without a question.
/// Any other ref is looked for.
pub proof fn revisions_begin(full_name: Seq<char>, r: Seq<char>)
    ensures
        pin_start(full_name, None) == StepView::<PinView, PinnedView>::More(
            PinView::Meta { full_name },
        ),
        full_hash(r) ==> pin_start(full_name, Some(r)) == StepView::<PinView, PinnedView>::Done(
            PinnedView { label: r, commit: r },
        ),
        !full_hash(r) ==> pin_start(full_name, Some(r)) == StepView::<PinView, PinnedView>::More(
            PinView::Branch { full_name, name: r },
        ),
{
    assert forall|i: int| 0 <= i < r.len() implies hex_digit(#[trigger] r[i])
        == "0123456789abcdefABCDEF"@.contains(r[i]) by {
        hex_digits_are_listed(r[i]);
    }
    if names_commit(r) {
        assert forall|i: int|
            0 <= i < r.len() implies "0123456789abcdefABCDEF"@.contains(#[trigger] r[i]) by {
            assert(hex_digit(r[i]));
        }
    }
    if full_hash(r) {
        assert forall|i: int| 0 <= i < r.len() implies hex_digit(#[trigger] r[i]) by {
            assert("0123456789abcdefABCDEF"@.contains(r[i]));
        }
    }
}

/// What a resolution asks: the cache for what is remembered of the repository,
/// the forge for the repository, and for the branch or the tag by its name.
pub proof fn revisions_are_asked_for_by_name(
    full_name: Seq<char>,
    name: Seq<char>,
    instance: Seq<char>,
)
    ensures
        pin_ask(PinView::Meta { full_name }, instance) == AskView::Meta(
            seq!["repos"@, encoded(full_name) + ".json"@],
        ),
        pin_ask(PinView::Repo { full_name }, instance) == AskView::Repo(
            below(instance, full_name, Seq::empty()),
        ),
        pin_ask(PinView::Head { full_name, branch: name }, instance) == AskView::Ref(
            below(instance, full_name, "/refs/branches/"@ + name),
        ),
        pin_ask(PinView::Branch { full_name, name }, instance) == AskView::Ref(
            below(instance, full_name, "/refs/branches/"@ + name),
        ),
        pin_ask(PinView::Tag { full_name, name }, instance) == AskView::Ref(
            below(instance, full_name, "/refs/tags/"@ + name),
        ),
{
    let branch = "/refs/branches/"@ + name;
    let tag = "/refs/tags/"@ + name;
    paths_are_asked_for_below_the_instance(instance, name, '/', full_name, branch);
    paths_are_asked_for_below_the_instance(instance, name, '/', full_name, tag);
    assert("/2.0/repositories/"@ + full_name + "/refs/branches/"@ + name =~= "/2.0/repositories/"@
        + full_name + branch);
    assert("/2.0/repositories/"@ + full_name + "/refs/tags/"@ + name =~= "/2.0/repositories/"@
        + full_name + tag);
}

/// An answer of the forge that is a failure.
pub open spec fn fails_as(s: StepView<PinView, PinnedView>, status: u16, message: Seq<char>) -> bool {
    s matches StepView::Failed(ErrorView::Api { status: t, message: m, retry_after })
        && t == status && m == message && retry_after is None
}

/// The default branch is the one that is remembered, otherwise the one that the
/// repository names, `main` where it names none; then its head is asked for. A
/// repository that cannot be had is not found, whatever the reason.
pub proof fn default_branches_are_resolved(
    full_name: Seq<char>,
    meta: RepoMeta,
    repo: Repo,
    error: ApiError,
)
    ensures
        pin_fed(PinView::Meta { full_name }, Answer::Meta(Some(meta))) == StepView::<
            PinView,
            PinnedView,
        >::More(PinView::Head { full_name, branch: meta.branch@ }),
        pin_fed(PinView::Meta { full_name }, Answer::Meta(None)) == StepView::<
            PinView,
            PinnedView,
        >::More(PinView::Repo { full_name }),
        repo.mainbranch matches Some(m) ==> pin_fed(
            PinView::Repo { full_name },
            Answer::Repo(Ok(repo)),
        ) == StepView::<PinView, PinnedView>::More(PinView::Head { full_name, branch: m.name@ }),
        repo.mainbranch is None ==> pin_fed(PinView::Repo { full_name }, Answer::Repo(Ok(repo)))
            == StepView::<PinView, PinnedView>::More(
            PinView::Head { full_name, branch: "main"@ },
        ),
        fails_as(
            pin_fed(PinView::Repo { full_name }, Answer::Repo(Err(error))),
            404,
            "no such repo "@ + in_quotes(full_name),
        ),
{
}

/// A branch or tag resolves to the commit that the forge says it points to, under
/// its own name. A ref that is no branch is looked for among the tags, and one
/// that is no tag either is not found. Any other failure is passed on.
pub proof fn refs_resolve_to_their_commits(
    full_name: Seq<char>,
    name: Seq<char>,
    target: Ref,
    error: ApiError,
)
    ensures
        ({
            let found = StepView::<PinView, PinnedView>::Done(
                PinnedView { label: name, commit: target.target.hash@ },
            );
            let passed = StepView::<PinView, PinnedView>::Failed(error@);
            let head = PinView::Head { full_name, branch: name };
            let branch = PinView::Branch { full_name, name };
            let tag = PinView::Tag { full_name, name };
            let missing = error matches ApiError::Api { status, .. } && status == 404;
            &&& pin_fed(head, Answer::Ref(Ok(target))) == found
            &&& pin_fed(branch, Answer::Ref(Ok(target))) == found
            &&& pin_fed(tag, Answer::Ref(Ok(target))) == found
            &&& pin_fed(head, Answer::Ref(Err(error))) == passed
            &&& missing ==> pin_fed(branch, Answer::Ref(Err(error))) == StepView::<
                PinView,
                PinnedView,
            >::More(tag)
            &&& missing ==> fails_as(
                pin_fed(tag, Answer::Ref(Err(error))),
                404,
                "no such ref "@ + in_quotes(name),
            )
            &&& !missing ==> pin_fed(branch, Answer::Ref(Err(error))) == passed
            &&& !missing ==> pin_fed(tag, Answer::Ref(Err(error))) == passed
        }),
{
}

/// A repository that was fetched is remembered under its own name, with its
/// default branch; nothing else that a resolution is answered is kept.
pub proof fn fetched_repositories_are_remembered(
    full_name: Seq<char>,
    p: PinView,
    repo: Repo,
    answer: Answer,
)
    ensures
        ({
            let fx = pin_effects(PinView::Repo { full_name }, Answer::Repo(Ok(repo)));
            &&& fx.len() == 1
            &&& fx[0] matches EffectView::StoreMeta(file, meta)
            &&& file == seq!["repos"@, encoded(repo.full_name@) + ".json"@]
            &&& meta.full_name == repo.full_name@
            &&& repo.mainbranch matches Some(m) ==> meta.branch == m.name@
            &&& repo.mainbranch is None ==> meta.branch == "main"@
        }),
        !(p is Repo) || !(answer matches Answer::Repo(Ok(_))) ==> pin_effects(p, answer).len() == 0,
{
}

/// `repo/tree` on its way to a commit.
pub open spec fn tree_resolving(full_name: Seq<char>, retry: bool, pin: PinView) -> TaskView {
    TaskView::RepoTree {
        tree: RepoTreeView::At { full_name, retry, at: TreeAtView::Resolve { full_name, pin } },
    }
}

/// `repo/log` on its way to a commit.
pub open spec fn log_resolving(
    full_name: Seq<char>,
    path: Option<Seq<char>>,
    limit: nat,
    pin: PinView,
) -> TaskView {
    TaskView::RepoLog { log: LogView::Resolve { full_name, path, limit, pin } }
}

/// `repo/blob_at` on its way to a commit.
pub open spec fn blob_resolving(full_name: Seq<char>, path: Seq<char>, pin: PinView) -> TaskView {
    TaskView::BlobAt { blob: BlobAtView::Resolve { full_name, path, pin } }
}

/// While a revision is resolved, every method asks what the resolution asks, does
/// what it does, and goes on as it goes on.
pub proof fn methods_resolve_alike(
    full_name: Seq<char>,
    retry: bool,
    path: Seq<char>,
    filter: Option<Seq<char>>,
    limit: nat,
    pin: PinView,
    answer: Answer,
    instance: Seq<char>,
)
    ensures
        ({
            let tree = tree_resolving(full_name, retry, pin);
            let log = log_resolving(full_name, filter, limit, pin);
            let blob = blob_resolving(full_name, path, pin);
            &&& task_ask(tree, instance) == pin_ask(pin, instance)
            &&& task_ask(log, instance) == pin_ask(pin, instance)
            &&& task_ask(blob, instance) == pin_ask(pin, instance)
            &&& task_effects(log, answer, instance) == pin_effects(pin, answer)
            &&& task_effects(blob, answer, instance) == pin_effects(pin, answer)
            &&& !(pin_fed(pin, answer) is Failed) ==> task_effects(tree, answer, instance)
                == pin_effects(pin, answer)
            &&& pin_fed(pin, answer) matches StepView::More(next) ==> {
                &&& task_fed(tree, answer, instance) == TurnView::More(
                    tree_resolving(full_name, retry, next),
                )
                &&& task_fed(log, answer, instance) == TurnView::More(
                    log_resolving(full_name, filter, limit, next),
                )
                &&& task_fed(blob, answer, instance) == TurnView::More(
                    blob_resolving(full_name, path, next),
                )
            }
            &&& pin_fed(pin, answer) matches StepView::Failed(e) ==> {
                &&& task_fed(log, answer, instance) == TurnView::Reply(Err(wire_error(e)))
                &&& task_fed(blob, answer, instance) == TurnView::Reply(Err(wire_error(e)))
                &&& !retry || !is_missing(e) ==> task_fed(tree, answer, instance)
                    == TurnView::Reply(Err(wire_error(e)))
            }
        }),
{
    let none = Seq::<EffectView>::empty();
    assert(pin_effects(pin, answer) + none =~= pin_effects(pin, answer));
}

/// Once a revision is resolved, its commit is what the methods go by: the tree is
/// looked up under that commit, and where a default branch is gone it is looked
/// for once more, after what was remembered of the repository is dropped.
pub proof fn trees_go_by_the_commit(
    full_name: Seq<char>,
    retry: bool,
    pin: PinView,
    pinned: PinnedView,
    answer: Answer,
    instance: Seq<char>,
)
    ensures
        ({
            let tree = tree_resolving(full_name, retry, pin);
            &&& pin_fed(pin, answer) == StepView::<PinView, PinnedView>::Done(pinned) ==> {
                &&& task_fed(tree, answer, instance) matches TurnView::More(after)
                &&& task_ask(after, instance) == AskView::Tree(
                    seq!["trees"@, encoded(full_name), encoded(pinned.commit) + ".json"@],
                )
                &&& after == at_commit(full_name, retry, pinned)
            }
            &&& pin_fed(pin, answer) matches StepView::Failed(e) ==> retry ==> is_missing(e) ==> {
                &&& task_fed(tree, answer, instance) == TurnView::More(
                    TaskView::RepoTree { tree: RepoTreeView::Refresh { full_name } },
                )
                &&& task_effects(tree, answer, instance) == pin_effects(pin, answer)
                    + seq![EffectView::DropMeta(seq!["repos"@, encoded(full_name) + ".json"@])]
            }
        }),
{
}

/// A repository that has moved is asked for anew, remembered anew, and its tree
/// is served from the beginning, without a further try. Where it cannot be had,
/// that is the answer.
pub proof fn moved_repositories_are_served_anew(
    full_name: Seq<char>,
    repo: Repo,
    error: ApiError,
    instance: Seq<char>,
)
    ensures
        ({
            let refresh = TaskView::RepoTree { tree: RepoTreeView::Refresh { full_name } };
            &&& task_ask(refresh, instance) == AskView::Repo(
                below(instance, full_name, Seq::empty()),
            )
            &&& task_fed(refresh, Answer::Repo(Ok(repo)), instance) == TurnView::More(
                tree_resolving(full_name, false, PinView::Meta { full_name }),
            )
            &&& task_effects(refresh, Answer::Repo(Ok(repo)), instance) == pin_effects(
                PinView::Repo { full_name },
                Answer::Repo(Ok(repo)),
            )
            &&& task_fed(refresh, Answer::Repo(Err(error)), instance) == TurnView::Reply(
                Err(wire_error(error@)),
            )
        }),
{
    paths_are_asked_for_below_the_instance(
        instance,
        Seq::empty(),
        '/',
        full_name,
        Seq::empty(),
    );
}

/// Whatever it fails with on its way, `repo/tree` answers with the failure, but
/// where something is missing and there is another try: then what is remembered of
/// the repository is dropped, and the repository is asked for anew.
pub proof fn failed_trees_are_tried_again_where_missing(
    full_name: Seq<char>,
    retry: bool,
    at: TreeAtView,
    answer: Answer,
    e: ErrorView,
    instance: Seq<char>,
)
    requires
        tree_fed(at, answer) == StepView::<TreeAtView, ServedView>::Failed(e),
    ensures
        ({
            let t = TaskView::RepoTree { tree: RepoTreeView::At { full_name, retry, at } };
            let missing = e matches ErrorView::Api { status, .. } && status == 404;
            &&& !(retry && missing) ==> {
                &&& task_fed(t, answer, instance) == TurnView::Reply(Err(wire_error(e)))
                &&& task_effects(t, answer, instance) == tree_effects(at, answer)
            }
            &&& retry && missing ==> {
                &&& task_fed(t, answer, instance) == TurnView::More(
                    TaskView::RepoTree { tree: RepoTreeView::Refresh { full_name } },
                )
                &&& task_effects(t, answer, instance) == tree_effects(at, answer)
                    + seq![EffectView::DropMeta(seq!["repos"@, encoded(full_name) + ".json"@])]
            }
        }),
{
    let none = Seq::<EffectView>::empty();
    assert(tree_effects(at, answer) + none =~= tree_effects(at, answer));
}

/// A failure to list a directory, and only that, fails a walk; looking
/// a listing up never does.
pub proof fn listings_fail_as_the_forge_fails(
    full_name: Seq<char>,
    pinned: PinnedView,
    walk: WalkView,
    error: ApiError,
    kept: Option<Tree>,
)
    ensures
        tree_fed(TreeAtView::Walk { pinned, walk }, Answer::Entries(Err(error))) == StepView::<
            TreeAtView,
            ServedView,
        >::Failed(error@),
        !(tree_fed(TreeAtView::Cached { full_name, pinned }, Answer::Tree(kept)) is Failed),
{
}

}
