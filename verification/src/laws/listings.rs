//! Listings: what is asked for page by page, and where a listing goes on.

use super::requests::lists_history;
use super::revision::{below, log_resolving, paths_are_asked_for_below_the_instance};
use super::texts::repeated_ends_come_off;
use super::tree::{at_commit, on_walk};
use crate::api::{full_url, ApiError, Commit, NamedRef, Repo, Workspace};
use crate::cache::encoded;
use crate::discovery::SearchView;
use crate::exchange::{Answer, AskView, EffectView, StepView};
use crate::handlers::wire_error;
use crate::handlers::code::{AccountView, CodeView};
use crate::handlers::log::LogView;
use crate::handlers::refs::RefsView;
use crate::handlers::task::{task_ask, task_effects, task_fed, TaskView, TurnView};
use crate::handlers::tree::{meta_of, pin_fed, PinView, PinnedView};
use crate::handlers::urls::PageView;
use crate::paging::PagingView;
use crate::walk::{dir_path, walk_from_root, WalkView};
use vstd::prelude::*;

verus! {

/// Every listing asks for its next page: a path below the instance, or the link
/// that the page before gave.
pub proof fn next_pages_are_asked_for(
    full_name: Seq<char>,
    query: Seq<char>,
    lower: Seq<char>,
    repos: PagingView<Repo>,
    refs: PagingView<NamedRef>,
    branches: Seq<NamedRef>,
    commits: PagingView<Commit>,
    workspaces: PagingView<Workspace>,
    groups: Seq<(Workspace, Seq<Repo>)>,
    workspace: Workspace,
    rest: Seq<Workspace>,
    account: AccountView,
    pinned: PinnedView,
    retry: bool,
    walk: WalkView,
    instance: Seq<char>,
)
    ensures
        task_ask(TaskView::OrgRepos { paging: repos }, instance) == AskView::Repos(
            full_url(instance, repos.next),
        ),
        task_ask(
            TaskView::RepoRefs { refs: RefsView::Branches { full_name, paging: refs } },
            instance,
        ) == AskView::Refs(full_url(instance, refs.next)),
        task_ask(
            TaskView::RepoRefs { refs: RefsView::Tags { full_name, branches, paging: refs } },
            instance,
        ) == AskView::Refs(full_url(instance, refs.next)),
        task_ask(TaskView::RepoLog { log: LogView::List { log: commits } }, instance)
            == AskView::Commits(full_url(instance, commits.next)),
        task_ask(
            TaskView::SearchRepos {
                query,
                search: SearchView::Discover { query: lower, paging: workspaces },
            },
            instance,
        ) == AskView::Workspaces(full_url(instance, workspaces.next)),
        task_ask(
            TaskView::SearchRepos {
                query,
                search: SearchView::List { groups, workspace, paging: repos, rest },
            },
            instance,
        ) == AskView::Repos(full_url(instance, repos.next)),
        task_ask(
            TaskView::SearchCode { code: CodeView::Scope { account, paging: repos } },
            instance,
        ) == AskView::Repos(full_url(instance, repos.next)),
        task_ask(on_walk(full_name, retry, pinned, walk), instance) == AskView::Entries(
            full_url(instance, walk.dir.next),
        ),
{
}

/// What is known of the default branch is asked for once branches and tags are
/// listed: first of the cache, then of the forge. A repository that was fetched is
/// remembered, and a listing that fails ends with the failure.
pub proof fn refs_ask_for_the_default_branch(
    full_name: Seq<char>,
    branches: Seq<NamedRef>,
    tags: Seq<NamedRef>,
    paging: PagingView<NamedRef>,
    repo: Repo,
    error: ApiError,
    instance: Seq<char>,
)
    ensures
        ({
            let meta = TaskView::RepoRefs { refs: RefsView::Meta { full_name, branches, tags } };
            let fetched = TaskView::RepoRefs { refs: RefsView::Repo { full_name, branches, tags } };
            let failed = TurnView::Reply(Err(wire_error(error@)));
            &&& task_ask(meta, instance) == AskView::Meta(
                seq!["repos"@, encoded(full_name) + ".json"@],
            )
            &&& task_ask(fetched, instance) == AskView::Repo(
                below(instance, full_name, Seq::empty()),
            )
            &&& task_effects(fetched, Answer::Repo(Ok(repo)), instance) == seq![
                EffectView::StoreMeta(
                    seq!["repos"@, encoded(repo.full_name@) + ".json"@],
                    meta_of(repo),
                ),
            ]
            &&& task_effects(fetched, Answer::Repo(Err(error)), instance).len() == 0
            &&& task_fed(
                TaskView::RepoRefs { refs: RefsView::Branches { full_name, paging } },
                Answer::Refs(Err(error)),
                instance,
            ) == failed
            &&& task_fed(
                TaskView::RepoRefs { refs: RefsView::Tags { full_name, branches, paging } },
                Answer::Refs(Err(error)),
                instance,
            ) == failed
        }),
{
    paths_are_asked_for_below_the_instance(
        instance,
        Seq::empty(),
        '/',
        full_name,
        Seq::empty(),
    );
}

/// The addresses of a repository come from the repository itself, and a failure
/// to get it is the answer.
pub proof fn addresses_ask_for_the_repository(
    full_name: Seq<char>,
    page: PageView,
    error: ApiError,
    instance: Seq<char>,
)
    ensures
        task_ask(TaskView::CloneUrl { full_name }, instance) == AskView::Repo(
            below(instance, full_name, Seq::empty()),
        ),
        task_ask(TaskView::WebUrl { page }, instance) == AskView::Repo(
            below(instance, page.full_name, Seq::empty()),
        ),
        task_fed(TaskView::CloneUrl { full_name }, Answer::Repo(Err(error)), instance)
            == TurnView::Reply(Err(wire_error(error@))),
        task_fed(TaskView::WebUrl { page }, Answer::Repo(Err(error)), instance) == TurnView::Reply(
            Err(wire_error(error@)),
        ),
{
    let none = Seq::<char>::empty();
    paths_are_asked_for_below_the_instance(instance, none, '/', full_name, none);
    paths_are_asked_for_below_the_instance(instance, none, '/', page.full_name, none);
}

/// A history is listed from the commit that its revision resolved to, and a
/// failure to list it is the answer.
pub proof fn histories_go_by_the_commit(
    full_name: Seq<char>,
    path: Option<Seq<char>>,
    limit: nat,
    pin: PinView,
    pinned: PinnedView,
    answer: Answer,
    log: PagingView<Commit>,
    error: ApiError,
    instance: Seq<char>,
)
    ensures
        pin_fed(pin, answer) == StepView::<PinView, PinnedView>::Done(pinned) ==> lists_history(
            task_fed(log_resolving(full_name, path, limit, pin), answer, instance),
            full_name,
            pinned.commit,
            path,
            limit,
        ),
        task_fed(
            TaskView::RepoLog { log: LogView::List { log } },
            Answer::Commits(Err(error)),
            instance,
        ) == TurnView::Reply(Err(wire_error(error@))),
{
}

/// A directory is listed at the commit: the root without a path, any other
/// directory by its path, whether or not that ends in a slash.
pub proof fn directories_are_asked_for_by_path(
    full_name: Seq<char>,
    commit: Seq<char>,
    dir: Seq<char>,
    instance: Seq<char>,
)
    requires
        dir.len() > 0,
        dir.last() != '/',
    ensures
        full_url(instance, dir_path(full_name, commit, Seq::empty())) == below(
            instance,
            full_name,
            "/src/"@ + commit + "/?format=entries&pagelen=100"@,
        ),
        full_url(instance, dir_path(full_name, commit, dir)) == below(
            instance,
            full_name,
            "/src/"@ + commit + "/"@ + dir + "/?format=entries&pagelen=100"@,
        ),
        dir_path(full_name, commit, dir.push('/')) == dir_path(full_name, commit, dir),
{
    reveal_strlit("/?format=entries&pagelen=100");
    reveal_strlit("?format=entries&pagelen=100");
    reveal_strlit("/");
    let tail = "/?format=entries&pagelen=100"@;
    assert(tail =~= "/"@ + "?format=entries&pagelen=100"@);
    repeated_ends_come_off(dir, '/');
    let root = "/src/"@ + commit + tail;
    let below_root = "/src/"@ + commit + "/"@ + dir + tail;
    paths_are_asked_for_below_the_instance(instance, dir, '/', full_name, root);
    paths_are_asked_for_below_the_instance(instance, dir, '/', full_name, below_root);
    assert(dir_path(full_name, commit, Seq::empty()) =~= "/2.0/repositories/"@ + full_name + root);
    assert(dir_path(full_name, commit, dir) =~= "/2.0/repositories/"@ + full_name + below_root);
}

/// Where no tree is kept at a commit, its root is listed first; a listing that
/// fails ends the walk with the failure, unless the tree is looked for once more.
pub proof fn walks_begin_with_the_root(
    full_name: Seq<char>,
    pinned: PinnedView,
    retry: bool,
    walk: WalkView,
    error: ApiError,
    instance: Seq<char>,
)
    ensures
        ({
            let turn = task_fed(at_commit(full_name, retry, pinned), Answer::Tree(None), instance);
            &&& turn matches TurnView::More(t)
            &&& task_ask(t, instance) == AskView::Entries(
                below(
                    instance,
                    full_name,
                    "/src/"@ + pinned.commit + "/?format=entries&pagelen=100"@,
                ),
            )
            &&& t == on_walk(full_name, retry, pinned, walk_from_root(full_name, pinned.commit))
        }),
        task_fed(on_walk(full_name, false, pinned, walk), Answer::Entries(Err(error)), instance)
            == TurnView::Reply(Err(wire_error(error@))),
{
    directories_are_asked_for_by_path(full_name, pinned.commit, seq!['a'], instance);
}

}
