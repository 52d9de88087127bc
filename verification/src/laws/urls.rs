//! Addresses: what was asked for stands in them.

use crate::api::{NamedLink, Repo};
use crate::exchange::Answer;
use crate::handlers::task::{task_fed, TaskView, TurnView};
use crate::handlers::urls::PageView;
use crate::json::text_member;
use crate::text::decimal;
use vstd::prelude::*;

verus! {

/// The repository's page: the link that it has, otherwise its usual address.
pub open spec fn home(repo: Repo, home: Seq<char>) -> bool {
    &&& repo.links matches Some(links) ==> links.html matches Some(html) ==> home == html.href@
    &&& (repo.links is None || repo.links->0.html is None) ==> home == "https://bitbucket.org/"@
        + repo.full_name@
}

/// The fragment of a line: only files have one.
pub open spec fn fragment(line: Option<u64>, is_file: bool) -> Seq<char> {
    if is_file && line is Some {
        "#lines-"@ + decimal(line->0 as nat)
    } else {
        Seq::empty()
    }
}

/// The reply to a request for a page.
pub open spec fn page_reply(page: PageView, repo: Repo, instance: Seq<char>) -> Option<Seq<char>> {
    match task_fed(TaskView::WebUrl { page }, Answer::Repo(Ok(repo)), instance) {
        TurnView::Reply(Ok(v)) => text_member(v, "url"@),
        _ => None,
    }
}

/// The address of a path stands below the repository's page, on the branch that
/// was asked for, whatever the default branch is; where no branch was asked for,
/// on the default one, `main` where the repository names none. Without a path it
/// is the repository's page. A line of a file is a fragment behind it.
pub proof fn pages_are_where_they_were_asked_for(
    page: PageView,
    repo: Repo,
    at: Seq<char>,
    instance: Seq<char>,
)
    requires
        home(repo, at),
    ensures
        page.path.len() > 0 && page.branch.len() > 0 ==> page_reply(page, repo, instance) == Some(
            at + "/src/"@ + page.branch + "/"@ + page.path + fragment(page.line, page.is_file),
        ),
        page.path.len() > 0 && page.branch.len() == 0 && repo.mainbranch is Some ==> page_reply(
            page,
            repo,
            instance,
        ) == Some(
            at + "/src/"@ + repo.mainbranch->0.name@ + "/"@ + page.path + fragment(
                page.line,
                page.is_file,
            ),
        ),
        page.path.len() > 0 && page.branch.len() == 0 && repo.mainbranch is None ==> page_reply(
            page,
            repo,
            instance,
        ) == Some(
            at + "/src/"@ + "main"@ + "/"@ + page.path + fragment(page.line, page.is_file),
        ),
        page.path.len() == 0 ==> page_reply(page, repo, instance) == Some(
            at + fragment(page.line, page.is_file),
        ),
{
    assert(at == repo.page());
    let branch = if page.branch.len() == 0 {
        repo.branch_name()
    } else {
        page.branch
    };
    let below = at + "/src/"@ + branch + "/"@ + page.path;
    let none = Seq::<char>::empty();
    assert(below + none =~= below);
    assert(at + none =~= at);
    assert(below + ("#lines-"@ + decimal(page.line->0 as nat)) =~= below + "#lines-"@ + decimal(
        page.line->0 as nat,
    ));
    assert(at + ("#lines-"@ + decimal(page.line->0 as nat)) =~= at + "#lines-"@ + decimal(
        page.line->0 as nat,
    ));
}

/// Branches without a slash have pages of their own: two requests for a path that
/// differ in such a branch get different addresses.
pub proof fn branches_have_pages_of_their_own(
    page: PageView,
    other: Seq<char>,
    repo: Repo,
    instance: Seq<char>,
)
    requires
        page.path.len() > 0,
        page.branch.len() > 0 && !page.branch.contains('/'),
        other.len() > 0 && !other.contains('/'),
        page.branch != other,
    ensures
        page_reply(page, repo, instance) != page_reply(
            PageView { branch: other, ..page },
            repo,
            instance,
        ),
{
    let at = repo.page();
    pages_are_where_they_were_asked_for(page, repo, at, instance);
    pages_are_where_they_were_asked_for(PageView { branch: other, ..page }, repo, at, instance);
    let f = fragment(page.line, page.is_file);
    let head = at + "/src/"@;
    let a = head + page.branch + "/"@ + page.path + f;
    let b = head + other + "/"@ + page.path + f;
    reveal_strlit("/");
    if a == b {
        assert(a.len() == b.len());
        assert(page.branch.len() == other.len());
        assert forall|i: int| 0 <= i < other.len() implies page.branch[i] == other[i] by {
            assert(a[head.len() + i] == page.branch[i]);
            assert(b[head.len() + i] == other[i]);
        }
        assert(page.branch =~= other);
    }
}

/// The remote to clone from is the first `https` link that the repository has,
/// otherwise its first link, otherwise its usual address.
pub proof fn clones_come_from_the_https_link(
    full_name: Seq<char>,
    repo: Repo,
    links: Seq<NamedLink>,
    n: int,
    instance: Seq<char>,
)
    ensures
        ({
            let turn = task_fed(
                TaskView::CloneUrl { full_name },
                Answer::Repo(Ok(repo)),
                instance,
            );
            &&& turn matches TurnView::Reply(Ok(v))
            &&& text_member(v, "clone_url"@) matches Some(remote)
            &&& (repo.links is None || repo.links->0.clone_wire is None
                || repo.links->0.clone_wire->0@.len() == 0) ==> remote == "https://bitbucket.org/"@
                + repo.full_name@ + ".git"@
            &&& repo.links is Some && repo.links->0.clone_wire is Some
                && repo.links->0.clone_wire->0@ == links && 0 <= n < links.len() ==> {
                &&& (links[n].name@ == "https"@ && forall|k: int|
                    0 <= k < n ==> (#[trigger] links[k]).name@ != "https"@) ==> remote
                    == links[n].href@
                &&& (forall|k: int| 0 <= k < links.len() ==> (#[trigger] links[k]).name@
                    != "https"@) ==> remote == links[0].href@
            }
        }),
{
    if repo.links is Some && repo.links->0.clone_wire is Some && repo.links->0.clone_wire->0@
        == links && 0 <= n < links.len() {
        if links[n].name@ == "https"@ && forall|k: int|
            0 <= k < n ==> (#[trigger] links[k]).name@ != "https"@ {
            crate::api::first_named_is_first(links, "https"@, n);
        }
        if forall|k: int| 0 <= k < links.len() ==> (#[trigger] links[k]).name@ != "https"@ {
            crate::api::first_named_is_first(links, "https"@, links.len() as int);
        }
    }
}

}
