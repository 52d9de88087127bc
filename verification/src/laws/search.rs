//! `search/repos` and `org/repos`: the workspaces that match, and their
//! repositories.

use super::code::{all_places, filters_keep_places};
use super::texts::{around, containing_is_standing_between, last_parts_follow_the_last};
use super::wire::array_member;
use crate::api::{ApiError, Paged, Repo, Workspace};
use crate::discovery::{matching, workspace_matches, SearchView};
use crate::exchange::{Answer, StepView};
use crate::handlers::wire_error;
use crate::handlers::search::{
    configured, found_items, group_items, names_object, repo_object, search_object, search_start,
    shown,
};
use crate::handlers::task::{task_fed, TaskView, TurnView};
use crate::json::{text_member, JsonView};
use crate::paging::{up_to, PagingView};
use crate::text::{after_last, has_text, lowercased};
use vstd::prelude::*;

verus! {

/// A workspace and a repository's name, with the slash between them.
pub open spec fn slashed(workspace: Seq<char>, name: Seq<char>) -> Seq<char> {
    workspace + seq!['/'] + name
}

/// A name is the last part of a full name.
pub open spec fn last_part(full_name: Seq<char>, name: Seq<char>) -> bool {
    &&& !name.contains('/')
    &&& full_name == name || exists|workspace: Seq<char>|
        full_name == #[trigger] slashed(workspace, name)
}

proof fn last_parts_are_last(s: Seq<char>)
    ensures
        last_part(s, after_last(s, '/')),
{
    if s.contains('/') {
        let k = last_slash(s, s.len() as int);
        let a = s.take(k);
        let b = s.skip(k + 1);
        if b.contains('/') {
            let i = choose|i: int| 0 <= i < b.len() && b[i] == '/';
            assert(s[k + 1 + i] == '/');
        }
        assert(s =~= slashed(a, b));
        last_parts_follow_the_last(a, '/', b);
    }
}

proof fn last_slash(s: Seq<char>, n: int) -> (k: int)
    requires
        0 <= n <= s.len(),
        s.contains('/'),
        forall|i: int| n <= i < s.len() ==> s[i] != '/',
    ensures
        0 <= k < s.len(),
        s[k] == '/',
        forall|i: int| k < i < s.len() ==> s[i] != '/',
    decreases n,
{
    if n > 0 && s[n - 1] == '/' {
        n - 1
    } else if n > 0 {
        last_slash(s, n - 1)
    } else {
        let i = choose|i: int| 0 <= i < s.len() && s[i] == '/';
        i
    }
}

/// A reply names repositories, each in its place.
pub open spec fn names_repos(v: JsonView, repos: Seq<Repo>) -> bool {
    array_member(v, "repos"@) matches Some(names) && {
        &&& names.len() == repos.len()
        &&& forall|i: int|
            0 <= i < repos.len() ==> (#[trigger] names[i] matches JsonView::Str(name) && last_part(
                repos[i].full_name@,
                name,
            ))
    }
}

proof fn names_are_shown(repos: Seq<Repo>)
    ensures
        names_repos(names_object(repos), repos),
{
    let names = array_member(names_object(repos), "repos"@)->0;
    assert forall|i: int| 0 <= i < repos.len() implies (#[trigger] names[i] matches JsonView::Str(
        name,
    ) && last_part(repos[i].full_name@, name)) by {
        last_parts_are_last(repos[i].full_name@);
    }
}

/// `org/repos` names every repository of the pages, each by the last part of its
/// full name and in order, up to the cap. A page that leads to another is followed
/// as long as the cap is not reached, and a failure is passed on.
pub proof fn repositories_are_named(
    cap: nat,
    before: Seq<Repo>,
    here: Seq<char>,
    page: Paged<Repo>,
    error: ApiError,
    instance: Seq<char>,
)
    ensures
        ({
            let task = TaskView::OrgRepos {
                paging: PagingView { cap, out: before, next: here },
            };
            let all = before + page.values@;
            let turn = task_fed(task, Answer::Repos(Ok(page)), instance);
            &&& all.len() >= cap ==> (turn matches TurnView::Reply(Ok(v)) && names_repos(
                v,
                all.take(cap as int),
            ))
            &&& all.len() < cap && page.next is None ==> (turn matches TurnView::Reply(Ok(v))
                && names_repos(v, all))
            &&& page.next matches Some(next) ==> all.len() < cap ==> turn == TurnView::More(
                TaskView::OrgRepos { paging: PagingView { cap, out: all, next: next@ } },
            )
            &&& task_fed(task, Answer::Repos(Err(error)), instance) == TurnView::Reply(
                Err(wire_error(error@)),
            )
        }),
{
    let all = before + page.values@;
    names_are_shown(all);
    names_are_shown(all.take(cap as int));
}

/// A workspace fits a query, which is in lower case: the query stands somewhere
/// in its slug or in its name, both in lower case.
pub open spec fn workspace_fits(w: Workspace, query: Seq<char>) -> bool {
    ||| around(lowercased(w.slug@), query)
    ||| around(
        lowercased(
            match w.name {
                Some(name) => name@,
                None => Seq::empty(),
            },
        ),
        query,
    )
}

/// The repositories of workspaces are to be listed: of the first five of those at
/// `places`, one after another; where there is none, the search has its result.
pub open spec fn looks_into(
    s: StepView<SearchView, Seq<(Workspace, Seq<Repo>)>>,
    found: Seq<Workspace>,
) -> bool {
    &&& found.len() == 0 ==> (s matches StepView::Done(groups) && groups.len() == 0)
    &&& found.len() > 0 ==> {
        &&& s matches StepView::More(SearchView::List { groups, workspace, paging, rest })
        &&& groups.len() == 0
        &&& workspace == found[0]
        &&& lists_repos(paging, workspace)
        &&& rest.len() == if found.len() > 5 {
            4
        } else {
            found.len() - 1
        }
        &&& forall|i: int| 0 <= i < rest.len() ==> #[trigger] rest[i] == found[i + 1]
    }
}

/// The listing of a workspace's repositories, up to 500 of them, at its beginning.
pub open spec fn lists_repos(paging: PagingView<Repo>, w: Workspace) -> bool {
    &&& paging.next == "/2.0/repositories/"@ + w.slug@ + "?pagelen=100&sort=-updated_on"@
    &&& paging.out.len() == 0
    &&& paging.cap == 500
}

/// Where workspaces were discovered, as far as the cap allows, the search looks
/// into those that fit the query, in the order in which they were listed: `places`
/// are theirs.
pub proof fn workspaces_that_fit_are_looked_into(
    shown_query: Seq<char>,
    query: Seq<char>,
    cap: nat,
    before: Seq<Workspace>,
    here: Seq<char>,
    page: Paged<Workspace>,
    error: ApiError,
    instance: Seq<char>,
) -> (r: (Seq<int>, Seq<Workspace>))
    ensures
        ({
            let (places, found) = r;
            let listed = before + page.values@;
            let all = up_to(listed, cap);
            let last = page.next is None || listed.len() >= cap;
            let task = TaskView::SearchRepos {
                query: shown_query,
                search: SearchView::Discover {
                    query,
                    paging: PagingView { cap, out: before, next: here },
                },
            };
            let turn = task_fed(task, Answer::Workspaces(Ok(page)), instance);
            &&& all_places(all, |w: Workspace| workspace_fits(w, query), places)
            &&& found.len() == places.len()
            &&& forall|k: int| 0 <= k < found.len() ==> #[trigger] found[k] == all[places[k]]
            &&& last && found.len() > 0 ==> {
                &&& turn matches TurnView::More(TaskView::SearchRepos { query: q, search })
                &&& q == shown_query
                &&& looks_into(StepView::More(search), found)
            }
            &&& last && found.len() == 0 ==> (turn matches TurnView::Reply(Ok(v))
                && offers(v, shown_query))
            &&& page.next matches Some(next) ==> !last ==> turn == TurnView::More(
                TaskView::SearchRepos {
                    query: shown_query,
                    search: SearchView::Discover {
                        query,
                        paging: PagingView { cap, out: all, next: next@ },
                    },
                },
            )
            &&& task_fed(task, Answer::Workspaces(Err(error)), instance) == TurnView::Reply(
                Err(wire_error(error@)),
            )
        }),
{
    let listed = before + page.values@;
    let all = up_to(listed, cap);
    if listed.len() >= cap {
        assert(listed.take(cap as int) =~= all);
    }
    let pred = |w: Workspace| workspace_matches(w, query);
    let fits = |w: Workspace| workspace_fits(w, query);
    let places = filters_keep_places(all, pred);
    let found = matching(all, query);
    assert forall|w: Workspace| #[trigger] pred(w) == fits(w) by {
        containing_is_standing_between(lowercased(w.slug@), query);
        containing_is_standing_between(
            lowercased(
                match w.name {
                    Some(name) => name@,
                    None => Seq::empty(),
                },
            ),
            query,
        );
    }
    assert forall|i: int| 0 <= i < all.len() && #[trigger] fits(all[i]) implies places.contains(
        i,
    ) by {
        assert(pred(all[i]));
    }
    nothing_found_offers_the_query(shown_query);
    (places, found)
}

/// A reply offers a text as a workspace, and nothing else.
pub open spec fn offers(v: JsonView, query: Seq<char>) -> bool {
    array_member(v, "items"@) matches Some(items) && items.len() == 1 && text_member(
        items[0],
        "org"@,
    ) == Some(query)
}

proof fn nothing_found_offers_the_query(query: Seq<char>)
    ensures
        offers(search_object(query, Seq::empty()), query),
{
    assert(found_items(Seq::empty(), Seq::empty()).len() == 0);
}

/// Where workspaces are configured, a search looks into those whose slug, in
/// lower case, holds the query in lower case: `places` are theirs. Otherwise the
/// workspaces of the account are discovered, up to 200 of them.
pub proof fn searches_begin(slugs: Seq<String>, query: Seq<char>) -> (r: (
    Seq<int>,
    Seq<Workspace>,
))
    ensures
        ({
            let (places, found) = r;
            let start = search_start(slugs, query);
            &&& all_places(slugs, |s: String| around(lowercased(s@), lowercased(query)), places)
            &&& found.len() == places.len()
            &&& forall|k: int|
                0 <= k < found.len() ==> (#[trigger] found[k]).slug == slugs[places[k]]
                    && found[k].name is None
            &&& slugs.len() > 0 ==> looks_into(start, found)
            &&& slugs.len() == 0 ==> {
                &&& start matches StepView::More(SearchView::Discover { query: q, paging })
                &&& q == lowercased(query)
                &&& paging.next == "/2.0/user/workspaces?pagelen=100"@
                &&& paging.out.len() == 0
                &&& paging.cap == 200
            }
        }),
{
    let lower = lowercased(query);
    let pred = |s: String| has_text(lowercased(s@), lower);
    let fits = |s: String| around(lowercased(s@), lowercased(query));
    let places = filters_keep_places(slugs, pred);
    let found = configured(slugs, lower);
    assert forall|s: String| #[trigger] pred(s) == fits(s) by {
        containing_is_standing_between(lowercased(s@), lower);
    }
    assert forall|i: int| 0 <= i < slugs.len() && #[trigger] fits(slugs[i]) implies places.contains(
        i,
    ) by {
        assert(pred(slugs[i]));
    }
    assert(found.len() == slugs.filter(pred).len());
    assert forall|k: int| 0 <= k < found.len() implies (#[trigger] found[k]).slug
        == slugs[places[k]] && found[k].name is None by {
        assert(slugs.filter(pred)[k] == slugs[places[k]]);
    }
    (places, found)
}

/// Repositories that a search shows of a workspace: at most 10.
pub open spec fn at_most_ten(repos: Seq<Repo>) -> int {
    if repos.len() > 10 {
        10
    } else {
        repos.len() as int
    }
}

/// Items show workspaces with their repositories: at each start stands the
/// workspace, and behind it the first ten of its repositories, then the next
/// workspace.
pub open spec fn shows_groups(
    items: Seq<JsonView>,
    groups: Seq<(Workspace, Seq<Repo>)>,
    starts: Seq<int>,
) -> bool {
    &&& 0 < starts.len() <= groups.len() + 1
    &&& starts[0] == 0
    &&& starts.last() == items.len()
    &&& forall|g: int|
        0 <= g < starts.len() - 1 ==> {
            &&& 0 <= #[trigger] starts[g] < items.len()
            &&& starts[g + 1] == starts[g] + 1 + at_most_ten(groups[g].1)
            &&& text_member(items[starts[g]], "org"@) == Some(groups[g].0.slug@)
        }
    &&& forall|g: int, k: int|
        #![trigger starts[g], groups[g].1[k]]
        0 <= g < starts.len() - 1 && 0 <= k < at_most_ten(groups[g].1) ==> text_member(
            items[starts[g] + 1 + k],
            "full_name"@,
        ) == Some(groups[g].1[k].full_name@)
}

proof fn groups_follow(
    items: Seq<JsonView>,
    done: Seq<(Workspace, Seq<Repo>)>,
    starts: Seq<int>,
    groups: Seq<(Workspace, Seq<Repo>)>,
) -> (all: Seq<int>)
    requires
        items.len() < 20,
        starts.len() == done.len() + 1,
        shows_groups(items, done, starts),
        forall|g: int| 0 <= g < starts.len() - 1 ==> #[trigger] starts[g] < 20,
    ensures
        shows_groups(found_items(items, groups), done + groups, all),
        forall|g: int| 0 <= g < all.len() - 1 ==> #[trigger] all[g] < 20,
        all.len() < (done + groups).len() + 1 ==> found_items(items, groups).len() >= 20,
    decreases groups.len(),
{
    if groups.len() == 0 {
        assert(done + groups =~= done);
        starts
    } else {
        let group = groups[0];
        let more = items + group_items(group);
        let next = done.push(group);
        let begins = starts.push(more.len() as int);
        let n = done.len() as int;
        assert(starts.last() == starts[n]);
        assert(group_items(group).len() == 1 + at_most_ten(group.1));
        assert forall|g: int| 0 <= g < begins.len() - 1 implies {
            &&& 0 <= #[trigger] begins[g] < more.len()
            &&& begins[g + 1] == begins[g] + 1 + at_most_ten(next[g].1)
            &&& text_member(more[begins[g]], "org"@) == Some(next[g].0.slug@)
        } by {
            if g < n {
                assert(begins[g] == starts[g]);
                assert(next[g] == done[g]);
                assert(more[starts[g]] == items[starts[g]]);
            } else {
                assert(more[items.len() as int] == group_items(group)[0]);
            }
        }
        assert forall|g: int, k: int|
            #![trigger begins[g], next[g].1[k]]
            0 <= g < begins.len() - 1 && 0 <= k < at_most_ten(next[g].1) implies text_member(
            more[begins[g] + 1 + k],
            "full_name"@,
        ) == Some(next[g].1[k].full_name@) by {
            if g < n {
                assert(begins[g] == starts[g]);
                assert(next[g] == done[g]);
                assert(starts[g] + 1 + k < items.len()) by {
                    starts_ascend(items, done, starts, g);
                }
                assert(more[starts[g] + 1 + k] == items[starts[g] + 1 + k]);
                assert(done[g].1[k] == next[g].1[k]);
            } else {
                assert(more[items.len() + 1 + k] == group_items(group)[1 + k]);
                assert(group_items(group)[1 + k] == repo_object(shown(group.1)[k]));
            }
        }
        assert(shows_groups(more, next, begins));
        let rest = groups.drop_first();
        assert(next + rest =~= done + groups);
        if more.len() >= 20 {
            let all = done + groups;
            assert forall|g: int| 0 <= g < next.len() implies #[trigger] next[g] == all[g] by {}
            assert(shows_groups(more, all, begins)) by {
                assert forall|g: int, k: int|
                    #![trigger begins[g], all[g].1[k]]
                    0 <= g < begins.len() - 1 && 0 <= k < at_most_ten(
                        all[g].1,
                    ) implies text_member(more[begins[g] + 1 + k], "full_name"@) == Some(
                    all[g].1[k].full_name@,
                ) by {
                    assert(next[g] == all[g]);
                    assert(next[g].1[k] == all[g].1[k]);
                }
                assert forall|g: int| 0 <= g < begins.len() - 1 implies {
                    &&& 0 <= #[trigger] begins[g] < more.len()
                    &&& begins[g + 1] == begins[g] + 1 + at_most_ten(all[g].1)
                    &&& text_member(more[begins[g]], "org"@) == Some(all[g].0.slug@)
                } by {
                    assert(next[g] == all[g]);
                }
            }
            begins
        } else {
            groups_follow(more, next, begins, rest)
        }
    }
}

proof fn starts_ascend(
    items: Seq<JsonView>,
    groups: Seq<(Workspace, Seq<Repo>)>,
    starts: Seq<int>,
    g: int,
)
    requires
        shows_groups(items, groups, starts),
        0 <= g < starts.len() - 1,
    ensures
        starts[g] + 1 + at_most_ten(groups[g].1) <= items.len(),
{
    assert(starts[g + 1] == starts[g] + 1 + at_most_ten(groups[g].1));
    if g + 1 < starts.len() - 1 {
        assert(0 <= starts[g + 1] < items.len());
    }
}

/// The reply to a search shows the workspaces that were looked into, each with
/// the first ten of its repositories and in order, until 20 items stand there:
/// `starts` is where each of them stands. Where none was found, the query is
/// offered instead.
pub proof fn searches_show_workspaces(
    query: Seq<char>,
    groups: Seq<(Workspace, Seq<Repo>)>,
) -> (starts: Seq<int>)
    ensures
        groups.len() == 0 ==> offers(search_object(query, groups), query),
        groups.len() > 0 ==> {
            &&& array_member(search_object(query, groups), "items"@) matches Some(items)
            &&& shows_groups(items, groups, starts)
            &&& forall|g: int| 0 <= g < starts.len() - 1 ==> #[trigger] starts[g] < 20
            &&& starts.len() < groups.len() + 1 ==> items.len() >= 20
        },
{
    let none = Seq::<(Workspace, Seq<Repo>)>::empty();
    if groups.len() == 0 {
        assert(groups =~= none);
        nothing_found_offers_the_query(query);
        seq![0]
    } else {
        let starts = groups_follow(Seq::empty(), none, seq![0], groups);
        assert(none + groups =~= groups);
        let items = found_items(Seq::empty(), groups);
        assert(items.len() > 0) by {
            if starts.len() == 1 {
                assert(starts.last() == 0);
            } else {
                assert(0 <= starts[0] < items.len());
            }
        }
        starts
    }
}

/// Once the repositories of a workspace are listed, as far as the cap allows, it
/// is shown with all of them, and the next workspace is listed; behind the last one the search is answered.
/// A page that leads to another is followed, and a failure is passed on.
pub proof fn workspaces_are_listed_one_after_another(
    query: Seq<char>,
    groups: Seq<(Workspace, Seq<Repo>)>,
    workspace: Workspace,
    rest: Seq<Workspace>,
    cap: nat,
    before: Seq<Repo>,
    here: Seq<char>,
    page: Paged<Repo>,
    error: ApiError,
    instance: Seq<char>,
)
    ensures
        ({
            let paging = PagingView { cap, out: before, next: here };
            let task = TaskView::SearchRepos {
                query,
                search: SearchView::List { groups, workspace, paging, rest },
            };
            let listed = before + page.values@;
            let all = up_to(listed, cap);
            let last = page.next is None || listed.len() >= cap;
            let now = groups.push((workspace, all));
            let turn = task_fed(task, Answer::Repos(Ok(page)), instance);
            &&& page.next matches Some(next) ==> !last ==> turn == TurnView::More(
                TaskView::SearchRepos {
                    query,
                    search: SearchView::List {
                        groups,
                        workspace,
                        paging: PagingView { cap, out: all, next: next@ },
                        rest,
                    },
                },
            )
            &&& last && rest.len() == 0 ==> turn == TurnView::Reply(
                Ok(search_object(query, now)),
            )
            &&& last && rest.len() > 0 ==> {
                &&& turn matches TurnView::More(
                    TaskView::SearchRepos {
                        query: q,
                        search: SearchView::List {
                            groups: shown_groups,
                            workspace: w,
                            paging: next_paging,
                            rest: left,
                        },
                    },
                )
                &&& q == query
                &&& shown_groups == now
                &&& w == rest[0]
                &&& lists_repos(next_paging, w)
                &&& left == rest.drop_first()
            }
            &&& task_fed(task, Answer::Repos(Err(error)), instance) == TurnView::Reply(
                Err(wire_error(error@)),
            )
        }),
{
    let listed = before + page.values@;
    if listed.len() >= cap {
        assert(listed.take(cap as int) =~= up_to(listed, cap));
    }
}

}
