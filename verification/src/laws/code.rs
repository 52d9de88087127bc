//! `search/code`: which files of a tree and which lines of a file a query finds.

use super::texts::{
    around, containing_is_standing_between, prefixes_come_off, splits_are_at_the_first,
};
use super::wire::array_member;
use crate::api::{full_url, ApiError, Paged, Repo};
use crate::cache::EntryView;
use crate::exchange::{Answer, AskView, EffectView, StepView};
use crate::handlers::{wire_error, WireErrorView};
use crate::handlers::blob::{fetch_ask, fetch_effects, fetch_fed, fetch_start, FetchView};
use crate::handlers::code::{
    account_of, blob_grepped, code_fed, code_start, filter_of, grep_next, hit_object, no_index,
    no_scope, AccountView, CodeView, OutcomeView,
};
use crate::handlers::query::{
    candidates, ends_in, grepped, holds_all, is_term, line_matches, match_object, matching_lines,
    path_wanted, qualifier, terms_of, wanted, FilterView,
};
use crate::handlers::task::{task_ask, task_effects, task_fed, TaskView, TurnView};
use crate::handlers::tree::{head_tree, tree_ask, tree_effects, tree_fed, ServedView, TreeAtView};
use crate::json::{bool_member, text_member, uint_member, JsonView};
use crate::paging::{up_to, PagingView};
use crate::text::{after_prefix, has_text, lines_of, lowercased, without_leading, words};
use vstd::prelude::*;
use vstd::utf8::{decode_utf8, valid_utf8};

verus! {

/// Places of a sequence, from the first on: all those, and only those, at which a
/// property holds.
pub open spec fn all_places<A>(s: Seq<A>, holds: spec_fn(A) -> bool, places: Seq<int>) -> bool {
    &&& forall|j: int, k: int| 0 <= j < k < places.len() ==> places[j] < places[k]
    &&& forall|k: int|
        0 <= k < places.len() ==> 0 <= #[trigger] places[k] < s.len() && holds(s[places[k]])
    &&& forall|i: int| 0 <= i < s.len() && #[trigger] holds(s[i]) ==> places.contains(i)
}

pub proof fn filters_keep_places<A>(s: Seq<A>, holds: spec_fn(A) -> bool) -> (places: Seq<int>)
    ensures
        all_places(s, holds, places),
        s.filter(holds).len() == places.len(),
        forall|k: int| 0 <= k < places.len() ==> #[trigger] s.filter(holds)[k] == s[places[k]],
    decreases s.len(),
{
    if s.len() == 0 {
        assert(s.filter(holds) =~= s);
        Seq::empty()
    } else {
        let before = s.drop_last();
        let places = filters_keep_places(before, holds);
        before.lemma_filter_push(s.last(), holds);
        assert(s =~= before.push(s.last()));
        let n = before.len() as int;
        let more = if holds(s.last()) {
            places.push(n)
        } else {
            places
        };
        assert forall|i: int| 0 <= i < s.len() && #[trigger] holds(s[i]) implies more.contains(
            i,
        ) by {
            if i < n {
                assert(before[i] == s[i]);
                let k = choose|k: int| 0 <= k < places.len() && places[k] == i;
                assert(more[k] == i);
            } else {
                assert(more[more.len() - 1] == i);
            }
        }
        assert forall|k: int| 0 <= k < more.len() implies 0 <= #[trigger] more[k] < s.len() && holds(
            s[more[k]],
        ) by {
            if k < places.len() {
                assert(before[places[k]] == s[places[k]]);
            }
        }
        assert forall|k: int| 0 <= k < more.len() implies #[trigger] s.filter(holds)[k]
            == s[more[k]] by {
            if k < places.len() {
                assert(before.filter(holds)[k] == before[places[k]]);
            }
        }
        more
    }
}

/// A path fits: in lower case, directories and file name together, the part that
/// was asked for stands somewhere in it, and it ends in a dot and the extension
/// that was asked for.
pub open spec fn path_fits(
    path: Seq<char>,
    part: Option<Seq<char>>,
    extension: Option<Seq<char>>,
) -> bool {
    &&& part matches Some(p) ==> around(lowercased(path), p)
    &&& extension matches Some(x) ==> exists|a: Seq<char>|
        lowercased(path) == #[trigger] (a + "."@ + x)
}

proof fn wanted_paths_fit(path: Seq<char>, f: FilterView)
    ensures
        path_wanted(f, lowercased(path)) <==> path_fits(path, f.path, f.extension),
{
    let lower = lowercased(path);
    if let Some(p) = f.path {
        containing_is_standing_between(lower, p);
    }
    if let Some(x) = f.extension {
        let suffix = "."@ + x;
        let n = lower.len() - suffix.len();
        if ends_in(lower, suffix) {
            let a = lower.take(n);
            assert(lower.subrange(n, n + suffix.len()) =~= suffix);
            assert(lower =~= a + "."@ + x) by {
                assert forall|i: int| n <= i < lower.len() implies lower[i] == suffix[i - n] by {
                    assert(lower.subrange(n, n + suffix.len())[i - n] == lower[i]);
                }
                assert(a + "."@ + x =~= a + suffix);
            }
        }
        if exists|a: Seq<char>| lower == #[trigger] (a + "."@ + x) {
            let a = choose|a: Seq<char>| lower == #[trigger] (a + "."@ + x);
            assert(a + "."@ + x =~= a + suffix);
            assert(lower.subrange(n, n + suffix.len()) =~= suffix);
        }
    }
}

/// An item shows a file of a repository's branch.
pub open spec fn shows_file(
    item: JsonView,
    repo: Seq<char>,
    branch: Seq<char>,
    file: EntryView,
) -> bool {
    &&& text_member(item, "repo"@) == Some(repo)
    &&& text_member(item, "path"@) == Some(file.path)
    &&& text_member(item, "sha"@) == Some(file.sha)
    &&& text_member(item, "branch"@) == Some(branch)
}

proof fn hits_show_files(
    repo: Seq<char>,
    branch: Seq<char>,
    file: EntryView,
    matches: Seq<JsonView>,
)
    ensures
        shows_file(hit_object(repo, branch, file, matches), repo, branch, file),
        array_member(hit_object(repo, branch, file, matches), "matches"@) == Some(matches),
{
    reveal_strlit("repo");
    reveal_strlit("path");
    reveal_strlit("sha");
    reveal_strlit("branch");
    reveal_strlit("matches");
    assert("repo"@.len() == 4 && "path"@.len() == 4 && "sha"@.len() == 3 && "branch"@.len() == 6
        && "matches"@.len() == 7);
    assert("repo"@[0] == 'r' && "path"@[0] == 'p');
}

/// The hits that a search has once it has made a step.
pub open spec fn hits_after(s: StepView<CodeView, OutcomeView>) -> Seq<JsonView> {
    match s {
        StepView::More(c) => account_of(c).items,
        StepView::Done(o) => o.items,
        StepView::Failed(_) => Seq::empty(),
    }
}

/// A step ends the search, and says whether it was cut short.
pub open spec fn ends(s: StepView<CodeView, OutcomeView>, truncated: bool) -> bool {
    s matches StepView::Done(o) && o.truncated == truncated
}

/// The files of a tree that a search by path looks for.
pub open spec fn fitting(a: AccountView) -> spec_fn(EntryView) -> bool {
    |e: EntryView| !e.is_dir && path_fits(e.path, a.filter.path, a.filter.extension)
}

proof fn candidates_fit(a: AccountView, entries: Seq<EntryView>) -> (places: Seq<int>)
    ensures
        all_places(entries, fitting(a), places),
        candidates(a.filter, entries).len() == places.len(),
        forall|k: int|
            0 <= k < places.len() ==> #[trigger] candidates(a.filter, entries)[k]
                == entries[places[k]],
{
    let pred = |e: EntryView| wanted(a.filter, e);
    let places = filters_keep_places(entries, pred);
    assert forall|e: EntryView| #[trigger] pred(e) == fitting(a)(e) by {
        wanted_paths_fit(e.path, a.filter);
    }
    assert forall|k: int| 0 <= k < places.len() implies 0 <= #[trigger] places[k] < entries.len()
        && fitting(a)(entries[places[k]]) by {
        assert(pred(entries[places[k]]));
    }
    assert forall|i: int|
        0 <= i < entries.len() && #[trigger] fitting(a)(entries[i]) implies places.contains(i) by {
        assert(pred(entries[i]));
    }
    places
}

/// A search without terms finds the files of a tree whose paths fit, each of them
/// once and in order, as long as there is room: `places` are those of the files
/// that fit. Where they are more than there is room for, the search ends and says
/// that it was cut short; otherwise it goes on with the next repository, or ends
/// where there is none.
pub proof fn paths_that_fit_are_found(
    a: AccountView,
    repo: Seq<char>,
    at: TreeAtView,
    served: ServedView,
    answer: Answer,
    instance: Seq<char>,
) -> (places: Seq<int>)
    requires
        !a.streams,
        a.filter.terms.len() == 0,
        tree_fed(at, answer) == StepView::<TreeAtView, ServedView>::Done(served),
    ensures
        all_places(served.tree.entries, fitting(a), places),
        ({
            let step = code_fed(CodeView::Tree { account: a, repo, at }, answer, instance).0;
            let items = hits_after(step);
            let many = if places.len() > a.hits_left {
                a.hits_left
            } else {
                places.len()
            };
            &&& items.len() == a.items.len() + many
            &&& items.take(a.items.len() as int) == a.items
            &&& forall|k: int|
                0 <= k < many ==> {
                    let item = items[a.items.len() + k];
                    &&& shows_file(
                        item,
                        repo,
                        served.label,
                        served.tree.entries[#[trigger] places[k]],
                    )
                    &&& array_member(item, "matches"@) == Some(Seq::<JsonView>::empty())
                }
            &&& places.len() > a.hits_left ==> ends(step, true)
            &&& places.len() <= a.hits_left && a.rest.len() == 0 ==> ends(step, false)
            &&& places.len() <= a.hits_left && a.rest.len() > 0 ==> step == StepView::<
                CodeView,
                OutcomeView,
            >::More(
                CodeView::Tree {
                    account: AccountView {
                        items,
                        hits_left: (a.hits_left - places.len()) as nat,
                        rest: a.rest.drop_first(),
                        ..a
                    },
                    repo: a.rest[0],
                    at: head_tree(a.rest[0]),
                },
            )
        }),
{
    let entries = served.tree.entries;
    let places = candidates_fit(a, entries);
    let files = candidates(a.filter, entries);
    let shown = if files.len() > a.hits_left {
        files.take(a.hits_left as int)
    } else {
        files
    };
    let wire = shown.map_values(
        |f: EntryView| hit_object(repo, served.label, f, Seq::empty()),
    );
    let step = code_fed(CodeView::Tree { account: a, repo, at }, answer, instance).0;
    assert(hits_after(step) =~= a.items + wire);
    assert((a.items + wire).take(a.items.len() as int) =~= a.items);
    assert forall|k: int| 0 <= k < shown.len() implies {
        let item = hits_after(step)[a.items.len() + k];
        &&& shows_file(item, repo, served.label, entries[#[trigger] places[k]])
        &&& array_member(item, "matches"@) == Some(Seq::<JsonView>::empty())
    } by {
        assert(files[k] == entries[places[k]]);
        assert(wire[k] == hit_object(repo, served.label, shown[k], Seq::empty()));
        hits_show_files(repo, served.label, shown[k], Seq::empty());
    }
    places
}

/// A word begins with a qualifier.
pub open spec fn begins(word: Seq<char>, prefix: Seq<char>) -> bool {
    exists|rest: Seq<char>| word == #[trigger] (prefix + rest)
}

/// A query says something behind a qualifier: in one of its words, and no word
/// after that begins with the qualifier.
pub open spec fn says(q: Seq<char>, prefix: Seq<char>, value: Seq<char>) -> bool {
    exists|i: int|
        0 <= i < words(q).len() && #[trigger] words(q)[i] == prefix + value && forall|j: int|
            i < j < words(q).len() ==> !begins(#[trigger] words(q)[j], prefix)
}

/// A query says nothing behind a qualifier.
pub open spec fn silent(q: Seq<char>, prefix: Seq<char>) -> bool {
    forall|j: int| 0 <= j < words(q).len() ==> !begins(#[trigger] words(q)[j], prefix)
}

proof fn prefixes_begin(word: Seq<char>, prefix: Seq<char>)
    ensures
        after_prefix(word, prefix) is Some <==> begins(word, prefix),
        after_prefix(word, prefix) matches Some(rest) ==> word == prefix + rest,
{
    if begins(word, prefix) {
        let rest = choose|rest: Seq<char>| word == #[trigger] (prefix + rest);
        prefixes_come_off(word, prefix, rest);
    }
    prefixes_come_off(word, prefix, Seq::empty());
}

proof fn last_words_count(all: Seq<Seq<char>>, prefix: Seq<char>, value: Seq<char>, i: int)
    ensures
        0 <= i < all.len() && all[i] == prefix + value && (forall|j: int|
            i < j < all.len() ==> !begins(#[trigger] all[j], prefix)) ==> qualifier(all, prefix)
            == Some(value),
        (forall|j: int| 0 <= j < all.len() ==> !begins(#[trigger] all[j], prefix)) ==> qualifier(
            all,
            prefix,
        ) is None,
    decreases all.len(),
{
    if all.len() > 0 {
        let before = all.drop_last();
        prefixes_begin(all.last(), prefix);
        prefixes_come_off(all.last(), prefix, value);
        last_words_count(before, prefix, value, i);
        assert(forall|j: int| 0 <= j < before.len() ==> before[j] == all[j]);
        assert(all.last() == all[all.len() - 1]);
    }
}

/// What a query says behind a qualifier is what counts: the last word with it.
pub proof fn last_qualifiers_count(q: Seq<char>, prefix: Seq<char>, value: Seq<char>)
    ensures
        says(q, prefix, value) ==> qualifier(words(q), prefix) == Some(value),
        silent(q, prefix) ==> qualifier(words(q), prefix) is None,
{
    let all = words(q);
    if says(q, prefix, value) {
        let i = choose|i: int|
            0 <= i < words(q).len() && #[trigger] words(q)[i] == prefix + value && forall|j: int|
                i < j < words(q).len() ==> !begins(#[trigger] words(q)[j], prefix);
        last_words_count(all, prefix, value, i);
    } else {
        last_words_count(all, prefix, value, 0);
    }
}

/// A word that begins with none of the four qualifiers.
pub open spec fn unqualified(word: Seq<char>) -> bool {
    &&& !begins(word, "path:"@)
    &&& !begins(word, "repo:"@)
    &&& !begins(word, "org:"@)
    &&& !begins(word, "extension:"@)
}

/// The terms of a query are its words without a qualifier, in lower case: each of
/// them, in order. `places` are theirs among the words.
pub proof fn terms_are_the_other_words(q: Seq<char>) -> (places: Seq<int>)
    ensures
        all_places(words(q), |w: Seq<char>| unqualified(w), places),
        terms_of(q).len() == places.len(),
        forall|k: int|
            0 <= k < places.len() ==> #[trigger] terms_of(q)[k] == lowercased(words(q)[places[k]]),
{
    let all = words(q);
    let pred = |w: Seq<char>| is_term(w);
    let other = |w: Seq<char>| unqualified(w);
    let places = filters_keep_places(all, pred);
    assert forall|w: Seq<char>| #[trigger] pred(w) == other(w) by {
        prefixes_begin(w, "path:"@);
        prefixes_begin(w, "repo:"@);
        prefixes_begin(w, "org:"@);
        prefixes_begin(w, "extension:"@);
    }
    assert forall|i: int| 0 <= i < all.len() && #[trigger] other(all[i]) implies places.contains(
        i,
    ) by {
        assert(pred(all[i]));
    }
    assert forall|k: int| 0 <= k < places.len() implies #[trigger] terms_of(q)[k] == lowercased(
        all[places[k]],
    ) by {
        assert(all.filter(pred)[k] == all[places[k]]);
    }
    places
}

/// Every word of a query has a qualifier.
pub open spec fn all_qualified(q: Seq<char>) -> bool {
    forall|j: int| 0 <= j < words(q).len() ==> !unqualified(#[trigger] words(q)[j])
}

/// What a query says of an extension, in lower case and without leading dots.
pub open spec fn says_extension(q: Seq<char>, extension: Option<Seq<char>>) -> bool {
    match extension {
        Some(x) => exists|v: Seq<char>| #[trigger]
            says(q, "extension:"@, v) && x == lowercased(without_leading(v, '.')),
        None => silent(q, "extension:"@),
    }
}

/// What a query says of a path, in lower case.
pub open spec fn says_path(q: Seq<char>, part: Option<Seq<char>>) -> bool {
    match part {
        Some(p) => exists|v: Seq<char>| #[trigger] says(q, "path:"@, v) && p == lowercased(v),
        None => silent(q, "path:"@),
    }
}

proof fn queries_make_filters(
    q: Seq<char>,
    part: Option<Seq<char>>,
    extension: Option<Seq<char>>,
)
    requires
        says_path(q, part),
        says_extension(q, extension),
    ensures
        filter_of(q).path == part,
        filter_of(q).extension == extension,
        all_qualified(q) <==> filter_of(q).terms.len() == 0,
{
    match part {
        Some(p) => {
            let v = choose|v: Seq<char>| #[trigger] says(q, "path:"@, v) && p == lowercased(v);
            last_qualifiers_count(q, "path:"@, v);
        },
        None => last_qualifiers_count(q, "path:"@, Seq::empty()),
    }
    match extension {
        Some(x) => {
            let v = choose|v: Seq<char>| #[trigger]
                says(q, "extension:"@, v) && x == lowercased(without_leading(v, '.'));
            last_qualifiers_count(q, "extension:"@, v);
        },
        None => last_qualifiers_count(q, "extension:"@, Seq::empty()),
    }
    let places = terms_are_the_other_words(q);
    let other = |w: Seq<char>| unqualified(w);
    if all_qualified(q) && places.len() > 0 {
        assert(other(words(q)[places[0]]));
    }
    if places.len() == 0 {
        assert forall|j: int| 0 <= j < words(q).len() implies !unqualified(
            #[trigger] words(q)[j],
        ) by {
            if unqualified(words(q)[j]) {
                assert(other(words(q)[j]));
                assert(places.contains(j));
            }
        }
    }
}

/// A query that looks for anything is a search in its scope: in the repository
/// that it names, otherwise in the repositories of the workspace that it names.
/// It reports 100 hits at most and greps 200 blobs. A query without a scope is
/// refused, and so is one that looks for nothing.
pub proof fn queries_search_their_scope(
    q: Seq<char>,
    part: Option<Seq<char>>,
    extension: Option<Seq<char>>,
    repo: Seq<char>,
    org: Seq<char>,
    id: JsonView,
    streams: bool,
)
    requires
        says_path(q, part),
        says_extension(q, extension),
    ensures
        ({
            let start = code_start(q, id, streams);
            let idle = part is None && extension is None && all_qualified(q);
            &&& !idle && says(q, "repo:"@, repo) ==> {
                &&& start matches Ok(StepView::More(CodeView::Tree { account, repo: first, at }))
                &&& first == repo && at == head_tree(repo)
                &&& account.rest.len() == 0
                &&& opens(account, part, extension, terms_of(q), id, streams)
            }
            &&& !idle && silent(q, "repo:"@) && says(q, "org:"@, org) ==> {
                &&& start matches Ok(StepView::More(CodeView::Scope { account, paging }))
                &&& paging.next == "/2.0/repositories/"@ + org + "?pagelen=100&sort=-updated_on"@
                &&& paging.out.len() == 0
                &&& paging.cap == 500
                &&& opens(account, part, extension, terms_of(q), id, streams)
            }
            &&& silent(q, "repo:"@) && silent(q, "org:"@) ==> start is Err
            &&& start matches Err(e) ==> e.kind == "provider"@ && e.retry_after_s is None
            &&& no_scope() != no_index()
            &&& silent(q, "repo:"@) && silent(q, "org:"@) && part is Some ==> start
                == Err::<StepView<CodeView, OutcomeView>, WireErrorView>(
                no_scope(),
            )
            &&& silent(q, "repo:"@) && silent(q, "org:"@) && part is None ==> start
                == Err::<StepView<CodeView, OutcomeView>, WireErrorView>(
                no_index(),
            )
            &&& idle ==> start == Err::<
                StepView<CodeView, OutcomeView>,
                WireErrorView,
            >(no_index())
        }),
{
    reveal_strlit("path-only search needs a repo: or org: scope on bitbucket (no global index)");
    reveal_strlit(
        "bitbucket cloud has no code-search API — use file find (leader f) or a path: query scoped to a repo or workspace",
    );
    assert(no_scope().message[0] == 'p' && no_index().message[0] == 'b');
    queries_make_filters(q, part, extension);
    last_qualifiers_count(q, "repo:"@, repo);
    last_qualifiers_count(q, "org:"@, org);
}

/// The account of a search that has found nothing yet.
pub open spec fn opens(
    a: AccountView,
    part: Option<Seq<char>>,
    extension: Option<Seq<char>>,
    terms: Seq<Seq<char>>,
    id: JsonView,
    streams: bool,
) -> bool {
    &&& a.filter.path == part
    &&& a.filter.extension == extension
    &&& a.filter.terms == terms
    &&& a.items.len() == 0
    &&& a.hits_left == 100
    &&& a.greps_left == 200
    &&& a.id == id
    &&& a.streams == streams
}

/// What a search of one repository by path answers: `repo:` and `path:` in the
/// query, and an extension where the query has one, but no terms. Once the tree
/// has come in, the reply has an item for every file of it whose whole path, in
/// lower case, holds what the query says behind `path:`, wherever it stands in
/// the path, and ends in the extension: all of these in order, or the first 100
/// of them, and then it is truncated. `places` are those of the files.
pub proof fn path_queries_find_whole_paths(
    q: Seq<char>,
    said: Seq<char>,
    extension: Option<Seq<char>>,
    repo: Seq<char>,
    id: JsonView,
    at: TreeAtView,
    served: ServedView,
    answer: Answer,
    instance: Seq<char>,
) -> (places: Seq<int>)
    requires
        says(q, "path:"@, said),
        says_extension(q, extension),
        says(q, "repo:"@, repo),
        all_qualified(q),
        tree_fed(at, answer) == StepView::<TreeAtView, ServedView>::Done(served),
    ensures
        ({
            let entries = served.tree.entries;
            let fits = |e: EntryView|
                !e.is_dir && around(lowercased(e.path), lowercased(said)) && (extension matches Some(
                    x,
                ) ==> exists|a: Seq<char>| lowercased(e.path) == #[trigger] (a + "."@ + x));
            &&& all_places(entries, fits, places)
            &&& code_start(q, id, false) matches Ok(StepView::More(CodeView::Tree { account, .. }))
            &&& code_fed(CodeView::Tree { account, repo, at }, answer, instance).0
                matches StepView::Done(o)
            &&& o.truncated <==> places.len() > 100
            &&& places.len() <= 100 ==> o.items.len() == places.len()
            &&& places.len() > 100 ==> o.items.len() == 100
            &&& forall|k: int|
                0 <= k < o.items.len() ==> {
                    &&& shows_file(
                        #[trigger] o.items[k],
                        repo,
                        served.label,
                        entries[places[k]],
                    )
                    &&& array_member(o.items[k], "matches"@) == Some(Seq::<JsonView>::empty())
                }
        }),
        forall|i: int, a: Seq<char>, b: Seq<char>|
            0 <= i < served.tree.entries.len() && !served.tree.entries[i].is_dir && extension is None
                && lowercased(#[trigger] served.tree.entries[i].path) == #[trigger] (a + lowercased(
                said,
            ) + "/"@ + b) ==> places.contains(i),
{
    let part = Some(lowercased(said));
    assert(says_path(q, part));
    queries_search_their_scope(q, part, extension, repo, Seq::empty(), id, false);
    queries_make_filters(q, part, extension);
    let account = code_start(q, id, false)->Ok_0->More_0->Tree_account;
    let places = paths_that_fit_are_found(account, repo, at, served, answer, instance);
    let entries = served.tree.entries;
    let fits = |e: EntryView|
        !e.is_dir && around(lowercased(e.path), lowercased(said)) && (extension matches Some(x)
            ==> exists|a: Seq<char>| lowercased(e.path) == #[trigger] (a + "."@ + x));
    assert forall|e: EntryView| #[trigger] fits(e) == fitting(account)(e) by {}
    assert forall|k: int| 0 <= k < places.len() implies 0 <= #[trigger] places[k] < entries.len()
        && fits(entries[places[k]]) by {
        assert(fitting(account)(entries[places[k]]));
    }
    assert forall|i: int|
        0 <= i < entries.len() && #[trigger] fits(entries[i]) implies places.contains(i) by {
        assert(fitting(account)(entries[i]));
    }
    assert forall|i: int, a: Seq<char>, b: Seq<char>|
        0 <= i < entries.len() && !entries[i].is_dir && extension is None && lowercased(
            #[trigger] entries[i].path,
        ) == #[trigger] (a + lowercased(said) + "/"@ + b) implies places.contains(i) by {
        let rest = "/"@ + b;
        assert(a + lowercased(said) + "/"@ + b =~= a + lowercased(said) + rest);
        assert(fits(entries[i]));
    }
    let step = code_fed(CodeView::Tree { account, repo, at }, answer, instance).0;
    assert forall|k: int| 0 <= k < hits_after(step).len() implies {
        &&& shows_file(#[trigger] hits_after(step)[k], repo, served.label, entries[places[k]])
        &&& array_member(hits_after(step)[k], "matches"@) == Some(Seq::<JsonView>::empty())
    } by {
        assert(hits_after(step)[account.items.len() + k] == hits_after(step)[k]);
        assert(places[k] == places[k]);
    }
    places
}

/// A line fits: in lower case, each of the terms stands somewhere in it.
pub open spec fn line_fits(line: Seq<char>, terms: Seq<Seq<char>>) -> bool {
    forall|i: int| 0 <= i < terms.len() ==> around(lowercased(line), #[trigger] terms[i])
}

proof fn matching_lines_fit(line: Seq<char>, terms: Seq<Seq<char>>)
    ensures
        line_matches(line, terms) <==> line_fits(line, terms),
{
    let lower = lowercased(line);
    assert forall|i: int| 0 <= i < terms.len() implies has_text(lower, #[trigger] terms[i])
        == around(lower, terms[i]) by {
        containing_is_standing_between(lower, terms[i]);
    }
    if line_matches(line, terms) {
        assert forall|i: int| 0 <= i < terms.len() implies around(lower, #[trigger] terms[i]) by {
            assert(has_text(lower, terms[i]));
        }
    }
    if line_fits(line, terms) {
        assert(holds_all(lower, terms)) by {
            assert forall|i: int| 0 <= i < terms.len() implies has_text(
                lower,
                #[trigger] terms[i],
            ) by {
                assert(around(lower, terms[i]));
            }
        }
    }
}

proof fn lines_keep_places(lines: Seq<Seq<char>>, terms: Seq<Seq<char>>) -> (places: Seq<int>)
    ensures
        all_places(lines, |l: Seq<char>| line_fits(l, terms), places),
        matching_lines(lines, terms).len() == places.len(),
        forall|k: int|
            0 <= k < places.len() ==> #[trigger] matching_lines(lines, terms)[k] == match_object(
                (places[k] + 1) as u64,
                lines[places[k]],
            ),
    decreases lines.len(),
{
    let fits = |l: Seq<char>| line_fits(l, terms);
    if lines.len() == 0 {
        Seq::empty()
    } else {
        let before = lines.drop_last();
        let places = lines_keep_places(before, terms);
        matching_lines_fit(lines.last(), terms);
        let n = before.len() as int;
        let more = if line_fits(lines.last(), terms) {
            places.push(n)
        } else {
            places
        };
        assert forall|i: int| 0 <= i < lines.len() && #[trigger] fits(
            lines[i],
        ) implies more.contains(i) by {
            if i < n {
                assert(before[i] == lines[i]);
                assert(fits(before[i]));
                let k = choose|k: int| 0 <= k < places.len() && places[k] == i;
                assert(more[k] == i);
            } else {
                assert(more[more.len() - 1] == i);
            }
        }
        assert forall|k: int| 0 <= k < more.len() implies 0 <= #[trigger] more[k] < lines.len()
            && fits(lines[more[k]]) by {
            if k < places.len() {
                assert(before[places[k]] == lines[places[k]]);
            }
        }
        assert forall|k: int| 0 <= k < more.len() implies #[trigger] matching_lines(lines, terms)[k]
            == match_object((more[k] + 1) as u64, lines[more[k]]) by {
            if k < places.len() {
                assert(matching_lines(before, terms)[k] == match_object(
                    (places[k] + 1) as u64,
                    before[places[k]],
                ));
            }
        }
        more
    }
}

/// The lines of a blob that is text: valid UTF-8 without a zero byte. Any other
/// blob has none.
pub open spec fn text_lines(bytes: Seq<u8>) -> Seq<Seq<char>> {
    if valid_utf8(bytes) && forall|i: int| 0 <= i < bytes.len() ==> #[trigger] bytes[i] != 0 {
        lines_of(decode_utf8(bytes))
    } else {
        Seq::empty()
    }
}

/// An item shows the lines at these places, counted from 1.
pub open spec fn shows_lines(item: JsonView, lines: Seq<Seq<char>>, places: Seq<int>) -> bool {
    array_member(item, "matches"@) matches Some(shown) && {
        &&& shown.len() == places.len()
        &&& forall|k: int|
            0 <= k < places.len() ==> {
                &&& uint_member(#[trigger] shown[k], "line"@) matches Some(n) && n == places[k] + 1
                &&& text_member(shown[k], "text"@) == Some(lines[places[k]])
            }
    }
}

/// What a search does with the files that are still to be grepped: the next one
/// is fetched, and nothing else changes but that one blob less is left to grep.
/// Where hits or blobs have run out, the search ends and says that it was cut
/// short. Behind the last file the next repository follows, if there is one.
pub open spec fn goes_on(
    step: StepView<CodeView, OutcomeView>,
    a: AccountView,
    repo: Seq<char>,
    branch: Seq<char>,
    files: Seq<EntryView>,
    instance: Seq<char>,
) -> bool {
    &&& hits_after(step) == a.items
    &&& files.len() == 0 ==> next_follows(step, a)
    &&& files.len() > 0 && (a.hits_left == 0 || a.greps_left == 0) ==> ends(step, true)
    &&& files.len() > 0 && a.hits_left > 0 && a.greps_left > 0 && files[0].sha.contains(':')
        ==> step == StepView::<CodeView, OutcomeView>::More(
        CodeView::Grep {
            account: AccountView { greps_left: (a.greps_left - 1) as nat, ..a },
            repo,
            branch,
            file: files[0],
            files: files.drop_first(),
            fetch: fetch_start(instance, repo, files[0].sha)->More_0,
        },
    )
}

/// The tree of the next repository is looked for, with the account as it is, or
/// the search ends.
pub open spec fn next_follows(step: StepView<CodeView, OutcomeView>, a: AccountView) -> bool {
    if a.rest.len() == 0 {
        ends(step, false) && hits_after(step) == a.items
    } else {
        step == StepView::<CodeView, OutcomeView>::More(
            CodeView::Tree {
                account: AccountView { rest: a.rest.drop_first(), ..a },
                repo: a.rest[0],
                at: head_tree(a.rest[0]),
            },
        )
    }
}

proof fn greps_go_on(
    a: AccountView,
    repo: Seq<char>,
    branch: Seq<char>,
    files: Seq<EntryView>,
    instance: Seq<char>,
)
    requires
        !a.streams,
    ensures
        goes_on(grep_next(a, repo, branch, files, instance).0, a, repo, branch, files, instance),
    decreases files.len(),
{
    if files.len() > 0 {
        splits_are_at_the_first(files[0].sha, ':', Seq::empty(), Seq::empty());
        greps_go_on(a, repo, branch, files.drop_first(), instance);
    }
}

/// A search with terms greps the files of a tree whose paths fit, all of them and
/// in order: `files` are those at `places`.
pub proof fn files_that_fit_are_grepped(
    a: AccountView,
    repo: Seq<char>,
    at: TreeAtView,
    served: ServedView,
    answer: Answer,
    instance: Seq<char>,
) -> (r: (Seq<int>, Seq<EntryView>))
    requires
        !a.streams,
        a.filter.terms.len() > 0,
        tree_fed(at, answer) == StepView::<TreeAtView, ServedView>::Done(served),
    ensures
        ({
            let (places, files) = r;
            &&& all_places(served.tree.entries, fitting(a), places)
            &&& files.len() == places.len()
            &&& forall|k: int|
                0 <= k < files.len() ==> #[trigger] files[k] == served.tree.entries[places[k]]
            &&& goes_on(
                code_fed(CodeView::Tree { account: a, repo, at }, answer, instance).0,
                a,
                repo,
                served.label,
                files,
                instance,
            )
        }),
{
    let places = candidates_fit(a, served.tree.entries);
    let files = candidates(a.filter, served.tree.entries);
    greps_go_on(a, repo, served.label, files, instance);
    (places, files)
}

/// A blob that has come in is a hit exactly where one of its lines holds every
/// term, upper or lower case, and then the hit shows all such lines with their
/// numbers: `places` are theirs. Blobs that are not text are no hits. The search
/// then goes on with the files that are left.
pub proof fn lines_that_fit_are_found(
    a: AccountView,
    repo: Seq<char>,
    branch: Seq<char>,
    file: EntryView,
    files: Seq<EntryView>,
    fetch: FetchView,
    answer: Answer,
    bytes: Seq<u8>,
    instance: Seq<char>,
) -> (places: Seq<int>)
    requires
        !a.streams,
        a.hits_left > 0,
        fetch_fed(fetch, answer) == StepView::<FetchView, Seq<u8>>::Done(bytes),
        text_lines(bytes).len() <= u64::MAX,
    ensures
        all_places(text_lines(bytes), |l: Seq<char>| line_fits(l, a.filter.terms), places),
        ({
            let step = code_fed(
                CodeView::Grep { account: a, repo, branch, file, files, fetch },
                answer,
                instance,
            ).0;
            let items = hits_after(step);
            if places.len() == 0 {
                goes_on(step, a, repo, branch, files, instance)
            } else {
                &&& items.len() == a.items.len() + 1
                &&& shows_file(items.last(), repo, branch, file)
                &&& shows_lines(items.last(), text_lines(bytes), places)
                &&& items.drop_last() == a.items
                &&& goes_on(
                    step,
                    AccountView { items, hits_left: (a.hits_left - 1) as nat, ..a },
                    repo,
                    branch,
                    files,
                    instance,
                )
            }
        }),
{
    let lines = text_lines(bytes);
    let terms = a.filter.terms;
    let places = lines_keep_places(lines, terms);
    assert(grepped(bytes, terms) =~= matching_lines(lines, terms)) by {
        if valid_utf8(bytes) && !bytes.contains(0u8) {
            assert forall|i: int| 0 <= i < bytes.len() implies #[trigger] bytes[i] != 0 by {
                assert(bytes.contains(bytes[i]));
            }
        }
    }
    let found = grepped(bytes, terms);
    if places.len() == 0 {
        greps_go_on(a, repo, branch, files, instance);
    } else {
        let hit = hit_object(repo, branch, file, found);
        let b = AccountView {
            items: a.items.push(hit),
            hits_left: (a.hits_left - 1) as nat,
            ..a
        };
        greps_go_on(b, repo, branch, files, instance);
        hits_show_files(repo, branch, file, found);
        assert(b.items.drop_last() =~= a.items);
        reveal_strlit("line");
        reveal_strlit("text");
        assert("line"@.len() == 4 && "text"@.len() == 4 && "line"@[0] == 'l' && "text"@[0] == 't');
        assert forall|k: int| 0 <= k < places.len() implies {
            &&& uint_member(#[trigger] found[k], "line"@) matches Some(n) && n == places[k] + 1
            &&& text_member(found[k], "text"@) == Some(lines[places[k]])
        } by {
            assert(0 <= places[k] < lines.len());
            assert(matching_lines(lines, terms)[k] == match_object(
                (places[k] + 1) as u64,
                lines[places[k]],
            ));
        }
    }
    places
}

/// What cannot be had is passed over: a tree, and then the next repository
/// follows; or a blob, and then the next file does. As long as a tree or a blob is
/// on its way, the account stays as it is.
pub proof fn failures_are_passed_over(
    a: AccountView,
    repo: Seq<char>,
    branch: Seq<char>,
    at: TreeAtView,
    file: EntryView,
    files: Seq<EntryView>,
    fetch: FetchView,
    answer: Answer,
    instance: Seq<char>,
)
    requires
        !a.streams,
    ensures
        ({
            let tree = code_fed(CodeView::Tree { account: a, repo, at }, answer, instance).0;
            let grep = code_fed(
                CodeView::Grep { account: a, repo, branch, file, files, fetch },
                answer,
                instance,
            ).0;
            &&& tree_fed(at, answer) is Failed ==> next_follows(tree, a)
            &&& tree_fed(at, answer) matches StepView::More(after) ==> tree == StepView::<
                CodeView,
                OutcomeView,
            >::More(CodeView::Tree { account: a, repo, at: after })
            &&& fetch_fed(fetch, answer) is Failed ==> goes_on(
                grep,
                a,
                repo,
                branch,
                files,
                instance,
            )
            &&& fetch_fed(fetch, answer) matches StepView::More(after) ==> grep == StepView::<
                CodeView,
                OutcomeView,
            >::More(CodeView::Grep { account: a, repo, branch, file, files, fetch: after })
        }),
{
    greps_go_on(a, repo, branch, files, instance);
}

/// Once the repositories of a workspace are listed, as far as the cap allows, the
/// search looks into the first 20 of them, in the order in which they were listed.
pub proof fn workspaces_are_searched_from_the_first(
    a: AccountView,
    cap: nat,
    before: Seq<Repo>,
    here: Seq<char>,
    page: Paged<Repo>,
    error: ApiError,
    instance: Seq<char>,
)
    ensures
        ({
            let c = CodeView::Scope {
                account: a,
                paging: PagingView { cap, out: before, next: here },
            };
            let listed = before + page.values@;
            let all = up_to(listed, cap);
            let last = page.next is None || listed.len() >= cap;
            let step = code_fed(c, Answer::Repos(Ok(page)), instance).0;
            &&& page.next matches Some(next) ==> !last ==> step == StepView::<
                CodeView,
                OutcomeView,
            >::More(
                CodeView::Scope {
                    account: a,
                    paging: PagingView { cap, out: all, next: next@ },
                },
            )
            &&& last && all.len() == 0 ==> ends(step, false) && hits_after(step) == a.items
            &&& last && all.len() > 0 ==> {
                &&& step matches StepView::More(CodeView::Tree { account, repo, at })
                &&& repo == all[0].full_name@
                &&& at == head_tree(repo)
                &&& account.rest.len() == if all.len() > 20 {
                    19
                } else {
                    all.len() - 1
                }
                &&& forall|i: int|
                    0 <= i < account.rest.len() ==> #[trigger] account.rest[i] == all[i
                        + 1].full_name@
                &&& account == AccountView { rest: account.rest, ..a }
            }
            &&& code_fed(c, Answer::Repos(Err(error)), instance).0 == StepView::<
                CodeView,
                OutcomeView,
            >::Failed(error@)
        }),
{
    let listed = before + page.values@;
    if listed.len() >= cap {
        assert(listed.take(cap as int) =~= up_to(listed, cap));
    }
}

/// A file whose id names no blob is passed over: the search goes on as if it were
/// not there.
pub proof fn files_without_an_id_are_passed_over(
    a: AccountView,
    repo: Seq<char>,
    branch: Seq<char>,
    file: EntryView,
    odd: EntryView,
    files: Seq<EntryView>,
    fetch: FetchView,
    answer: Answer,
    instance: Seq<char>,
)
    requires
        !odd.sha.contains(':'),
        fetch_fed(fetch, answer) is Failed,
        a.hits_left > 0,
        a.greps_left > 0,
    ensures
        code_fed(
            CodeView::Grep { account: a, repo, branch, file, files: seq![odd] + files, fetch },
            answer,
            instance,
        ) == code_fed(
            CodeView::Grep { account: a, repo, branch, file, files, fetch },
            answer,
            instance,
        ),
{
    let more = seq![odd] + files;
    assert(more[0] == odd);
    assert(more.drop_first() =~= files);
    splits_are_at_the_first(odd.sha, ':', Seq::empty(), Seq::empty());
    assert(grep_next(a, repo, branch, more, instance) == grep_next(
        a,
        repo,
        branch,
        files,
        instance,
    ));
}

/// A search that has ended is answered with its hits and whether it was cut
/// short; one that has failed, with the error; as long as it goes on it is not
/// answered.
pub proof fn searches_answer_with_their_hits(c: CodeView, answer: Answer, instance: Seq<char>)
    ensures
        ({
            let turn = task_fed(TaskView::SearchCode { code: c }, answer, instance);
            match code_fed(c, answer, instance).0 {
                StepView::More(after) => turn == TurnView::More(
                    TaskView::SearchCode { code: after },
                ),
                StepView::Done(o) => turn matches TurnView::Reply(Ok(v)) && array_member(
                    v,
                    "items"@,
                ) == Some(o.items) && bool_member(v, "truncated"@) == Some(o.truncated),
                StepView::Failed(e) => turn == TurnView::Reply(Err(wire_error(e))),
            }
        }),
{
    reveal_strlit("items");
    reveal_strlit("truncated");
    assert("items"@.len() == 5 && "truncated"@.len() == 9);
}

/// A search keeps what it fetches, as any method that fetches a tree or a blob
/// does, and does nothing else as long as it sends no batches.
pub proof fn searches_keep_what_they_fetch(c: CodeView, answer: Answer, instance: Seq<char>)
    requires
        !account_of(c).streams,
    ensures
        ({
            let fx = task_effects(TaskView::SearchCode { code: c }, answer, instance);
            match c {
                CodeView::Scope { .. } => fx.len() == 0,
                CodeView::Tree { at, .. } => fx == tree_effects(at, answer),
                CodeView::Grep { fetch, .. } => fx == fetch_effects(fetch, answer),
            }
        }),
        task_ask(TaskView::SearchCode { code: c }, instance) == match c {
            CodeView::Scope { paging, .. } => AskView::Repos(full_url(instance, paging.next)),
            CodeView::Tree { at, .. } => tree_ask(at, instance),
            CodeView::Grep { fetch, .. } => fetch_ask(fetch),
        },
{
    let none = Seq::<EffectView>::empty();
    match c {
        CodeView::Scope { .. } => {},
        CodeView::Tree { account, repo, at } => {
            let before = tree_effects(at, answer);
            assert(before + none =~= before);
            if let StepView::Done(served) = tree_fed(at, answer) {
                let files = candidates(account.filter, served.tree.entries);
                greps_send_nothing(account, repo, served.label, files, instance);
            }
        },
        CodeView::Grep { account, repo, branch, file, files, fetch } => {
            let before = fetch_effects(fetch, answer);
            assert(before + none =~= before);
            greps_send_nothing(account, repo, branch, files, instance);
            if let StepView::Done(bytes) = fetch_fed(fetch, answer) {
                let a = blob_grepped(account, repo, branch, file, bytes);
                greps_send_nothing(a, repo, branch, files, instance);
            }
        },
    }
}

proof fn greps_send_nothing(
    a: AccountView,
    repo: Seq<char>,
    branch: Seq<char>,
    files: Seq<EntryView>,
    instance: Seq<char>,
)
    requires
        !a.streams,
    ensures
        grep_next(a, repo, branch, files, instance).1 == Seq::<EffectView>::empty(),
    decreases files.len(),
{
    if files.len() > 0 {
        greps_send_nothing(a, repo, branch, files.drop_first(), instance);
    }
}

}
