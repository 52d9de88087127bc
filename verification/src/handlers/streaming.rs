//! What holds of every `search/code`, whatever is answered: it stays within its
//! bounds, says nothing but batches while it is under way, and hands over the
//! same hits whether it streams or not.

use super::partial_note;
use super::blob::{fetch_effects, fetch_fed, fetch_start};
use super::code::{
    account_of, after_part, batch_of, blob_grepped, code_fed, code_start, cut_short, grep_next,
    in_scope, next_repo, path_hits, repo_done, sent, tree_searched, with_paths, AccountView,
    CodeStep, CodeView, OutcomeView, GREP_CAP, HIT_CAP,
};
use super::query::candidates;
use super::tree::{tree_effects, tree_fed};
use crate::cache::EntryView;
use crate::exchange::{Answer, EffectView, StepView};
use crate::json::{json_text, JsonView};
use crate::paging::gather;
use crate::text::string_opt;
use vstd::prelude::*;

verus! {

/// The line that sends hits, where there are any.
pub open spec fn batch_line(id: JsonView, batch: Seq<JsonView>) -> Seq<EffectView> {
    if batch.len() > 0 {
        seq![EffectView::Emit(json_text(partial_note(id, batch)))]
    } else {
        Seq::empty()
    }
}

/// The same account, kept by a search that streams and by one that does not,
/// where `gone` is what the one that streams has sent.
pub open spec fn same_account(
    plain: AccountView,
    streaming: AccountView,
    gone: Seq<JsonView>,
) -> bool {
    &&& !plain.streams && streaming.streams
    &&& plain.id == streaming.id
    &&& plain.filter == streaming.filter
    &&& plain.items == gone + streaming.items
    &&& plain.hits_left == streaming.hits_left
    &&& plain.greps_left == streaming.greps_left
    &&& plain.rest == streaming.rest
}

/// The same search, by one that streams and by one that does not. Between
/// repositories, the one that streams has sent everything.
pub open spec fn same_search(plain: CodeView, streaming: CodeView, gone: Seq<JsonView>) -> bool {
    match (plain, streaming) {
        (
            CodeView::Scope { account, paging },
            CodeView::Scope { account: other, paging: other_paging },
        ) => same_account(account, other, gone) && other.items.len() == 0 && paging == other_paging,
        (
            CodeView::Tree { account, repo, at },
            CodeView::Tree { account: other, repo: other_repo, at: other_at },
        ) => same_account(account, other, gone) && other.items.len() == 0 && repo == other_repo && at
            == other_at,
        (
            CodeView::Grep { account, repo, branch, file, files, fetch },
            CodeView::Grep {
                account: other,
                repo: other_repo,
                branch: other_branch,
                file: other_file,
                files: other_files,
                fetch: other_fetch,
            },
        ) => same_account(account, other, gone) && repo == other_repo && branch == other_branch
            && file == other_file && files == other_files && fetch == other_fetch,
        _ => false,
    }
}

/// What two searches that are the same have come to, where the one that streams
/// has sent `gone`.
pub open spec fn same_end(
    plain: StepView<CodeView, OutcomeView>,
    streaming: StepView<CodeView, OutcomeView>,
    gone: Seq<JsonView>,
) -> bool {
    match (plain, streaming) {
        (StepView::More(c), StepView::More(d)) => same_search(c, d, gone),
        (StepView::Done(o), StepView::Done(p)) => {
            &&& o.items == gone
            &&& p.items == Seq::<JsonView>::empty()
            &&& o.truncated == p.truncated
        },
        (StepView::Failed(e), StepView::Failed(f)) => e == f,
        _ => false,
    }
}

/// The same step: the search that streams does what the other does and sends a
/// batch, and where both end, all has been sent and its own outcome holds no
/// items.
pub open spec fn same_step(
    plain: CodeStep,
    streaming: CodeStep,
    id: JsonView,
    gone: Seq<JsonView>,
    batch: Seq<JsonView>,
) -> bool {
    &&& streaming.1 == plain.1 + batch_line(id, batch)
    &&& same_end(plain.0, streaming.0, gone + batch)
}

proof fn same_next_repo(a: AccountView, b: AccountView, gone: Seq<JsonView>, before: Seq<EffectView>)
    requires
        same_account(a, b, gone),
        b.items.len() == 0,
    ensures
        same_step((next_repo(a), before), (next_repo(b), before), b.id, gone, Seq::empty()),
{
    assert(before + batch_line(b.id, Seq::empty()) =~= before);
    assert(gone + Seq::<JsonView>::empty() =~= gone);
    assert(b.items =~= Seq::<JsonView>::empty());
    assert(gone + b.items =~= gone);
}

proof fn same_repo_done(a: AccountView, b: AccountView, gone: Seq<JsonView>)
    requires
        same_account(a, b, gone),
    ensures
        same_step(repo_done(a), repo_done(b), b.id, gone, b.items),
        same_step(cut_short(a), cut_short(b), b.id, gone, b.items),
{
    let none = Seq::<JsonView>::empty();
    let nothing = Seq::<EffectView>::empty();
    let all = gone + b.items;
    assert(all + none =~= all);
    assert(nothing + batch_line(b.id, b.items) =~= batch_of(b));
    assert(same_account(a, sent(b), all));
    same_next_repo(a, sent(b), all, nothing);
}

proof fn same_path_hits(
    a: AccountView,
    b: AccountView,
    gone: Seq<JsonView>,
    repo: Seq<char>,
    branch: Seq<char>,
    files: Seq<EntryView>,
) -> (batch: Seq<JsonView>)
    requires
        same_account(a, b, gone),
    ensures
        same_step(
            path_hits(a, repo, branch, files),
            path_hits(b, repo, branch, files),
            b.id,
            gone,
            batch,
        ),
{
    let shown = if files.len() > a.hits_left {
        files.take(a.hits_left as int)
    } else {
        files
    };
    let (c, d) = (with_paths(a, repo, branch, shown), with_paths(b, repo, branch, shown));
    assert(c.items =~= gone + d.items);
    same_repo_done(c, d, gone);
    d.items
}

proof fn same_grep_next(
    a: AccountView,
    b: AccountView,
    gone: Seq<JsonView>,
    repo: Seq<char>,
    branch: Seq<char>,
    files: Seq<EntryView>,
    instance: Seq<char>,
) -> (batch: Seq<JsonView>)
    requires
        same_account(a, b, gone),
    ensures
        same_step(
            grep_next(a, repo, branch, files, instance),
            grep_next(b, repo, branch, files, instance),
            b.id,
            gone,
            batch,
        ),
    decreases files.len(),
{
    if files.len() == 0 || a.hits_left == 0 || a.greps_left == 0 {
        same_repo_done(a, b, gone);
        b.items
    } else if fetch_start(instance, repo, files[0].sha) is More {
        let nothing = Seq::<EffectView>::empty();
        assert(nothing + batch_line(b.id, Seq::empty()) =~= nothing);
        assert(gone + Seq::<JsonView>::empty() =~= gone);
        Seq::empty()
    } else {
        same_grep_next(a, b, gone, repo, branch, files.drop_first(), instance)
    }
}

proof fn same_after_part(
    before: Seq<EffectView>,
    plain: CodeStep,
    streaming: CodeStep,
    id: JsonView,
    gone: Seq<JsonView>,
    batch: Seq<JsonView>,
)
    requires
        same_step(plain, streaming, id, gone, batch),
    ensures
        same_step(after_part(before, plain), after_part(before, streaming), id, gone, batch),
{
    assert(before + (plain.1 + batch_line(id, batch)) =~= (before + plain.1) + batch_line(id, batch));
}

/// Streaming changes how hits are handed over, and nothing else: on the same
/// answers, a search that streams takes the same steps as one that does not,
/// and does the same, but for the batches that it sends. Where it ends, its
/// batches, one after another, are the items of the other's reply, and its own
/// reply has no items and the same `truncated`.
pub proof fn streaming_sends_the_same_hits(
    plain: CodeView,
    streaming: CodeView,
    id: JsonView,
    gone: Seq<JsonView>,
    answer: Answer,
    instance: Seq<char>,
) -> (batch: Seq<JsonView>)
    requires
        same_search(plain, streaming, gone),
        id == account_of(streaming).id,
    ensures
        same_step(
            code_fed(plain, answer, instance),
            code_fed(streaming, answer, instance),
            id,
            gone,
            batch,
        ),
{
    let none = Seq::<JsonView>::empty();
    let nothing = Seq::<EffectView>::empty();
    assert(gone + none =~= gone);
    assert(nothing + batch_line(id, none) =~= nothing);
    match (plain, streaming) {
        (CodeView::Scope { account, paging }, CodeView::Scope { account: other, .. }) => {
            if let Answer::Repos(Ok(page)) = answer {
                if let StepView::Done(all) = gather(paging, page.values@, string_opt(page.next)) {
                    let rest = in_scope(all.values);
                    same_next_repo(
                        AccountView { rest, ..account },
                        AccountView { rest, ..other },
                        gone,
                        nothing,
                    );
                }
            }
            none
        },
        (CodeView::Tree { account, repo, at }, CodeView::Tree { account: other, .. }) => {
            let before = tree_effects(at, answer);
            match tree_fed(at, answer) {
                StepView::More(at) => {
                    same_after_part(
                        before,
                        (StepView::More(CodeView::Tree { account, repo, at }), nothing),
                        (StepView::More(CodeView::Tree { account: other, repo, at }), nothing),
                        id,
                        gone,
                        none,
                    );
                    none
                },
                StepView::Done(served) => {
                    let files = candidates(account.filter, served.tree.entries);
                    let batch = if account.filter.terms.len() == 0 {
                        same_path_hits(account, other, gone, repo, served.label, files)
                    } else {
                        same_grep_next(account, other, gone, repo, served.label, files, instance)
                    };
                    same_after_part(
                        before,
                        tree_searched(
                            account,
                            repo,
                            served.label,
                            served.tree.entries,
                            instance,
                        ),
                        tree_searched(other, repo, served.label, served.tree.entries, instance),
                        id,
                        gone,
                        batch,
                    );
                    batch
                },
                StepView::Failed(_) => {
                    same_next_repo(account, other, gone, nothing);
                    same_after_part(
                        before,
                        (next_repo(account), nothing),
                        (next_repo(other), nothing),
                        id,
                        gone,
                        none,
                    );
                    none
                },
            }
        },
        (
            CodeView::Grep { account, repo, branch, file, files, fetch },
            CodeView::Grep { account: other, .. },
        ) => {
            let before = fetch_effects(fetch, answer);
            match fetch_fed(fetch, answer) {
                StepView::More(fetch) => {
                    same_after_part(
                        before,
                        (
                            StepView::More(
                                CodeView::Grep { account, repo, branch, file, files, fetch },
                            ),
                            nothing,
                        ),
                        (
                            StepView::More(
                                CodeView::Grep {
                                    account: other,
                                    repo,
                                    branch,
                                    file,
                                    files,
                                    fetch,
                                },
                            ),
                            nothing,
                        ),
                        id,
                        gone,
                        none,
                    );
                    none
                },
                StepView::Done(bytes) => {
                    let a = blob_grepped(account, repo, branch, file, bytes);
                    let b = blob_grepped(other, repo, branch, file, bytes);
                    assert(a.items =~= gone + b.items);
                    let batch = same_grep_next(a, b, gone, repo, branch, files, instance);
                    same_after_part(
                        before,
                        grep_next(a, repo, branch, files, instance),
                        grep_next(b, repo, branch, files, instance),
                        id,
                        gone,
                        batch,
                    );
                    batch
                },
                StepView::Failed(_) => {
                    let batch = same_grep_next(
                        account,
                        other,
                        gone,
                        repo,
                        branch,
                        files,
                        instance,
                    );
                    same_after_part(
                        before,
                        grep_next(account, repo, branch, files, instance),
                        grep_next(other, repo, branch, files, instance),
                        id,
                        gone,
                        batch,
                    );
                    batch
                },
            }
        },
        _ => none,
    }
}

/// A search begins the same, whether it streams or not.
pub proof fn streaming_begins_the_same(q: Seq<char>, id: JsonView)
    ensures
        match (code_start(q, id, false), code_start(q, id, true)) {
            (Ok(StepView::More(plain)), Ok(StepView::More(streaming))) => same_search(
                plain,
                streaming,
                Seq::empty(),
            ),
            (Err(e), Err(f)) => e == f,
            _ => false,
        },
{
    let none = Seq::<JsonView>::empty();
    assert(none + none =~= none);
}

/// A search that does not stream has all of its hits, and room for the rest of
/// them up to the cap. A blob is grepped only where there is room for a hit.
pub open spec fn within_caps(c: CodeView) -> bool {
    &&& !account_of(c).streams
    &&& account_of(c).items.len() + account_of(c).hits_left == HIT_CAP
    &&& account_of(c).greps_left <= GREP_CAP
    &&& c is Grep ==> account_of(c).hits_left > 0 && account_of(c).greps_left < GREP_CAP
}

/// What a step of a search within its caps comes to.
pub open spec fn step_within_caps(s: CodeStep, by_path: bool) -> bool {
    match s.0 {
        StepView::More(after) => within_caps(after),
        StepView::Done(o) => o.items.len() <= HIT_CAP && (o.truncated && by_path ==> o.items.len()
            == HIT_CAP),
        StepView::Failed(_) => true,
    }
}

proof fn grep_stays_within_caps(
    a: AccountView,
    repo: Seq<char>,
    branch: Seq<char>,
    files: Seq<EntryView>,
    instance: Seq<char>,
)
    requires
        !a.streams,
        a.items.len() + a.hits_left == HIT_CAP,
        a.greps_left <= GREP_CAP,
    ensures
        step_within_caps(grep_next(a, repo, branch, files, instance), false),
    decreases files.len(),
{
    if files.len() > 0 {
        grep_stays_within_caps(a, repo, branch, files.drop_first(), instance);
    }
}

/// Whatever comes in, a search reports no more hits than the cap, and a search
/// by path counts as truncated only where the cap is reached.
pub proof fn hits_are_bounded(c: CodeView, answer: Answer, instance: Seq<char>)
    requires
        within_caps(c),
    ensures
        step_within_caps(
            code_fed(c, answer, instance),
            account_of(c).filter.terms.len() == 0 && c !is Grep,
        ),
{
    match c {
        CodeView::Scope { .. } => {},
        CodeView::Tree { account, repo, at } => {
            if let StepView::Done(served) = tree_fed(at, answer) {
                let files = candidates(account.filter, served.tree.entries);
                grep_stays_within_caps(account, repo, served.label, files, instance);
            }
        },
        CodeView::Grep { account, repo, branch, file, files, fetch } => {
            grep_stays_within_caps(account, repo, branch, files, instance);
            if let StepView::Done(bytes) = fetch_fed(fetch, answer) {
                let a = blob_grepped(account, repo, branch, file, bytes);
                grep_stays_within_caps(a, repo, branch, files, instance);
            }
        },
    }
}

/// A search begins within its caps.
pub proof fn searches_begin_within_caps(q: Seq<char>, id: JsonView)
    ensures
        code_start(q, id, false) matches Ok(StepView::More(begun)) ==> within_caps(begun),
{
}

proof fn grep_takes_from_the_cap(
    a: AccountView,
    repo: Seq<char>,
    branch: Seq<char>,
    files: Seq<EntryView>,
    instance: Seq<char>,
)
    ensures
        grep_next(a, repo, branch, files, instance).0 matches StepView::More(after) ==> {
            &&& account_of(after).greps_left <= a.greps_left
            &&& after is Grep ==> account_of(after).greps_left < a.greps_left
        },
    decreases files.len(),
{
    if files.len() > 0 {
        grep_takes_from_the_cap(a, repo, branch, files.drop_first(), instance);
    }
}

/// Every blob that a search takes up is taken from its cap, so it greps no more
/// of them than [`GREP_CAP`].
pub proof fn greps_are_bounded(c: CodeView, answer: Answer, instance: Seq<char>)
    ensures
        code_fed(c, answer, instance).0 matches StepView::More(after) ==> {
            ||| account_of(after).greps_left < account_of(c).greps_left
            ||| account_of(after).greps_left == account_of(c).greps_left && after !is Grep
            ||| account_of(after).greps_left == account_of(c).greps_left && (c matches CodeView::Grep {
                fetch,
                ..
            } && fetch_fed(fetch, answer) is More)
        },
{
    match c {
        CodeView::Scope { .. } => {},
        CodeView::Tree { account, repo, at } => {
            if let StepView::Done(served) = tree_fed(at, answer) {
                let files = candidates(account.filter, served.tree.entries);
                grep_takes_from_the_cap(account, repo, served.label, files, instance);
            }
        },
        CodeView::Grep { account, repo, branch, file, files, fetch } => {
            grep_takes_from_the_cap(account, repo, branch, files, instance);
            if let StepView::Done(bytes) = fetch_fed(fetch, answer) {
                let a = blob_grepped(account, repo, branch, file, bytes);
                grep_takes_from_the_cap(a, repo, branch, files, instance);
            }
        },
    }
}

/// Not a word to the client but batches of the request that the search answers,
/// and those only where it streams.
pub open spec fn only_batches(fx: Seq<EffectView>, id: JsonView, streams: bool) -> bool {
    forall|i: int|
        0 <= i < fx.len() ==> match #[trigger] fx[i] {
            EffectView::Emit(line) => streams && exists|batch: Seq<JsonView>|
                line == json_text(#[trigger] partial_note(id, batch)),
            _ => true,
        }
}

proof fn grep_says_only_batches(
    a: AccountView,
    repo: Seq<char>,
    branch: Seq<char>,
    files: Seq<EntryView>,
    instance: Seq<char>,
)
    ensures
        only_batches(grep_next(a, repo, branch, files, instance).1, a.id, a.streams),
        grep_next(a, repo, branch, files, instance).0 matches StepView::More(after) ==> account_of(
            after,
        ).id == a.id && account_of(after).streams == a.streams,
    decreases files.len(),
{
    if files.len() > 0 {
        grep_says_only_batches(a, repo, branch, files.drop_first(), instance);
    }
}

/// While a search is under way it says nothing but its batches, and its account
/// stays that of the request.
pub proof fn searches_say_only_batches(c: CodeView, answer: Answer, instance: Seq<char>)
    ensures
        only_batches(code_fed(c, answer, instance).1, account_of(c).id, account_of(c).streams),
        code_fed(c, answer, instance).0 matches StepView::More(after) ==> account_of(after).id
            == account_of(c).id && account_of(after).streams == account_of(c).streams,
{
    match c {
        CodeView::Scope { .. } => {},
        CodeView::Tree { account, repo, at } => {
            if let StepView::Done(served) = tree_fed(at, answer) {
                let files = candidates(account.filter, served.tree.entries);
                grep_says_only_batches(account, repo, served.label, files, instance);
                let shown = if files.len() > account.hits_left {
                    files.take(account.hits_left as int)
                } else {
                    files
                };
                assert(only_batches(
                    batch_of(with_paths(account, repo, served.label, shown)),
                    account.id,
                    account.streams,
                ));
            }
        },
        CodeView::Grep { account, repo, branch, file, files, fetch } => {
            grep_says_only_batches(account, repo, branch, files, instance);
            if let StepView::Done(bytes) = fetch_fed(fetch, answer) {
                let a = blob_grepped(account, repo, branch, file, bytes);
                grep_says_only_batches(a, repo, branch, files, instance);
            }
        },
    }
}

/// One step of a search, as `code_fed` gives it.
#[verifier::opaque]
pub open spec fn code_stepped(c: CodeView, answer: Answer, instance: Seq<char>) -> CodeStep {
    code_fed(c, answer, instance)
}

/// A search on its way through answers, one after another, as long as it waits
/// for one.
pub open spec fn code_run(c: CodeView, answers: Seq<Answer>, instance: Seq<char>) -> CodeStep
    decreases answers.len(),
{
    if answers.len() == 0 {
        (StepView::More(c), Seq::empty())
    } else {
        match code_stepped(c, answers[0], instance) {
            (StepView::More(after), fx) => after_part(
                fx,
                code_run(after, answers.drop_first(), instance),
            ),
            end => end,
        }
    }
}

/// Batches one after another.
pub open spec fn joined(batches: Seq<Seq<JsonView>>) -> Seq<JsonView>
    decreases batches.len(),
{
    if batches.len() == 0 {
        Seq::empty()
    } else {
        batches[0] + joined(batches.drop_first())
    }
}

/// The lines that send batches.
pub open spec fn batch_lines(id: JsonView, batches: Seq<Seq<JsonView>>) -> Seq<EffectView>
    decreases batches.len(),
{
    if batches.len() == 0 {
        Seq::empty()
    } else {
        batch_line(id, batches[0]) + batch_lines(id, batches.drop_first())
    }
}

/// What is said to the client.
pub open spec fn told(fx: Seq<EffectView>) -> Seq<EffectView> {
    fx.filter(|e: EffectView| e is Emit)
}

/// What is done to the cache.
pub open spec fn cached(fx: Seq<EffectView>) -> Seq<EffectView> {
    fx.filter(|e: EffectView| !(e is Emit))
}

proof fn effects_part(a: Seq<EffectView>, b: Seq<EffectView>)
    ensures
        told(a + b) == told(a) + told(b),
        cached(a + b) == cached(a) + cached(b),
{
    Seq::filter_distributes_over_add(a, b, |e: EffectView| e is Emit);
    Seq::filter_distributes_over_add(a, b, |e: EffectView| !(e is Emit));
}

proof fn batch_lines_are_told(id: JsonView, batch: Seq<JsonView>)
    ensures
        told(batch_line(id, batch)) == batch_line(id, batch),
        cached(batch_line(id, batch)) == Seq::<EffectView>::empty(),
{
    let emits = |e: EffectView| e is Emit;
    let keeps = |e: EffectView| !(e is Emit);
    let none = Seq::<EffectView>::empty();
    assert(none.filter(emits) =~= none);
    assert(none.filter(keeps) =~= none);
    if batch.len() > 0 {
        let line = EffectView::Emit(json_text(partial_note(id, batch)));
        none.lemma_filter_push(line, emits);
        none.lemma_filter_push(line, keeps);
        assert(batch_line(id, batch) =~= none.push(line));
    }
}

proof fn nothing_is_told(fx: Seq<EffectView>, id: JsonView)
    requires
        only_batches(fx, id, false),
    ensures
        told(fx) == Seq::<EffectView>::empty(),
    decreases fx.len(),
{
    let emits = |e: EffectView| e is Emit;
    if fx.len() > 0 {
        let before = fx.drop_last();
        assert forall|i: int| 0 <= i < before.len() implies match #[trigger] before[i] {
            EffectView::Emit(line) => false,
            _ => true,
        } by {
            assert(before[i] == fx[i]);
        }
        nothing_is_told(before, id);
        before.lemma_filter_push(fx.last(), emits);
        assert(fx =~= before.push(fx.last()));
        assert(!(fx[fx.len() - 1] is Emit));
    }
}

proof fn one_step_streams(
    plain: CodeView,
    streaming: CodeView,
    id: JsonView,
    gone: Seq<JsonView>,
    answer: Answer,
    instance: Seq<char>,
) -> (batch: Seq<JsonView>)
    requires
        same_search(plain, streaming, gone),
        id == account_of(streaming).id,
    ensures
        told(code_stepped(plain, answer, instance).1) == Seq::<EffectView>::empty(),
        told(code_stepped(streaming, answer, instance).1) == batch_line(id, batch),
        cached(code_stepped(streaming, answer, instance).1) == cached(
            code_stepped(plain, answer, instance).1,
        ),
        same_end(
            code_stepped(plain, answer, instance).0,
            code_stepped(streaming, answer, instance).0,
            gone + batch,
        ),
        code_stepped(streaming, answer, instance).0 matches StepView::More(after) ==> id
            == account_of(after).id,
{
    reveal(code_stepped);
    let batch = streaming_sends_the_same_hits(plain, streaming, id, gone, answer, instance);
    searches_say_only_batches(plain, answer, instance);
    searches_say_only_batches(streaming, answer, instance);
    let p = code_stepped(plain, answer, instance);
    nothing_is_told(p.1, account_of(plain).id);
    effects_part(p.1, batch_line(id, batch));
    batch_lines_are_told(id, batch);
    let nothing = Seq::<EffectView>::empty();
    assert(nothing + batch_line(id, batch) =~= batch_line(id, batch));
    assert(cached(p.1) + nothing =~= cached(p.1));
    batch
}

/// From beginning to end, a search that streams does to the cache what one that
/// does not stream does, and says nothing but batches. Once it has ended, the
/// batches one after another are the items of the other's reply, its own reply
/// has none, and both say the same of whether the search was cut short.
pub proof fn streams_are_replies_in_batches(
    plain: CodeView,
    streaming: CodeView,
    id: JsonView,
    gone: Seq<JsonView>,
    answers: Seq<Answer>,
    instance: Seq<char>,
) -> (batches: Seq<Seq<JsonView>>)
    requires
        same_search(plain, streaming, gone),
        id == account_of(streaming).id,
    ensures
        told(code_run(plain, answers, instance).1) == Seq::<EffectView>::empty(),
        told(code_run(streaming, answers, instance).1) == batch_lines(id, batches),
        cached(code_run(streaming, answers, instance).1) == cached(
            code_run(plain, answers, instance).1,
        ),
        same_end(
            code_run(plain, answers, instance).0,
            code_run(streaming, answers, instance).0,
            gone + joined(batches),
        ),
    decreases answers.len(),
{
    let none = Seq::<Seq<JsonView>>::empty();
    let nothing = Seq::<EffectView>::empty();
    if answers.len() == 0 {
        assert(told(nothing) =~= nothing);
        assert(gone + joined(none) =~= gone);
        none
    } else {
        let batch = one_step_streams(plain, streaming, id, gone, answers[0], instance);
        let (p, s) = (
            code_stepped(plain, answers[0], instance),
            code_stepped(streaming, answers[0], instance),
        );
        match (p.0, s.0) {
            (StepView::More(c), StepView::More(d)) => {
                let rest = answers.drop_first();
                let later = streams_are_replies_in_batches(c, d, id, gone + batch, rest, instance);
                let batches = seq![batch] + later;
                assert(batches.drop_first() =~= later);
                effects_part(p.1, code_run(c, rest, instance).1);
                effects_part(s.1, code_run(d, rest, instance).1);
                assert(nothing + nothing =~= nothing);
                assert(gone + joined(batches) =~= (gone + batch) + joined(later));
                batches
            },
            _ => {
                let batches = seq![batch];
                assert(batches.drop_first() =~= none);
                assert(joined(none) =~= Seq::<JsonView>::empty());
                assert(batch_lines(id, none) =~= nothing);
                assert(joined(batches) =~= batch);
                assert(batch_lines(id, batches) =~= batch_line(id, batch));
                batches
            },
        }
    }
}

}
