//! `search/code` for a forge without a code-search index. A query names a scope
//! (`repo:` or `org:`); its `path:` and `extension:` terms are answered from
//! the tree as path-only hits, and bare terms by grepping the blobs, through
//! the cache that previews read. `truncated` says that hits or blobs were left
//! out: a search reports [`HIT_CAP`] files and greps [`GREP_CAP`] blobs at most.
//! It does not tell of repositories of a workspace past the first
//! [`SCOPE_CAP`], nor of a tree whose own listing is truncated.

use super::{partial_note, refusal, Handler, PartialSink, WireError, WireErrorView};
use super::blob::{fetch_ask, fetch_effects, fetch_fed, fetch_start, BlobFetch, FetchView};
use super::query::{
    bare_extension, candidates, grepped, parse_query, parse_terms, qualifier, terms_of, Filter,
    FilterView,
};
use super::tree::{head_tree, tree_ask, tree_effects, tree_fed, TreeAt, TreeAtView};
use crate::api::{full_url, repo_listing, Repo};
use crate::cache::{entries_view, EntryView, TreeEntry};
use crate::exchange::{effects, Answer, Ask, AskView, Effect, EffectView, Step, StepView};
use crate::json::{self, json, json_all, json_text, text_or_empty, JsonView};
use crate::paging::{gather, Paging, PagingView};
use crate::text::{self, lowercased, string_opt, words};
use serde_json::Value;
use std::collections::VecDeque;
use vstd::prelude::*;

verus! {

/// How many files a search reports.
pub const HIT_CAP: usize = 100;

/// How many blobs a search greps.
pub const GREP_CAP: usize = 200;

/// How many repositories of a workspace a search looks into.
pub const SCOPE_CAP: usize = 20;

/// A search's account: what it looks for, the hits that have not been sent, how
/// many more it takes, how many more blobs it greps, and the repositories that
/// are still to come.
pub struct Account {
    pub sink: PartialSink,
    pub filter: Filter,
    pub items: Vec<Value>,
    pub hits_left: usize,
    pub greps_left: usize,
    pub rest: VecDeque<String>,
}

/// An [`Account`] over plain values.
pub struct AccountView {
    pub id: JsonView,
    pub streams: bool,
    pub filter: FilterView,
    pub items: Seq<JsonView>,
    pub hits_left: nat,
    pub greps_left: nat,
    pub rest: Seq<Seq<char>>,
}

impl View for Account {
    type V = AccountView;

    open spec fn view(&self) -> AccountView {
        AccountView {
            id: json(self.sink.id),
            streams: self.sink.enabled,
            filter: self.filter@,
            items: json_all(self.items@),
            hits_left: self.hits_left as nat,
            greps_left: self.greps_left as nat,
            rest: text::texts(self.rest@),
        }
    }
}

/// `search/code` under way: the repositories of the scope, the tree of one of
/// them, or a blob of its tree.
pub enum CodeSearch {
    Scope { account: Account, paging: Paging<Repo> },
    Tree { account: Account, repo: String, at: TreeAt },
    Grep {
        account: Account,
        repo: String,
        branch: String,
        file: TreeEntry,
        files: VecDeque<TreeEntry>,
        fetch: BlobFetch,
    },
}

/// A [`CodeSearch`] over plain values.
pub enum CodeView {
    Scope { account: AccountView, paging: PagingView<Repo> },
    Tree { account: AccountView, repo: Seq<char>, at: TreeAtView },
    Grep {
        account: AccountView,
        repo: Seq<char>,
        branch: Seq<char>,
        file: EntryView,
        files: Seq<EntryView>,
        fetch: FetchView,
    },
}

impl View for CodeSearch {
    type V = CodeView;

    open spec fn view(&self) -> CodeView {
        match self {
            CodeSearch::Scope { account, paging } => CodeView::Scope {
                account: account@,
                paging: paging@,
            },
            CodeSearch::Tree { account, repo, at } => CodeView::Tree {
                account: account@,
                repo: repo@,
                at: at@,
            },
            CodeSearch::Grep { account, repo, branch, file, files, fetch } => CodeView::Grep {
                account: account@,
                repo: repo@,
                branch: branch@,
                file: file@,
                files: entries_view(files@),
                fetch: fetch@,
            },
        }
    }
}

/// A search's account.
pub open spec fn account_of(c: CodeView) -> AccountView {
    match c {
        CodeView::Scope { account, .. } => account,
        CodeView::Tree { account, .. } => account,
        CodeView::Grep { account, .. } => account,
    }
}

/// What a search ends with: the hits that have not been sent, and whether it
/// was cut short.
pub struct Outcome {
    pub items: Vec<Value>,
    pub truncated: bool,
}

/// An [`Outcome`] over plain values.
pub struct OutcomeView {
    pub items: Seq<JsonView>,
    pub truncated: bool,
}

impl View for Outcome {
    type V = OutcomeView;

    open spec fn view(&self) -> OutcomeView {
        OutcomeView { items: json_all(self.items@), truncated: self.truncated }
    }
}

/// A step of a search, and what it does.
pub type CodeStep = (StepView<CodeView, OutcomeView>, Seq<EffectView>);

/// A hit on the wire.
pub open spec fn hit_object(
    repo: Seq<char>,
    branch: Seq<char>,
    file: EntryView,
    matches: Seq<JsonView>,
) -> JsonView {
    JsonView::Object(
        Map::empty().insert("repo"@, JsonView::Str(repo)).insert(
            "path"@,
            JsonView::Str(file.path),
        ).insert("sha"@, JsonView::Str(file.sha)).insert("branch"@, JsonView::Str(branch)).insert(
            "matches"@,
            JsonView::Array(matches),
        ),
    )
}

/// The hits that are sent once a repository is done.
pub open spec fn batch_of(a: AccountView) -> Seq<EffectView> {
    if a.streams && a.items.len() > 0 {
        seq![EffectView::Emit(json_text(partial_note(a.id, a.items)))]
    } else {
        Seq::empty()
    }
}

/// The account once the hits of a repository are sent.
pub open spec fn sent(a: AccountView) -> AccountView {
    if a.streams {
        AccountView { items: Seq::empty(), ..a }
    } else {
        a
    }
}

/// The tree of the next repository is asked for, until there is none.
pub open spec fn next_repo(a: AccountView) -> StepView<CodeView, OutcomeView> {
    if a.rest.len() == 0 {
        StepView::Done(OutcomeView { items: a.items, truncated: false })
    } else {
        StepView::More(
            CodeView::Tree {
                account: AccountView { rest: a.rest.drop_first(), ..a },
                repo: a.rest[0],
                at: head_tree(a.rest[0]),
            },
        )
    }
}

/// A repository is done.
pub open spec fn repo_done(a: AccountView) -> CodeStep {
    (next_repo(sent(a)), batch_of(a))
}

/// The search is cut short.
pub open spec fn cut_short(a: AccountView) -> CodeStep {
    (StepView::Done(OutcomeView { items: sent(a).items, truncated: true }), batch_of(a))
}

/// Path-only hits follow.
pub open spec fn with_paths(
    a: AccountView,
    repo: Seq<char>,
    branch: Seq<char>,
    files: Seq<EntryView>,
) -> AccountView {
    AccountView {
        items: a.items + files.map_values(
            |f: EntryView| hit_object(repo, branch, f, Seq::empty()),
        ),
        hits_left: (a.hits_left - files.len()) as nat,
        ..a
    }
}

/// The files that were looked for are hits, as long as there is room.
pub open spec fn path_hits(
    a: AccountView,
    repo: Seq<char>,
    branch: Seq<char>,
    files: Seq<EntryView>,
) -> CodeStep {
    if files.len() > a.hits_left {
        cut_short(with_paths(a, repo, branch, files.take(a.hits_left as int)))
    } else {
        repo_done(with_paths(a, repo, branch, files))
    }
}

/// The next of the files is fetched to be grepped, as long as there is room. A
/// file whose blob cannot be named is passed over.
pub open spec fn grep_next(
    a: AccountView,
    repo: Seq<char>,
    branch: Seq<char>,
    files: Seq<EntryView>,
    instance: Seq<char>,
) -> CodeStep
    decreases files.len(),
{
    if files.len() == 0 {
        repo_done(a)
    } else if a.hits_left == 0 || a.greps_left == 0 {
        cut_short(a)
    } else {
        match fetch_start(instance, repo, files[0].sha) {
            StepView::More(fetch) => (
                StepView::More(
                    CodeView::Grep {
                        account: AccountView { greps_left: (a.greps_left - 1) as nat, ..a },
                        repo,
                        branch,
                        file: files[0],
                        files: files.drop_first(),
                        fetch,
                    },
                ),
                Seq::empty(),
            ),
            _ => grep_next(a, repo, branch, files.drop_first(), instance),
        }
    }
}

/// A tree has come in: its files are searched.
pub open spec fn tree_searched(
    a: AccountView,
    repo: Seq<char>,
    branch: Seq<char>,
    entries: Seq<EntryView>,
    instance: Seq<char>,
) -> CodeStep {
    let files = candidates(a.filter, entries);
    if a.filter.terms.len() == 0 {
        path_hits(a, repo, branch, files)
    } else {
        grep_next(a, repo, branch, files, instance)
    }
}

/// A blob has been grepped. Where nothing matched it is no hit.
pub open spec fn blob_grepped(
    a: AccountView,
    repo: Seq<char>,
    branch: Seq<char>,
    file: EntryView,
    bytes: Seq<u8>,
) -> AccountView {
    let matches = grepped(bytes, a.filter.terms);
    if matches.len() == 0 {
        a
    } else {
        AccountView {
            items: a.items.push(hit_object(repo, branch, file, matches)),
            hits_left: if a.hits_left > 0 {
                (a.hits_left - 1) as nat
            } else {
                0
            },
            ..a
        }
    }
}

/// The repositories that a search over a workspace looks into: the first ones.
pub open spec fn in_scope(repos: Seq<Repo>) -> Seq<Seq<char>> {
    let names = repos.map_values(|r: Repo| r.full_name@);
    if names.len() > SCOPE_CAP {
        names.take(SCOPE_CAP as int)
    } else {
        names
    }
}

/// Where the further effects follow on those of a part.
pub open spec fn after_part(before: Seq<EffectView>, s: CodeStep) -> CodeStep {
    (s.0, before + s.1)
}

/// A search goes on with an answer. A repository whose tree cannot be had, and
/// a file whose blob cannot be had, are passed over. An answer that was not
/// asked for changes nothing.
pub open spec fn code_fed(c: CodeView, answer: Answer, instance: Seq<char>) -> CodeStep {
    match c {
        CodeView::Scope { account, paging } => (
            match answer {
                Answer::Repos(Ok(page)) => match gather(
                    paging,
                    page.values@,
                    string_opt(page.next),
                ) {
                    StepView::More(paging) => StepView::More(CodeView::Scope { account, paging }),
                    StepView::Done(all) => next_repo(
                        AccountView { rest: in_scope(all.values), ..account },
                    ),
                    StepView::Failed(e) => StepView::Failed(e),
                },
                Answer::Repos(Err(e)) => StepView::Failed(e@),
                _ => StepView::More(c),
            },
            Seq::empty(),
        ),
        CodeView::Tree { account, repo, at } => after_part(
            tree_effects(at, answer),
            match tree_fed(at, answer) {
                StepView::More(at) => (
                    StepView::More(CodeView::Tree { account, repo, at }),
                    Seq::empty(),
                ),
                StepView::Done(served) => tree_searched(
                    account,
                    repo,
                    served.label,
                    served.tree.entries,
                    instance,
                ),
                StepView::Failed(_) => (next_repo(account), Seq::empty()),
            },
        ),
        CodeView::Grep { account, repo, branch, file, files, fetch } => after_part(
            fetch_effects(fetch, answer),
            match fetch_fed(fetch, answer) {
                StepView::More(fetch) => (
                    StepView::More(CodeView::Grep { account, repo, branch, file, files, fetch }),
                    Seq::empty(),
                ),
                StepView::Done(bytes) => grep_next(
                    blob_grepped(account, repo, branch, file, bytes),
                    repo,
                    branch,
                    files,
                    instance,
                ),
                StepView::Failed(_) => grep_next(account, repo, branch, files, instance),
            },
        ),
    }
}

/// What a search asks.
pub open spec fn code_ask(c: CodeView, instance: Seq<char>) -> AskView {
    match c {
        CodeView::Scope { paging, .. } => AskView::Repos(full_url(instance, paging.next)),
        CodeView::Tree { at, .. } => tree_ask(at, instance),
        CodeView::Grep { fetch, .. } => fetch_ask(fetch),
    }
}

fn hit_value(repo: &str, branch: &str, file: &TreeEntry, matches: Vec<Value>) -> (r: Value)
    ensures
        json(r) == hit_object(repo@, branch@, file@, json_all(matches@)),
{
    let mut v = json::object();
    json::set(&mut v, "repo", json::string(repo));
    json::set(&mut v, "path", json::string(file.path.as_str()));
    json::set(&mut v, "sha", json::string(file.sha.as_str()));
    json::set(&mut v, "branch", json::string(branch));
    json::set(&mut v, "matches", json::array(matches));
    v
}

impl Account {
    fn send(self, fx: &mut Vec<Effect>) -> (r: Account)
        ensures
            r@ == sent(self@),
            effects(final(fx)@) == effects(old(fx)@) + batch_of(self@),
    {
        let ghost before = effects(fx@);
        assert(before + Seq::<EffectView>::empty() =~= before);
        if !self.sink.wants() {
            return self;
        }
        assert(json_all(self.items@).len() == self.items@.len());
        if !self.items.is_empty() {
            self.sink.send(self.items, fx);
            assert(effects(fx@) =~= before + batch_of(self@));
        }
        let r = Account {
            sink: self.sink,
            filter: self.filter,
            items: Vec::new(),
            hits_left: self.hits_left,
            greps_left: self.greps_left,
            rest: self.rest,
        };
        assert(r@.items =~= Seq::empty());
        r
    }

    fn next_repo(self, handler: &Handler) -> (r: Step<CodeSearch, Outcome>)
        ensures
            r@ == next_repo(self@),
    {
        let mut rest = self.rest;
        let ghost rest0 = text::texts(rest@);
        match rest.pop_front() {
            Some(repo) => {
                assert(text::texts(rest@) =~= rest0.drop_first());
                let at = handler.tree_at_commit(repo.as_str());
                let account = Account {
                    sink: self.sink,
                    filter: self.filter,
                    items: self.items,
                    hits_left: self.hits_left,
                    greps_left: self.greps_left,
                    rest,
                };
                Step::More(CodeSearch::Tree { account, repo, at })
            },
            None => Step::Done(Outcome { items: self.items, truncated: false }),
        }
    }

    fn repo_done(self, handler: &Handler, fx: &mut Vec<Effect>) -> (r: Step<CodeSearch, Outcome>)
        ensures
            r@ == repo_done(self@).0,
            effects(final(fx)@) == effects(old(fx)@) + repo_done(self@).1,
    {
        self.send(fx).next_repo(handler)
    }

    fn cut_short(self, fx: &mut Vec<Effect>) -> (r: Step<CodeSearch, Outcome>)
        ensures
            r@ == cut_short(self@).0,
            effects(final(fx)@) == effects(old(fx)@) + cut_short(self@).1,
    {
        let account = self.send(fx);
        Step::Done(Outcome { items: account.items, truncated: true })
    }

    fn path_hits(
        self,
        repo: &str,
        branch: &str,
        files: VecDeque<TreeEntry>,
        handler: &Handler,
        fx: &mut Vec<Effect>,
    ) -> (r: Step<CodeSearch, Outcome>)
        ensures
            r@ == path_hits(self@, repo@, branch@, entries_view(files@)).0,
            effects(final(fx)@) == effects(old(fx)@) + path_hits(
                self@,
                repo@,
                branch@,
                entries_view(files@),
            ).1,
    {
        let ghost all = entries_view(files@);
        let ghost wire = all.map_values(|f: EntryView| hit_object(repo@, branch@, f, Seq::empty()));
        let ghost items0 = json_all(self.items@);
        let mut items = self.items;
        let cut = files.len() > self.hits_left;
        let many: usize = if cut {
            self.hits_left
        } else {
            files.len()
        };
        let mut i: usize = 0;
        assert(json_all(items@) =~= items0 + wire.take(0));
        while i < many
            invariant
                i <= many <= files@.len(),
                all == entries_view(files@),
                wire == all.map_values(
                    |f: EntryView| hit_object(repo@, branch@, f, Seq::empty()),
                ),
                json_all(items@) == items0 + wire.take(i as int),
            decreases many - i,
        {
            let ghost before = json_all(items@);
            let none: Vec<Value> = Vec::new();
            assert(json_all(none@) =~= Seq::empty());
            items.push(hit_value(repo, branch, &files[i], none));
            assert(json_all(items@) =~= before.push(wire[i as int]));
            assert(json_all(items@) =~= items0 + wire.take(i + 1));
            i += 1;
        }
        let account = Account {
            sink: self.sink,
            filter: self.filter,
            items,
            hits_left: self.hits_left - many,
            greps_left: self.greps_left,
            rest: self.rest,
        };
        proof {
            let taken = all.take(many as int);
            assert(taken.map_values(|f: EntryView| hit_object(repo@, branch@, f, Seq::empty()))
                =~= wire.take(many as int));
            if !cut {
                assert(taken =~= all);
            }
            assert(account@ == with_paths(self@, repo@, branch@, taken));
        }
        if cut {
            account.cut_short(fx)
        } else {
            account.repo_done(handler, fx)
        }
    }

    fn grep_next(
        self,
        repo: String,
        branch: String,
        files: VecDeque<TreeEntry>,
        handler: &Handler,
        fx: &mut Vec<Effect>,
    ) -> (r: Step<CodeSearch, Outcome>)
        ensures
            r@ == grep_next(
                self@,
                repo@,
                branch@,
                entries_view(files@),
                handler.bb.instance@,
            ).0,
            effects(final(fx)@) == effects(old(fx)@) + grep_next(
                self@,
                repo@,
                branch@,
                entries_view(files@),
                handler.bb.instance@,
            ).1,
    {
        let mut left = files;
        let ghost whole = grep_next(
            self@,
            repo@,
            branch@,
            entries_view(files@),
            handler.bb.instance@,
        );
        let ghost before = effects(fx@);
        assert(before + Seq::<EffectView>::empty() =~= before);
        while left.len() > 0 && self.hits_left > 0 && self.greps_left > 0
            invariant
                whole == grep_next(
                    self@,
                    repo@,
                    branch@,
                    entries_view(files@),
                    handler.bb.instance@,
                ),
                whole == grep_next(
                    self@,
                    repo@,
                    branch@,
                    entries_view(left@),
                    handler.bb.instance@,
                ),
                effects(fx@) == before,
                before == effects(old(fx)@),
                before + Seq::<EffectView>::empty() == before,
            decreases left@.len(),
        {
            let ghost left0 = entries_view(left@);
            if let Some(file) = left.pop_front() {
                assert(entries_view(left@) =~= left0.drop_first());
                assert(left0[0] == file@);
                if let Step::More(fetch) = handler.blob_bytes(repo.as_str(), file.sha.as_str()) {
                    let account = Account {
                        sink: self.sink,
                        filter: self.filter,
                        items: self.items,
                        hits_left: self.hits_left,
                        greps_left: self.greps_left - 1,
                        rest: self.rest,
                    };
                    return Step::More(
                        CodeSearch::Grep { account, repo, branch, file, files: left, fetch },
                    );
                }
            }
        }
        assert(entries_view(left@).len() == left@.len());
        if left.len() == 0 {
            self.repo_done(handler, fx)
        } else {
            self.cut_short(fx)
        }
    }

    fn tree_searched(
        self,
        repo: String,
        branch: String,
        entries: Vec<TreeEntry>,
        handler: &Handler,
        fx: &mut Vec<Effect>,
    ) -> (r: Step<CodeSearch, Outcome>)
        ensures
            r@ == tree_searched(
                self@,
                repo@,
                branch@,
                entries_view(entries@),
                handler.bb.instance@,
            ).0,
            effects(final(fx)@) == effects(old(fx)@) + tree_searched(
                self@,
                repo@,
                branch@,
                entries_view(entries@),
                handler.bb.instance@,
            ).1,
    {
        let files = self.filter.pick(entries);
        assert(self@.filter.terms.len() == self.filter.terms@.len());
        if self.filter.terms.is_empty() {
            self.path_hits(repo.as_str(), branch.as_str(), files, handler, fx)
        } else {
            self.grep_next(repo, branch, files, handler, fx)
        }
    }

    fn blob_grepped(self, repo: &str, branch: &str, file: &TreeEntry, bytes: &Vec<u8>) -> (r:
        Account)
        ensures
            r@ == blob_grepped(self@, repo@, branch@, file@, bytes@),
    {
        let matches = self.filter.grep(bytes);
        assert(json_all(matches@).len() == matches@.len());
        if matches.is_empty() {
            return self;
        }
        let ghost items0 = json_all(self.items@);
        let ghost hit = hit_object(repo@, branch@, file@, json_all(matches@));
        let mut items = self.items;
        items.push(hit_value(repo, branch, file, matches));
        assert(json_all(items@) =~= items0.push(hit));
        let hits_left: usize = if self.hits_left > 0 {
            self.hits_left - 1
        } else {
            0
        };
        Account {
            sink: self.sink,
            filter: self.filter,
            items,
            hits_left,
            greps_left: self.greps_left,
            rest: self.rest,
        }
    }
}

fn scope_of(repos: &Vec<Repo>) -> (r: VecDeque<String>)
    ensures
        text::texts(r@) == in_scope(repos@),
{
    let ghost names = repos@.map_values(|r: Repo| r.full_name@);
    let mut found: VecDeque<String> = VecDeque::new();
    let mut i: usize = 0;
    assert(text::texts(found@) =~= names.take(0));
    while i < repos.len() && i < SCOPE_CAP
        invariant
            i <= repos@.len(),
            i <= SCOPE_CAP,
            names == repos@.map_values(|r: Repo| r.full_name@),
            text::texts(found@) == names.take(i as int),
        decreases repos@.len() - i,
    {
        let ghost before = text::texts(found@);
        found.push_back(repos[i].full_name.clone());
        assert(text::texts(found@) =~= before.push(names[i as int]));
        assert(names.take(i + 1) =~= before.push(names[i as int]));
        i += 1;
    }
    assert(text::texts(found@) =~= in_scope(repos@));
    found
}

impl CodeSearch {
    /// What the search waits for.
    pub fn ask(&self, handler: &Handler) -> (r: Ask)
        ensures
            r@ == code_ask(self@, handler.bb.instance@),
    {
        match self {
            CodeSearch::Scope { paging, .. } => Ask::Repos(handler.bb.url(paging.next.as_str())),
            CodeSearch::Tree { at, .. } => at.ask(&handler.bb, &handler.cache),
            CodeSearch::Grep { fetch, .. } => fetch.ask(),
        }
    }

    /// Goes on with an answer.
    pub fn feed(self, answer: Answer, handler: &Handler, fx: &mut Vec<Effect>) -> (r: Step<
        CodeSearch,
        Outcome,
    >)
        ensures
            r@ == code_fed(self@, answer, handler.bb.instance@).0,
            effects(final(fx)@) == effects(old(fx)@) + code_fed(
                self@,
                answer,
                handler.bb.instance@,
            ).1,
    {
        let ghost before = effects(fx@);
        assert(before + Seq::<EffectView>::empty() =~= before);
        match self {
            CodeSearch::Scope { account, paging } => match answer {
                Answer::Repos(Ok(page)) => match paging.feed(page) {
                    Step::More(paging) => Step::More(CodeSearch::Scope { account, paging }),
                    Step::Done(all) => {
                        let account = Account {
                            sink: account.sink,
                            filter: account.filter,
                            items: account.items,
                            hits_left: account.hits_left,
                            greps_left: account.greps_left,
                            rest: scope_of(&all.values),
                        };
                        account.next_repo(handler)
                    },
                    Step::Failed(e) => Step::Failed(e),
                },
                Answer::Repos(Err(e)) => Step::Failed(e),
                _ => Step::More(CodeSearch::Scope { account, paging }),
            },
            CodeSearch::Tree { account, repo, at } => {
                let ghost part = tree_effects(at@, answer);
                match at.feed(answer, &handler.bb, &handler.cache, fx) {
                    Step::More(at) => {
                        assert(part + Seq::<EffectView>::empty() =~= part);
                        Step::More(CodeSearch::Tree { account, repo, at })
                    },
                    Step::Done(served) => {
                        let ghost step = tree_searched(
                            account@,
                            repo@,
                            served.label@,
                            served.tree@.entries,
                            handler.bb.instance@,
                        );
                        let r = account.tree_searched(
                            repo,
                            served.label,
                            served.tree.entries,
                            handler,
                            fx,
                        );
                        assert(effects(fx@) =~= before + (part + step.1));
                        r
                    },
                    Step::Failed(_) => {
                        assert(part + Seq::<EffectView>::empty() =~= part);
                        account.next_repo(handler)
                    },
                }
            },
            CodeSearch::Grep { account, repo, branch, file, files, fetch } => {
                let ghost part = fetch_effects(fetch@, answer);
                match fetch.feed(answer, &handler.cache, fx) {
                    Step::More(fetch) => {
                        assert(part + Seq::<EffectView>::empty() =~= part);
                        Step::More(
                            CodeSearch::Grep { account, repo, branch, file, files, fetch },
                        )
                    },
                    Step::Done(bytes) => {
                        let account = account.blob_grepped(
                            repo.as_str(),
                            branch.as_str(),
                            &file,
                            &bytes,
                        );
                        let ghost step = grep_next(
                            account@,
                            repo@,
                            branch@,
                            entries_view(files@),
                            handler.bb.instance@,
                        );
                        let r = account.grep_next(repo, branch, files, handler, fx);
                        assert(effects(fx@) =~= before + (part + step.1));
                        r
                    },
                    Step::Failed(_) => {
                        let ghost step = grep_next(
                            account@,
                            repo@,
                            branch@,
                            entries_view(files@),
                            handler.bb.instance@,
                        );
                        let r = account.grep_next(repo, branch, files, handler, fx);
                        assert(effects(fx@) =~= before + (part + step.1));
                        r
                    },
                }
            },
        }
    }
}

/// What is said of a query that only an index could answer.
pub open spec fn no_index() -> WireErrorView {
    refusal(
        "bitbucket cloud has no code-search API — use file find (leader f) or a path: query scoped to a repo or workspace"@,
    )
}

/// What is said of a path query without a scope.
pub open spec fn no_scope() -> WireErrorView {
    refusal("path-only search needs a repo: or org: scope on bitbucket (no global index)"@)
}

/// What a query looks for.
pub open spec fn filter_of(q: Seq<char>) -> FilterView {
    FilterView {
        path: match qualifier(words(q), "path:"@) {
            Some(p) => Some(lowercased(p)),
            None => None,
        },
        extension: bare_extension(qualifier(words(q), "extension:"@)),
        terms: terms_of(q),
    }
}

/// Nothing is looked for.
pub open spec fn looks_for_nothing(f: FilterView) -> bool {
    f.path is None && f.extension is None && f.terms.len() == 0
}

/// The account that a search opens with.
pub open spec fn opened(
    id: JsonView,
    streams: bool,
    filter: FilterView,
    rest: Seq<Seq<char>>,
) -> AccountView {
    AccountView {
        id,
        streams,
        filter,
        items: Seq::empty(),
        hits_left: HIT_CAP as nat,
        greps_left: GREP_CAP as nat,
        rest,
    }
}

/// `search/code` begins, or the query is refused: one that looks for nothing,
/// and one without a scope. A repository is a narrower scope than a workspace.
pub open spec fn code_start(q: Seq<char>, id: JsonView, streams: bool) -> Result<
    StepView<CodeView, OutcomeView>,
    WireErrorView,
> {
    let filter = filter_of(q);
    if looks_for_nothing(filter) {
        Err(no_index())
    } else {
        match (qualifier(words(q), "repo:"@), qualifier(words(q), "org:"@)) {
            (Some(repo), _) => Ok(next_repo(opened(id, streams, filter, seq![repo]))),
            (None, Some(org)) => Ok(
                StepView::More(
                    CodeView::Scope {
                        account: opened(id, streams, filter, Seq::empty()),
                        paging: repo_listing(org),
                    },
                ),
            ),
            (None, None) => if filter.path is Some {
                Err(no_scope())
            } else {
                Err(no_index())
            },
        }
    }
}

/// What a search ends with, on the wire.
pub open spec fn outcome_object(o: OutcomeView) -> JsonView {
    JsonView::Object(
        Map::empty().insert("items"@, JsonView::Array(o.items)).insert(
            "truncated"@,
            JsonView::Bool(o.truncated),
        ),
    )
}

impl Outcome {
    /// The outcome on the wire.
    pub fn to_json(self) -> (r: Value)
        ensures
            json(r) == outcome_object(self@),
    {
        let mut v = json::object();
        json::set(&mut v, "items", json::array(self.items));
        json::set(&mut v, "truncated", json::boolean(self.truncated));
        v
    }
}

fn open_account(sink: PartialSink, filter: Filter, rest: VecDeque<String>) -> (r: Account)
    ensures
        r@ == opened(json(sink.id), sink.enabled, filter@, text::texts(rest@)),
{
    let r = Account {
        sink,
        filter,
        items: Vec::new(),
        hits_left: HIT_CAP,
        greps_left: GREP_CAP,
        rest,
    };
    assert(r@.items =~= Seq::empty());
    r
}

impl Handler {
    /// Begins `search/code`.
    pub fn search_code(&self, params: &Value, partials: PartialSink) -> (r: Result<
        Step<CodeSearch, Outcome>,
        WireError,
    >)
        ensures
            match code_start(
                text_or_empty(json(*params), "q"@),
                json(partials.id),
                partials.enabled,
            ) {
                Ok(s) => r matches Ok(step) && step@ == s,
                Err(e) => r matches Err(error) && error@ == e,
            },
    {
        let q = json::get_text_or_empty(params, "q");
        let (path, repo, org, extension) = parse_query(q.as_str());
        let terms = parse_terms(q.as_str());
        let path = match path {
            Some(p) => Some(text::lowercase(p.as_str())),
            None => None,
        };
        let by_path = path.is_some();
        let filter = Filter { path, extension, terms };
        assert(filter@ == filter_of(q@));
        assert(filter@.terms.len() == filter.terms@.len());
        if filter.path.is_none() && filter.extension.is_none() && filter.terms.is_empty() {
            return Err(no_index_error());
        }
        match (repo, org) {
            (Some(repo), _) => {
                let mut rest: VecDeque<String> = VecDeque::new();
                rest.push_back(repo);
                assert(text::texts(rest@) =~= seq![repo@]);
                Ok(open_account(partials, filter, rest).next_repo(self))
            },
            (None, Some(org)) => {
                let rest: VecDeque<String> = VecDeque::new();
                assert(text::texts(rest@) =~= Seq::empty());
                let account = open_account(partials, filter, rest);
                let paging = self.bb.workspace_repos(org.as_str());
                Ok(Step::More(CodeSearch::Scope { account, paging }))
            },
            (None, None) => if by_path {
                Err(
                    WireError::refusal(
                        "path-only search needs a repo: or org: scope on bitbucket (no global index)".to_owned(),
                    ),
                )
            } else {
                Err(no_index_error())
            },
        }
    }
}

fn no_index_error() -> (r: WireError)
    ensures
        r@ == no_index(),
{
    WireError::refusal(
        "bitbucket cloud has no code-search API — use file find (leader f) or a path: query scoped to a repo or workspace".to_owned(),
    )
}

}
