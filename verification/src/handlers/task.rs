//! Methods under way: what each asks, and how it goes on with the answer to its
//! reply.

use super::{reply_view, wire_error, Handler, ReplyView, WireError, WireResult};
use super::blob::{
    blob_at_ask, blob_at_effects, blob_at_fed, blob_at_object, blob_object, blob_value, fetch_ask,
    fetch_effects, fetch_fed, Blob, BlobAt, BlobAtView, BlobFetch, BlobView, FetchView,
};
use super::code::{
    blob_grepped, code_ask, code_fed, grep_next, outcome_object, AccountView, CodeSearch, CodeView,
    Outcome, OutcomeView,
};
use super::log::{log_ask, log_effects, log_fed, log_object, log_value, LogAt, LogView};
use super::query::candidates;
use super::refs::{
    refs_ask, refs_effects, refs_fed, refs_object, RefList, RefListView, RefsOf, RefsView,
};
use super::search::{names_object, names_value, search_object, search_value};
use super::tree::{
    repo_tree_ask, repo_tree_effects, repo_tree_fed, tree_fed, tree_object, RepoTree, RepoTreeView,
    Served, ServedView,
};
use super::urls::{clone_object, clone_value, page_object, PageRequest, PageView};
use crate::api::{full_url, repo_path, ApiError, Commit, Repo, Workspace};
use crate::cache::EntryView;
use crate::discovery::{search_ask, search_fed, Groups, SearchView, WorkspaceSearch};
use crate::exchange::{effects, Answer, Ask, AskView, Effect, EffectView, Step, StepView};
use crate::json::JsonView;
use crate::paging::{gather, Gathered, GatheredView, Paging, PagingView};
use crate::text::string_opt;
use vstd::prelude::*;

verus! {

/// A method under way.
pub enum Task {
    SearchRepos { query: String, search: WorkspaceSearch },
    OrgRepos { paging: Paging<Repo> },
    RepoTree { tree: RepoTree },
    RepoBlob { fetch: BlobFetch },
    RepoRefs { refs: RefsOf },
    RepoLog { log: LogAt },
    BlobAt { blob: BlobAt },
    CloneUrl { full_name: String },
    WebUrl { page: PageRequest },
    SearchCode { code: CodeSearch },
}

/// A [`Task`] over plain values.
pub enum TaskView {
    SearchRepos { query: Seq<char>, search: SearchView },
    OrgRepos { paging: PagingView<Repo> },
    RepoTree { tree: RepoTreeView },
    RepoBlob { fetch: FetchView },
    RepoRefs { refs: RefsView },
    RepoLog { log: LogView },
    BlobAt { blob: BlobAtView },
    CloneUrl { full_name: Seq<char> },
    WebUrl { page: PageView },
    SearchCode { code: CodeView },
}

impl View for Task {
    type V = TaskView;

    open spec fn view(&self) -> TaskView {
        match self {
            Task::SearchRepos { query, search } => TaskView::SearchRepos {
                query: query@,
                search: search@,
            },
            Task::OrgRepos { paging } => TaskView::OrgRepos { paging: paging@ },
            Task::RepoTree { tree } => TaskView::RepoTree { tree: tree@ },
            Task::RepoBlob { fetch } => TaskView::RepoBlob { fetch: fetch@ },
            Task::RepoRefs { refs } => TaskView::RepoRefs { refs: refs@ },
            Task::RepoLog { log } => TaskView::RepoLog { log: log@ },
            Task::BlobAt { blob } => TaskView::BlobAt { blob: blob@ },
            Task::CloneUrl { full_name } => TaskView::CloneUrl { full_name: full_name@ },
            Task::WebUrl { page } => TaskView::WebUrl { page: page@ },
            Task::SearchCode { code } => TaskView::SearchCode { code: code@ },
        }
    }
}

/// Where a method stands: it waits for an answer, or it answers the request.
pub enum Turn {
    More(Task),
    Reply(WireResult),
}

/// A [`Turn`] over plain values.
pub enum TurnView {
    More(TaskView),
    Reply(ReplyView),
}

impl View for Turn {
    type V = TurnView;

    open spec fn view(&self) -> TurnView {
        match self {
            Turn::More(task) => TurnView::More(task@),
            Turn::Reply(r) => TurnView::Reply(reply_view(*r)),
        }
    }
}

/// Where a method stands whose work has made a step: work under way is the task
/// that `more` gives, a result answers as `done` puts it on the wire, and a
/// failure answers with its error.
pub open spec fn turn_of<S, R>(
    s: StepView<S, R>,
    more: spec_fn(S) -> TaskView,
    done: spec_fn(R) -> JsonView,
) -> TurnView {
    match s {
        StepView::More(work) => TurnView::More(more(work)),
        StepView::Done(result) => TurnView::Reply(Ok(done(result))),
        StepView::Failed(e) => TurnView::Reply(Err(wire_error(e))),
    }
}

/// Where `search/repos` stands.
pub open spec fn search_turn(
    query: Seq<char>,
    s: StepView<SearchView, Seq<(Workspace, Seq<Repo>)>>,
) -> TurnView {
    turn_of(
        s,
        |search: SearchView| TaskView::SearchRepos { query, search },
        |groups: Seq<(Workspace, Seq<Repo>)>| search_object(query, groups),
    )
}

/// Where `repo/tree` stands.
pub open spec fn tree_turn(s: StepView<RepoTreeView, ServedView>) -> TurnView {
    turn_of(
        s,
        |tree: RepoTreeView| TaskView::RepoTree { tree },
        |served: ServedView| tree_object(served),
    )
}

/// Where `repo/blob` stands.
pub open spec fn blob_turn(s: StepView<FetchView, Seq<u8>>) -> TurnView {
    turn_of(
        s,
        |fetch: FetchView| TaskView::RepoBlob { fetch },
        |bytes: Seq<u8>| blob_object(bytes),
    )
}

/// Where `repo/refs` stands.
pub open spec fn refs_turn(s: StepView<RefsView, RefListView>) -> TurnView {
    turn_of(
        s,
        |refs: RefsView| TaskView::RepoRefs { refs },
        |list: RefListView| refs_object(list),
    )
}

/// Where `repo/log` stands.
pub open spec fn log_turn(
    s: StepView<LogView, GatheredView<Commit>>,
) -> TurnView {
    turn_of(
        s,
        |log: LogView| TaskView::RepoLog { log },
        |all: GatheredView<Commit>| log_object(all),
    )
}

/// Where `repo/blob_at` stands.
pub open spec fn blob_at_turn(s: StepView<BlobAtView, BlobView>) -> TurnView {
    turn_of(
        s,
        |blob: BlobAtView| TaskView::BlobAt { blob },
        |b: BlobView| blob_at_object(b),
    )
}

/// Where `search/code` stands.
pub open spec fn code_turn(s: StepView<CodeView, OutcomeView>) -> TurnView {
    turn_of(
        s,
        |code: CodeView| TaskView::SearchCode { code },
        |o: OutcomeView| outcome_object(o),
    )
}

/// Where `org/repos` stands.
pub open spec fn org_turn(s: StepView<PagingView<Repo>, GatheredView<Repo>>) -> TurnView {
    turn_of(
        s,
        |paging: PagingView<Repo>| TaskView::OrgRepos { paging },
        |all: GatheredView<Repo>| names_object(all.values),
    )
}

/// What a method under way asks.
pub open spec fn task_ask(t: TaskView, instance: Seq<char>) -> AskView {
    match t {
        TaskView::SearchRepos { search, .. } => search_ask(search, instance),
        TaskView::OrgRepos { paging } => AskView::Repos(full_url(instance, paging.next)),
        TaskView::RepoTree { tree } => repo_tree_ask(tree, instance),
        TaskView::RepoBlob { fetch } => fetch_ask(fetch),
        TaskView::RepoRefs { refs } => refs_ask(refs, instance),
        TaskView::RepoLog { log } => log_ask(log, instance),
        TaskView::BlobAt { blob } => blob_at_ask(blob, instance),
        TaskView::CloneUrl { full_name } => AskView::Repo(full_url(instance, repo_path(full_name))),
        TaskView::WebUrl { page } => AskView::Repo(full_url(instance, repo_path(page.full_name))),
        TaskView::SearchCode { code } => code_ask(code, instance),
    }
}

/// A method goes on with an answer. One that was not asked for changes nothing.
pub open spec fn task_fed(t: TaskView, answer: Answer, instance: Seq<char>) -> TurnView {
    match t {
        TaskView::SearchRepos { query, search } => search_turn(query, search_fed(search, answer)),
        TaskView::OrgRepos { paging } => match answer {
            Answer::Repos(Ok(page)) => org_turn(gather(paging, page.values@, string_opt(page.next))),
            Answer::Repos(Err(e)) => TurnView::Reply(Err(wire_error(e@))),
            _ => TurnView::More(t),
        },
        TaskView::RepoTree { tree } => tree_turn(repo_tree_fed(tree, answer)),
        TaskView::RepoBlob { fetch } => blob_turn(fetch_fed(fetch, answer)),
        TaskView::RepoRefs { refs } => refs_turn(refs_fed(refs, answer)),
        TaskView::RepoLog { log } => log_turn(log_fed(log, answer)),
        TaskView::BlobAt { blob } => blob_at_turn(blob_at_fed(blob, answer, instance)),
        TaskView::CloneUrl { .. } => match answer {
            Answer::Repo(Ok(repo)) => TurnView::Reply(Ok(clone_object(repo))),
            Answer::Repo(Err(e)) => TurnView::Reply(Err(wire_error(e@))),
            _ => TurnView::More(t),
        },
        TaskView::WebUrl { page } => match answer {
            Answer::Repo(Ok(repo)) => TurnView::Reply(Ok(page_object(repo, page))),
            Answer::Repo(Err(e)) => TurnView::Reply(Err(wire_error(e@))),
            _ => TurnView::More(t),
        },
        TaskView::SearchCode { code } => code_turn(code_fed(code, answer, instance).0),
    }
}

/// What a method does with an answer.
pub open spec fn task_effects(t: TaskView, answer: Answer, instance: Seq<char>) -> Seq<EffectView> {
    match t {
        TaskView::RepoTree { tree } => repo_tree_effects(tree, answer),
        TaskView::RepoBlob { fetch } => fetch_effects(fetch, answer),
        TaskView::RepoRefs { refs } => refs_effects(refs, answer),
        TaskView::RepoLog { log } => log_effects(log, answer),
        TaskView::BlobAt { blob } => blob_at_effects(blob, answer),
        TaskView::SearchCode { code } => code_fed(code, answer, instance).1,
        _ => Seq::empty(),
    }
}

impl Turn {
    pub(crate) fn failed(e: ApiError) -> (r: Turn)
        ensures
            r@ == TurnView::Reply(Err(wire_error(e@))),
    {
        Turn::Reply(Err(WireError::from_api(&e)))
    }

    pub(crate) fn of_search(query: String, s: Step<WorkspaceSearch, Groups>) -> (r: Turn)
        ensures
            r@ == search_turn(query@, s@),
    {
        match s {
            Step::More(search) => Turn::More(Task::SearchRepos { query, search }),
            Step::Done(groups) => Turn::Reply(Ok(search_value(query.as_str(), &groups))),
            Step::Failed(e) => Turn::failed(e),
        }
    }

    pub(crate) fn of_tree(s: Step<RepoTree, Served>) -> (r: Turn)
        ensures
            r@ == tree_turn(s@),
    {
        match s {
            Step::More(tree) => Turn::More(Task::RepoTree { tree }),
            Step::Done(served) => Turn::Reply(Ok(served.to_json())),
            Step::Failed(e) => Turn::failed(e),
        }
    }

    pub(crate) fn of_blob(s: Step<BlobFetch, Vec<u8>>) -> (r: Turn)
        ensures
            r@ == blob_turn(s@),
    {
        match s {
            Step::More(fetch) => Turn::More(Task::RepoBlob { fetch }),
            Step::Done(bytes) => Turn::Reply(Ok(blob_value(&bytes))),
            Step::Failed(e) => Turn::failed(e),
        }
    }

    pub(crate) fn of_refs(s: Step<RefsOf, RefList>) -> (r: Turn)
        ensures
            r@ == refs_turn(s@),
    {
        match s {
            Step::More(refs) => Turn::More(Task::RepoRefs { refs }),
            Step::Done(list) => Turn::Reply(Ok(list.to_json())),
            Step::Failed(e) => Turn::failed(e),
        }
    }

    pub(crate) fn of_log(s: Step<LogAt, Gathered<Commit>>) -> (r: Turn)
        ensures
            r@ == log_turn(s@),
    {
        match s {
            Step::More(log) => Turn::More(Task::RepoLog { log }),
            Step::Done(all) => Turn::Reply(Ok(log_value(&all))),
            Step::Failed(e) => Turn::failed(e),
        }
    }

    pub(crate) fn of_blob_at(s: Step<BlobAt, Blob>) -> (r: Turn)
        ensures
            r@ == blob_at_turn(s@),
    {
        match s {
            Step::More(blob) => Turn::More(Task::BlobAt { blob }),
            Step::Done(b) => Turn::Reply(Ok(b.to_json())),
            Step::Failed(e) => Turn::failed(e),
        }
    }

    pub(crate) fn of_code(s: Step<CodeSearch, Outcome>) -> (r: Turn)
        ensures
            r@ == code_turn(s@),
    {
        match s {
            Step::More(code) => Turn::More(Task::SearchCode { code }),
            Step::Done(o) => Turn::Reply(Ok(o.to_json())),
            Step::Failed(e) => Turn::failed(e),
        }
    }

    pub(crate) fn of_org(s: Step<Paging<Repo>, Gathered<Repo>>) -> (r: Turn)
        ensures
            r@ == org_turn(s@),
    {
        match s {
            Step::More(paging) => Turn::More(Task::OrgRepos { paging }),
            Step::Done(all) => Turn::Reply(Ok(names_value(&all))),
            Step::Failed(e) => Turn::failed(e),
        }
    }
}

impl Task {
    /// What the method waits for.
    pub fn ask(&self, handler: &Handler) -> (r: Ask)
        ensures
            r@ == task_ask(self@, handler.bb.instance@),
    {
        match self {
            Task::SearchRepos { search, .. } => search.ask(&handler.bb),
            Task::OrgRepos { paging } => Ask::Repos(handler.bb.url(paging.next.as_str())),
            Task::RepoTree { tree } => tree.ask(&handler.bb, &handler.cache),
            Task::RepoBlob { fetch } => fetch.ask(),
            Task::RepoRefs { refs } => refs.ask(handler),
            Task::RepoLog { log } => log.ask(handler),
            Task::BlobAt { blob } => blob.ask(handler),
            Task::CloneUrl { full_name } => handler.bb.repo(full_name.as_str()),
            Task::WebUrl { page } => handler.bb.repo(page.full_name.as_str()),
            Task::SearchCode { code } => code.ask(handler),
        }
    }

    /// Goes on with an answer.
    pub fn feed(self, answer: Answer, handler: &Handler, fx: &mut Vec<Effect>) -> (r: Turn)
        ensures
            r@ == task_fed(self@, answer, handler.bb.instance@),
            effects(final(fx)@) == effects(old(fx)@) + task_effects(
                self@,
                answer,
                handler.bb.instance@,
            ),
    {
        let ghost before = effects(fx@);
        assert(before + Seq::<EffectView>::empty() =~= before);
        match self {
            Task::SearchRepos { query, search } => Turn::of_search(query, search.feed(answer)),
            Task::OrgRepos { paging } => match answer {
                Answer::Repos(Ok(page)) => Turn::of_org(paging.feed(page)),
                Answer::Repos(Err(e)) => Turn::failed(e),
                _ => Turn::More(Task::OrgRepos { paging }),
            },
            Task::RepoTree { tree } => Turn::of_tree(tree.feed(answer, handler, fx)),
            Task::RepoBlob { fetch } => Turn::of_blob(fetch.feed(answer, &handler.cache, fx)),
            Task::RepoRefs { refs } => Turn::of_refs(refs.feed(answer, handler, fx)),
            Task::RepoLog { log } => Turn::of_log(log.feed(answer, handler, fx)),
            Task::BlobAt { blob } => Turn::of_blob_at(blob.feed(answer, handler, fx)),
            Task::CloneUrl { full_name } => match answer {
                Answer::Repo(Ok(repo)) => Turn::Reply(Ok(clone_value(&repo))),
                Answer::Repo(Err(e)) => Turn::failed(e),
                _ => Turn::More(Task::CloneUrl { full_name }),
            },
            Task::WebUrl { page } => match answer {
                Answer::Repo(Ok(repo)) => Turn::Reply(Ok(page.of(&repo))),
                Answer::Repo(Err(e)) => Turn::failed(e),
                _ => Turn::More(Task::WebUrl { page }),
            },
            Task::SearchCode { code } => Turn::of_code(code.feed(answer, handler, fx)),
        }
    }
}

/// An answer of the kind that was asked for.
pub open spec fn answers(ask: AskView, answer: Answer) -> bool {
    match (ask, answer) {
        (AskView::Meta(_), Answer::Meta(_)) => true,
        (AskView::Tree(_), Answer::Tree(_)) => true,
        (AskView::Blob(_), Answer::Blob(_)) => true,
        (AskView::Repo(_), Answer::Repo(_)) => true,
        (AskView::Ref(_), Answer::Ref(_)) => true,
        (AskView::Workspaces(_), Answer::Workspaces(_)) => true,
        (AskView::Repos(_), Answer::Repos(_)) => true,
        (AskView::Entries(_), Answer::Entries(_)) => true,
        (AskView::Refs(_), Answer::Refs(_)) => true,
        (AskView::Commits(_), Answer::Commits(_)) => true,
        (AskView::Bytes(_), Answer::Bytes(_)) => true,
        _ => false,
    }
}

/// The questions of a blob on its way are for bytes: those of the cache, and
/// those of the API.
pub open spec fn asks_for_bytes(f: FetchView) -> bool {
    &&& f.look matches Some(ask) ==> ask is Blob
    &&& f.fetch is Bytes
}

/// Where a method fetches a blob, its questions are for bytes.
pub open spec fn well_asked(t: TaskView) -> bool {
    match t {
        TaskView::RepoBlob { fetch } => asks_for_bytes(fetch),
        TaskView::BlobAt { blob: BlobAtView::Blob { fetch } } => asks_for_bytes(fetch),
        TaskView::SearchCode { code: CodeView::Grep { fetch, .. } } => asks_for_bytes(fetch),
        _ => true,
    }
}

/// An answer that a method has not asked for changes nothing: it still asks what
/// it asked before, and does nothing.
pub proof fn unasked_answers_change_nothing(t: TaskView, answer: Answer, instance: Seq<char>)
    requires
        well_asked(t),
        !answers(task_ask(t, instance), answer),
    ensures
        task_fed(t, answer, instance) == TurnView::More(t),
        task_effects(t, answer, instance) == Seq::<EffectView>::empty(),
{
    let none = Seq::<EffectView>::empty();
    assert(none + none =~= none);
}

proof fn greps_ask_for_bytes(
    a: AccountView,
    repo: Seq<char>,
    branch: Seq<char>,
    files: Seq<EntryView>,
    instance: Seq<char>,
)
    ensures
        grep_next(a, repo, branch, files, instance).0 matches StepView::More(code) ==> well_asked(
            TaskView::SearchCode { code },
        ),
    decreases files.len(),
{
    if files.len() > 0 {
        greps_ask_for_bytes(a, repo, branch, files.drop_first(), instance);
    }
}

/// Whatever comes in, the questions for blobs stay questions for bytes.
pub proof fn methods_stay_well_asked(t: TaskView, answer: Answer, instance: Seq<char>)
    requires
        well_asked(t),
    ensures
        task_fed(t, answer, instance) matches TurnView::More(after) ==> well_asked(after),
{
    if let TaskView::SearchCode { code } = t {
        match code {
            CodeView::Scope { .. } => {},
            CodeView::Tree { account, repo, at } => {
                if let StepView::Done(served) = tree_fed(at, answer) {
                    greps_ask_for_bytes(
                        account,
                        repo,
                        served.label,
                        candidates(account.filter, served.tree.entries),
                        instance,
                    );
                }
            },
            CodeView::Grep { account, repo, branch, file, files, fetch } => {
                greps_ask_for_bytes(account, repo, branch, files, instance);
                if let StepView::Done(bytes) = fetch_fed(fetch, answer) {
                    greps_ask_for_bytes(
                        blob_grepped(account, repo, branch, file, bytes),
                        repo,
                        branch,
                        files,
                        instance,
                    );
                }
            },
        }
    }
}

}
