//! Requests: what a message asks for, which method serves it, and what its answer
//! looks like.

use super::revision::{blob_resolving, full_hash, log_resolving, revisions_begin, tree_resolving};
use super::texts::splits_are_at_the_first;
use super::tree::at_commit;
use super::wire::array_member;
use crate::{
    begun, remaining, reply_object, request_of, root_after, run, said, PendingView, Request,
};
use crate::exchange::{Answer, EffectView, StepView};
use crate::handlers::{
    dispatched, error_object, opted_in, partial_note, wire_error, ReplyView, WireErrorView,
};
use crate::handlers::blob::{fetch_start, BlobAtView};
use crate::handlers::code::code_start;
use crate::handlers::initialize::rooted;
use crate::handlers::log::LogView;
use crate::handlers::refs::RefsView;
use crate::handlers::search::{search_object, search_start};
use crate::handlers::task::{task_effects, task_fed, TaskView, TurnView};
use crate::handlers::tree::{PinView, PinnedView};
use crate::json::{
    bool_member, json_text, member, text_member, text_or_empty, uint_member, JsonView,
};
use crate::text::{decimal, in_quotes};
use vstd::prelude::*;

verus! {

/// A message is a request exactly where it has an id and a method that is a text.
/// Its parameters are those that it carries, or none.
pub proof fn requests_have_id_and_method(
    message: JsonView,
    id: JsonView,
    method: Seq<char>,
    params: JsonView,
)
    ensures
        request_of(message) is Some <==> member(message, "id"@) is Some && text_member(
            message,
            "method"@,
        ) is Some,
        member(message, "id"@) == Some(id) && text_member(message, "method"@) == Some(method) ==> {
            &&& request_of(message) matches Some(request)
            &&& request.id == id
            &&& request.method == method
            &&& member(message, "params"@) == Some(params) ==> request.params == params
            &&& member(message, "params"@) is None ==> forall|key: Seq<char>|
                member(request.params, key) is None
        },
{
}

/// An answer carries the id of its request, and a result or an error, never both.
pub proof fn answers_carry_the_id(id: JsonView, result: JsonView, error: WireErrorView)
    ensures
        ({
            let good: ReplyView = Ok(result);
            let bad: ReplyView = Err(error);
            let (v, e) = (reply_object(id, good), reply_object(id, bad));
            &&& text_member(v, "jsonrpc"@) == Some("2.0"@)
            &&& text_member(e, "jsonrpc"@) == Some("2.0"@)
            &&& member(v, "id"@) == Some(id)
            &&& member(e, "id"@) == Some(id)
            &&& member(v, "result"@) == Some(result)
            &&& member(v, "error"@) is None
            &&& member(e, "error"@) == Some(error_object(error))
            &&& member(e, "result"@) is None
        }),
{
    reveal_strlit("jsonrpc");
    reveal_strlit("id");
    reveal_strlit("result");
    reveal_strlit("error");
    assert("jsonrpc"@.len() == 7 && "id"@.len() == 2 && "result"@.len() == 6 && "error"@.len() == 5);
}

/// A batch is a notification with the id of its request and the items, in order.
/// A request gets batches exactly where it says that it wants them.
pub proof fn batches_carry_the_id(id: JsonView, items: Seq<JsonView>, params: JsonView)
    ensures
        ({
            let v = partial_note(id, items);
            &&& text_member(v, "jsonrpc"@) == Some("2.0"@)
            &&& text_member(v, "method"@) == Some("$/partial"@)
            &&& member(v, "id"@) is None
            &&& member(v, "params"@) matches Some(inner)
            &&& member(inner, "id"@) == Some(id)
            &&& array_member(inner, "items"@) == Some(items)
        }),
        opted_in(params) <==> member(params, "partial"@) == Some(JsonView::Bool(true)),
{
    reveal_strlit("jsonrpc");
    reveal_strlit("method");
    reveal_strlit("params");
    reveal_strlit("id");
    reveal_strlit("items");
    assert("jsonrpc"@.len() == 7 && "method"@.len() == 6 && "params"@.len() == 6 && "id"@.len() == 2
        && "items"@.len() == 5);
    assert("method"@[0] == 'm' && "params"@[0] == 'p');
}

/// The methods that there are.
pub open spec fn known_method(method: Seq<char>) -> bool {
    ||| method == "initialize"@
    ||| method == "search/repos"@
    ||| method == "org/repos"@
    ||| method == "repo/tree"@
    ||| method == "repo/blob"@
    ||| method == "repo/refs"@
    ||| method == "repo/log"@
    ||| method == "repo/blob_at"@
    ||| method == "repo/clone_url"@
    ||| method == "repo/web_url"@
    ||| method == "org/url"@
    ||| method == "search/code"@
}

proof fn methods_differ()
    ensures
        "search/repos"@ != "initialize"@,
        "org/repos"@ != "initialize"@,
        "org/repos"@ != "search/repos"@,
        "org/url"@.len() == 7 && "repo/log"@.len() == 8 && "org/repos"@.len() == 9
            && "repo/tree"@.len() == 9 && "repo/blob"@.len() == 9 && "repo/refs"@.len() == 9
            && "initialize"@.len() == 10 && "search/code"@.len() == 11 && "search/repos"@.len()
            == 12 && "repo/blob_at"@.len() == 12 && "repo/web_url"@.len() == 12
            && "repo/clone_url"@.len() == 14,
        "org/repos"@ != "repo/tree"@,
        "org/repos"@ != "repo/blob"@,
        "org/repos"@ != "repo/refs"@,
        "repo/tree"@ != "repo/blob"@,
        "repo/tree"@ != "repo/refs"@,
        "repo/blob"@ != "repo/refs"@,
        "search/repos"@ != "repo/blob_at"@,
        "search/repos"@ != "repo/web_url"@,
        "repo/blob_at"@ != "repo/web_url"@,
{
    reveal_strlit("initialize");
    reveal_strlit("search/repos");
    reveal_strlit("org/repos");
    reveal_strlit("repo/tree");
    reveal_strlit("repo/blob");
    reveal_strlit("repo/refs");
    reveal_strlit("repo/log");
    reveal_strlit("repo/blob_at");
    reveal_strlit("repo/clone_url");
    reveal_strlit("repo/web_url");
    reveal_strlit("org/url");
    reveal_strlit("search/code");
    assert("org/repos"@[0] == 'o' && "repo/tree"@[0] == 'r' && "repo/blob"@[0] == 'r'
        && "repo/refs"@[0] == 'r');
    assert("repo/tree"@[5] == 't' && "repo/blob"@[5] == 'b' && "repo/refs"@[5] == 'r');
    assert("search/repos"@[0] == 's' && "repo/blob_at"@[0] == 'r' && "repo/web_url"@[0] == 'r');
    assert("repo/blob_at"@[5] == 'b' && "repo/web_url"@[5] == 'w');
}

/// A method that there is not is refused by this provider, and the error names it.
pub proof fn unknown_methods_are_refused(
    method: Seq<char>,
    params: JsonView,
    id: JsonView,
    streams: bool,
    instance: Seq<char>,
    workspaces: Seq<String>,
)
    requires
        !known_method(method),
    ensures
        dispatched(method, params, id, streams, instance, workspaces) matches TurnView::Reply(
            Err(e),
        ) && e.kind == "provider"@ && e.message == "unknown method "@ + in_quotes(method)
            && e.retry_after_s is None,
{
}

/// A text parameter, empty where it is missing or no text.
pub open spec fn parameter(params: JsonView, key: Seq<char>, value: Seq<char>) -> bool {
    ||| member(params, key) == Some(JsonView::Str(value))
    ||| value.len() == 0 && !(member(params, key) matches Some(JsonView::Str(_)))
}

proof fn parameters_are_read(params: JsonView, key: Seq<char>, value: Seq<char>)
    requires
        parameter(params, key, value),
    ensures
        text_or_empty(params, key) == value,
{
    if !(member(params, key) matches Some(JsonView::Str(_))) {
        assert(value =~= Seq::<char>::empty());
    }
}

/// A text parameter that may be left out.
pub open spec fn option(params: JsonView, key: Seq<char>, value: Option<Seq<char>>) -> bool {
    match value {
        Some(v) => member(params, key) == Some(JsonView::Str(v)),
        None => !(member(params, key) matches Some(JsonView::Str(_))),
    }
}

/// A number parameter that may be left out.
pub open spec fn number(params: JsonView, key: Seq<char>, value: Option<u64>) -> bool {
    match value {
        Some(n) => member(params, key) == Some(JsonView::UInt(n)),
        None => !(member(params, key) matches Some(JsonView::UInt(_))),
    }
}

/// `repo/tree` is for the repository and the ref of the request: without a ref for
/// the default branch, with another try; at a full commit hash without resolving
/// anything; otherwise for the ref.
pub proof fn trees_begin_with_their_revision(
    params: JsonView,
    repo: Seq<char>,
    revision: Option<Seq<char>>,
    id: JsonView,
    streams: bool,
    instance: Seq<char>,
    workspaces: Seq<String>,
)
    requires
        parameter(params, "repo"@, repo),
        option(params, "ref"@, revision),
    ensures
        dispatched("repo/tree"@, params, id, streams, instance, workspaces) == TurnView::More(
            match revision {
                None => tree_resolving(repo, true, PinView::Meta { full_name: repo }),
                Some(r) => if full_hash(r) {
                    at_commit(
                        repo,
                        false,
                        PinnedView { label: r, commit: r },
                    )
                } else {
                    tree_resolving(repo, false, PinView::Branch { full_name: repo, name: r })
                },
            },
        ),
{
    methods_differ();
    parameters_are_read(params, "repo"@, repo);
    if let Some(r) = revision {
        revisions_begin(repo, r);
    }
}

/// The listing of a history from a commit backwards: of so many commits, in pages
/// of at most 100, and of those that touch the path where one is given.
pub open spec fn lists_history(
    turn: TurnView,
    full_name: Seq<char>,
    commit: Seq<char>,
    path: Option<Seq<char>>,
    limit: nat,
) -> bool {
    let all = "/2.0/repositories/"@ + full_name + "/commits?include="@ + commit + "&pagelen="@
        + decimal(
        if limit > 100 {
            100
        } else {
            limit
        },
    );
    &&& turn matches TurnView::More(TaskView::RepoLog { log: LogView::List { log } })
    &&& log.cap == limit
    &&& log.out.len() == 0
    &&& path is None ==> log.next == all
    &&& path matches Some(p) ==> log.next == all + "&path="@ + p
}

/// The depth of a history: what was asked for, between 1 and 500, and 200 where
/// nothing was.
pub open spec fn depth(limit: Option<u64>, n: nat) -> bool {
    match limit {
        None => n == 200,
        Some(l) => {
            &&& l == 0 ==> n == 1
            &&& 1 <= l <= 500 ==> n == l
            &&& l > 500 ==> n == 500
        },
    }
}

/// `repo/log` is for the repository, the path, the ref and the limit of the
/// request.
pub proof fn logs_begin_with_their_revision(
    params: JsonView,
    repo: Seq<char>,
    path: Option<Seq<char>>,
    revision: Option<Seq<char>>,
    limit: Option<u64>,
    n: nat,
    id: JsonView,
    streams: bool,
    instance: Seq<char>,
    workspaces: Seq<String>,
)
    requires
        parameter(params, "repo"@, repo),
        option(params, "path"@, path),
        option(params, "ref"@, revision),
        number(params, "limit"@, limit),
        depth(limit, n),
    ensures
        ({
            let turn = dispatched("repo/log"@, params, id, streams, instance, workspaces);
            &&& revision is None ==> turn == TurnView::More(
                log_resolving(repo, path, n, PinView::Meta { full_name: repo }),
            )
            &&& revision matches Some(r) ==> full_hash(r) ==> lists_history(turn, repo, r, path, n)
            &&& revision matches Some(r) ==> !full_hash(r) ==> turn == TurnView::More(
                log_resolving(repo, path, n, PinView::Branch { full_name: repo, name: r }),
            )
        }),
{
    methods_differ();
    parameters_are_read(params, "repo"@, repo);
    if let Some(r) = revision {
        revisions_begin(repo, r);
    }
}

/// `repo/blob_at` is for the repository, the path and the ref of the request.
pub proof fn blobs_begin_with_their_revision(
    params: JsonView,
    repo: Seq<char>,
    path: Seq<char>,
    revision: Option<Seq<char>>,
    id: JsonView,
    streams: bool,
    instance: Seq<char>,
    workspaces: Seq<String>,
)
    requires
        parameter(params, "repo"@, repo),
        parameter(params, "path"@, path),
        option(params, "ref"@, revision),
    ensures
        ({
            let turn = dispatched("repo/blob_at"@, params, id, streams, instance, workspaces);
            &&& revision is None ==> turn == TurnView::More(
                blob_resolving(repo, path, PinView::Meta { full_name: repo }),
            )
            &&& revision matches Some(r) ==> full_hash(r) ==> {
                let begun = fetch_start(instance, repo, r + seq![':'] + path);
                &&& begun matches StepView::More(fetch) ==> turn == TurnView::More(
                    TaskView::BlobAt { blob: BlobAtView::Blob { fetch } },
                )
                &&& begun is More
            }
            &&& revision matches Some(r) ==> !full_hash(r) ==> turn == TurnView::More(
                blob_resolving(repo, path, PinView::Branch { full_name: repo, name: r }),
            )
        }),
{
    methods_differ();
    parameters_are_read(params, "repo"@, repo);
    parameters_are_read(params, "path"@, path);
    if let Some(r) = revision {
        revisions_begin(repo, r);
        splits_are_at_the_first(r + seq![':'] + path, ':', r, path);
        assert((r + seq![':'] + path)[r.len() as int] == ':');
    }
}

/// `repo/blob` is for the repository and the content id of the request;
/// `repo/clone_url` for the repository; `repo/web_url` for the repository, path,
/// branch and line, and for a file only where the request says so.
pub proof fn blobs_and_addresses_begin(
    params: JsonView,
    repo: Seq<char>,
    sha: Seq<char>,
    path: Seq<char>,
    branch: Seq<char>,
    line: Option<u64>,
    id: JsonView,
    streams: bool,
    instance: Seq<char>,
    workspaces: Seq<String>,
)
    requires
        parameter(params, "repo"@, repo),
        parameter(params, "sha"@, sha),
        parameter(params, "path"@, path),
        parameter(params, "branch"@, branch),
        number(params, "line"@, line),
    ensures
        ({
            let turn = dispatched("repo/blob"@, params, id, streams, instance, workspaces);
            match fetch_start(instance, repo, sha) {
                StepView::More(fetch) => turn == TurnView::More(TaskView::RepoBlob { fetch }),
                StepView::Failed(e) => turn == TurnView::Reply(Err(wire_error(e))),
                StepView::Done(_) => false,
            }
        }),
        dispatched("repo/clone_url"@, params, id, streams, instance, workspaces) == TurnView::More(
            TaskView::CloneUrl { full_name: repo },
        ),
        ({
            let turn = dispatched("repo/web_url"@, params, id, streams, instance, workspaces);
            &&& turn matches TurnView::More(TaskView::WebUrl { page })
            &&& page.full_name == repo
            &&& page.path == path
            &&& page.branch == branch
            &&& page.line == line
            &&& page.is_file <==> member(params, "is_file"@) == Some(JsonView::Bool(true))
        }),
{
    methods_differ();
    parameters_are_read(params, "repo"@, repo);
    parameters_are_read(params, "sha"@, sha);
    parameters_are_read(params, "path"@, path);
    parameters_are_read(params, "branch"@, branch);
}

/// `repo/refs` lists all the branches of the repository first. `org/repos` lists
/// the repositories of the workspace, and `org/url` is the workspace's page.
pub proof fn listings_begin(
    params: JsonView,
    repo: Seq<char>,
    org: Seq<char>,
    id: JsonView,
    streams: bool,
    instance: Seq<char>,
    workspaces: Seq<String>,
)
    requires
        parameter(params, "repo"@, repo),
        parameter(params, "org"@, org),
    ensures
        ({
            let turn = dispatched("repo/refs"@, params, id, streams, instance, workspaces);
            &&& turn matches TurnView::More(
                TaskView::RepoRefs { refs: RefsView::Branches { full_name, paging } },
            )
            &&& full_name == repo
            &&& paging.next == "/2.0/repositories/"@ + repo + "/refs/branches?pagelen=100"@
            &&& paging.out.len() == 0
            &&& paging.cap == usize::MAX
        }),
        ({
            let turn = dispatched("org/repos"@, params, id, streams, instance, workspaces);
            &&& turn matches TurnView::More(TaskView::OrgRepos { paging })
            &&& paging.next == "/2.0/repositories/"@ + org + "?pagelen=100&sort=-updated_on"@
            &&& paging.out.len() == 0
            &&& paging.cap == 500
        }),
        ({
            let turn = dispatched("org/url"@, params, id, streams, instance, workspaces);
            &&& turn matches TurnView::Reply(Ok(v))
            &&& text_member(v, "url"@) == Some("https://bitbucket.org/"@ + org)
        }),
{
    methods_differ();
    parameters_are_read(params, "repo"@, repo);
    parameters_are_read(params, "org"@, org);
}

/// `search/repos` and `search/code` are for the query of the request, and the
/// batches of a search go by the id of the request.
pub proof fn searches_begin_with_their_query(
    params: JsonView,
    query: Seq<char>,
    q: Seq<char>,
    id: JsonView,
    streams: bool,
    instance: Seq<char>,
    workspaces: Seq<String>,
)
    requires
        parameter(params, "query"@, query),
        parameter(params, "q"@, q),
    ensures
        ({
            let turn = dispatched("search/repos"@, params, id, streams, instance, workspaces);
            match search_start(workspaces, query) {
                StepView::More(search) => turn == TurnView::More(
                    TaskView::SearchRepos { query, search },
                ),
                StepView::Done(groups) => turn == TurnView::Reply(Ok(search_object(query, groups))),
                StepView::Failed(_) => false,
            }
        }),
        ({
            let turn = dispatched("search/code"@, params, id, streams, instance, workspaces);
            match code_start(q, id, streams) {
                Ok(StepView::More(code)) => turn == TurnView::More(TaskView::SearchCode { code }),
                Ok(_) => false,
                Err(e) => turn == TurnView::Reply(Err(e)),
            }
        }),
{
    methods_differ();
    parameters_are_read(params, "query"@, query);
    parameters_are_read(params, "q"@, q);
}

/// The handshake says what the provider is and can do, whatever the client sends:
/// there is neither a code-search index nor blame. Where the client names a
/// directory the cache is rooted there, and no other method moves it.
pub proof fn handshakes_say_what_there_is(
    params: JsonView,
    before: Option<Seq<char>>,
    dir: Seq<char>,
    id: JsonView,
    method: Seq<char>,
    streams: bool,
    instance: Seq<char>,
    workspaces: Seq<String>,
)
    ensures
        ({
            let turn = dispatched("initialize"@, params, id, streams, instance, workspaces);
            &&& turn matches TurnView::Reply(Ok(v))
            &&& uint_member(v, "protocol"@) == Some(1u64)
            &&& text_member(v, "name"@) == Some("bitbucket"@)
            &&& text_member(v, "icon"@) == Some("bitbucket"@)
            &&& member(v, "capabilities"@) matches Some(can)
            &&& bool_member(can, "orgs"@) == Some(true)
            &&& bool_member(can, "code_search"@) == Some(false)
            &&& bool_member(can, "file_search"@) == Some(true)
            &&& bool_member(can, "refs"@) == Some(true)
            &&& bool_member(can, "log"@) == Some(true)
            &&& bool_member(can, "blame"@) == Some(false)
        }),
        member(params, "cache_dir"@) == Some(JsonView::Str(dir)) ==> rooted(before, params) == Some(
            dir,
        ),
        !(member(params, "cache_dir"@) matches Some(JsonView::Str(_))) ==> rooted(before, params)
            == before,
        root_after(Request { id, method: "initialize"@, params }, before) == rooted(before, params),
        method != "initialize"@ ==> root_after(Request { id, method, params }, before) == before,
{
    reveal_strlit("protocol");
    reveal_strlit("name");
    reveal_strlit("icon");
    reveal_strlit("capabilities");
    assert("protocol"@.len() == 8 && "name"@.len() == 4 && "icon"@.len() == 4
        && "capabilities"@.len() == 12);
    assert("name"@[0] == 'n' && "icon"@[0] == 'i');
    reveal_strlit("orgs");
    reveal_strlit("code_search");
    reveal_strlit("file_search");
    reveal_strlit("refs");
    reveal_strlit("log");
    reveal_strlit("blame");
    assert("orgs"@.len() == 4 && "code_search"@.len() == 11 && "file_search"@.len() == 11
        && "refs"@.len() == 4 && "log"@.len() == 3 && "blame"@.len() == 5);
    assert("orgs"@[0] == 'o' && "refs"@[0] == 'r' && "code_search"@[0] == 'c' && "file_search"@[0]
        == 'f');
}

/// A turn that answers says so in one line and leaves nothing of the request; any
/// other says nothing, and the request waits with its id. A request begins with
/// its own method, parameters and id, and gets batches only where it wants them.
pub proof fn turns_answer_or_wait(
    id: JsonView,
    task: TaskView,
    reply: ReplyView,
    request: Request,
    instance: Seq<char>,
    workspaces: Seq<String>,
)
    ensures
        said(id, TurnView::More(task)).len() == 0,
        remaining(id, TurnView::More(task)) == Some(PendingView { id, task }),
        said(id, TurnView::Reply(reply)) == seq![
            EffectView::Emit(json_text(reply_object(id, reply))),
        ],
        remaining(id, TurnView::Reply(reply)) is None,
        begun(request, instance, workspaces) == dispatched(
            request.method,
            request.params,
            request.id,
            member(request.params, "partial"@) == Some(JsonView::Bool(true)),
            instance,
            workspaces,
        ),
{
}

/// Answers are taken one after another: what is done for a request with one more
/// answer is what was done before and what that answer brings, and a request that
/// has been answered takes no further answer.
pub proof fn answers_are_taken_in_order(
    p: PendingView,
    first: Answer,
    later: Seq<Answer>,
    instance: Seq<char>,
)
    ensures
        run(p, Seq::empty(), instance) == (Some(p), Seq::<EffectView>::empty()),
        ({
            let turn = task_fed(p.task, first, instance);
            let done = task_effects(p.task, first, instance);
            let all = run(p, seq![first] + later, instance);
            match turn {
                TurnView::More(task) => {
                    let rest = run(PendingView { id: p.id, task }, later, instance);
                    all.0 == rest.0 && all.1 == done + rest.1
                },
                TurnView::Reply(reply) => all.0 is None && all.1 == done + seq![
                    EffectView::Emit(json_text(reply_object(p.id, reply))),
                ],
            }
        }),
{
    assert((seq![first] + later).drop_first() =~= later);
    let done = task_effects(p.task, first, instance);
    assert(done + Seq::<EffectView>::empty() =~= done);
}

}
