//! The protocol's surface: the state that requests share, the error taxonomy,
//! the `$/partial` channel, and dispatch with one method per arm. The methods
//! themselves live in the submodules, by concern.
//!
//! The capabilities declare the split: `code_search: false, file_search: true`,
//! since Bitbucket Cloud has no code-search index. Queries are answered from
//! the commit-pinned tree: path and extension terms as path-only hits, bare
//! terms by grepping the fetched blobs. `refs: true, log: true` are served;
//! `blame: false` is the honest answer, and dispatch has no `repo/blame` arm,
//! so the call fails as an unknown method.

pub mod blob;
pub mod code;
pub mod initialize;
pub mod log;
pub mod query;
pub mod refs;
pub mod search;
pub mod streaming;
pub mod task;
pub mod tree;
pub mod urls;

use crate::api::{
    branch_listing, malformed_id, no_credentials, over_cap, repo_listing, ApiError, Bitbucket,
    ErrorView,
};
use crate::cache::Cache;
use crate::exchange::{effects, note, Effect, EffectView, Line};
use crate::json::{
    self, bool_member, json, json_all, json_text, text_member, text_or_empty, uint_member, JsonView,
};
use crate::text::{self, string_opt, without_trailing};
use blob::{blob_at_start, fetch_start};
use code::code_start;
use initialize::{handshake, rooted};
use log::log_start;
use refs::RefsView;
use search::search_start;
use serde_json::Value;
use task::{
    blob_at_turn, blob_turn, code_turn, log_turn, search_turn, tree_turn, well_asked, Task,
    TaskView, Turn, TurnView,
};
use tree::{no_such_ref, no_such_repo, repo_tree_start};
use urls::{url_object, PageRequest, PageView};
use vstd::prelude::*;
use vstd::string::StringExecFns;

verus! {

/// What requests share.
#[derive(Debug)]
pub struct Handler {
    pub bb: Bitbucket,
    /// The workspaces to serve where discovery cannot run (a token scoped to
    /// repositories only).
    pub workspaces: Vec<String>,
    /// Rooted where the handshake says, otherwise at the default.
    pub cache: Cache,
}

/// An error on the wire: what it means rides in `data.kind`.
#[derive(Debug)]
pub struct WireError {
    pub kind: &'static str,
    pub message: String,
    pub retry_after_s: Option<u64>,
}

/// A [`WireError`] over plain sequences.
pub struct WireErrorView {
    pub kind: Seq<char>,
    pub message: Seq<char>,
    pub retry_after_s: Option<u64>,
}

impl View for WireError {
    type V = WireErrorView;

    open spec fn view(&self) -> WireErrorView {
        WireErrorView {
            kind: self.kind@,
            message: self.message@,
            retry_after_s: self.retry_after_s,
        }
    }
}

/// What a status means. 413 is this adapter's own preview cap, refused before
/// the transfer: its policy, not a transport fault.
pub open spec fn kind_of_status(status: u16) -> Seq<char> {
    if status == 401 || status == 403 {
        "auth"@
    } else if status == 429 {
        "rate_limited"@
    } else if status == 404 {
        "not_found"@
    } else if status == 413 {
        "provider"@
    } else {
        "network"@
    }
}

/// An API error on the wire.
pub open spec fn wire_error(e: ErrorView) -> WireErrorView {
    match e {
        ErrorView::Api { status, message, retry_after } => WireErrorView {
            kind: kind_of_status(status),
            message,
            retry_after_s: retry_after,
        },
        ErrorView::Network(message) => WireErrorView {
            kind: "network"@,
            message,
            retry_after_s: None,
        },
    }
}

/// A refusal by this adapter.
pub open spec fn refusal(message: Seq<char>) -> WireErrorView {
    WireErrorView { kind: "provider"@, message, retry_after_s: None }
}

/// An error as JSON.
pub open spec fn error_object(e: WireErrorView) -> JsonView {
    let kind = Map::empty().insert("kind"@, JsonView::Str(e.kind));
    let data = match e.retry_after_s {
        Some(s) => kind.insert("retry_after_s"@, JsonView::UInt(s)),
        None => kind,
    };
    JsonView::Object(
        Map::empty().insert("code"@, JsonView::UInt(1)).insert(
            "message"@,
            JsonView::Str(e.message),
        ).insert("data"@, JsonView::Object(data)),
    )
}

impl WireError {
    /// An API error on the wire.
    pub fn from_api(e: &ApiError) -> (r: WireError)
        ensures
            r@ == wire_error(e@),
    {
        match e {
            ApiError::Api { status, message, retry_after } => {
                let status: u16 = *status;
                let kind = if status == 401 || status == 403 {
                    "auth"
                } else if status == 429 {
                    "rate_limited"
                } else if status == 404 {
                    "not_found"
                } else if status == 413 {
                    "provider"
                } else {
                    "network"
                };
                WireError { kind, message: message.clone(), retry_after_s: *retry_after }
            },
            ApiError::Network(m) => WireError {
                kind: "network",
                message: m.clone(),
                retry_after_s: None,
            },
        }
    }

    /// A refusal by this adapter.
    pub fn refusal(message: String) -> (r: WireError)
        ensures
            r@ == refusal(message@),
    {
        WireError { kind: "provider", message, retry_after_s: None }
    }

    /// The error as JSON.
    pub fn to_json(&self) -> (r: Value)
        ensures
            json(r) == error_object(self@),
    {
        let mut data = json::object();
        json::set(&mut data, "kind", json::string(self.kind));
        if let Some(s) = self.retry_after_s {
            json::set(&mut data, "retry_after_s", json::uint(s));
        }
        let mut error = json::object();
        json::set(&mut error, "code", json::uint(1));
        json::set(&mut error, "message", json::string(self.message.as_str()));
        json::set(&mut error, "data", data);
        error
    }
}

/// What a method answers.
pub type WireResult = Result<Value, WireError>;

/// What a method answers, over plain values.
pub type ReplyView = Result<JsonView, WireErrorView>;

/// A [`WireResult`] over plain values.
pub open spec fn reply_view(r: WireResult) -> ReplyView {
    match r {
        Ok(v) => Ok(json(v)),
        Err(e) => Err(e@),
    }
}

/// The `$/partial` channel: a request that opted in with `"partial": true` gets
/// its result as append-only batches keyed by its id, followed by a
/// metadata-only reply. Where the request did not opt in, nothing is sent and
/// the reply carries everything.
#[derive(Debug)]
pub struct PartialSink {
    pub id: Value,
    pub enabled: bool,
}

/// One batch for a request, as JSON.
pub open spec fn partial_note(id: JsonView, items: Seq<JsonView>) -> JsonView {
    JsonView::Object(
        Map::empty().insert("jsonrpc"@, JsonView::Str("2.0"@)).insert(
            "method"@,
            JsonView::Str("$/partial"@),
        ).insert(
            "params"@,
            JsonView::Object(
                Map::empty().insert("id"@, id).insert("items"@, JsonView::Array(items)),
            ),
        ),
    )
}

/// The request opted into batches.
pub open spec fn opted_in(params: JsonView) -> bool {
    bool_member(params, "partial"@) == Some(true)
}

impl PartialSink {
    /// The channel of a request.
    pub fn new(id: &Value, params: &Value) -> (r: PartialSink)
        ensures
            json(r.id) == json(*id),
            r.enabled == opted_in(json(*params)),
    {
        let enabled = match json::get_bool(params, "partial") {
            Some(b) => b,
            None => false,
        };
        PartialSink { id: json::copy(id), enabled }
    }

    /// The request opted into batches, so the reply must be metadata-only.
    pub fn wants(&self) -> (r: bool)
        ensures
            r == self.enabled,
    {
        self.enabled
    }

    /// Sends one batch for the request, if it opted in.
    pub fn send(&self, items: Vec<Value>, fx: &mut Vec<Effect>)
        ensures
            effects(final(fx)@) == if self.enabled {
                effects(old(fx)@).push(
                    EffectView::Emit(json_text(partial_note(json(self.id), json_all(items@)))),
                )
            } else {
                effects(old(fx)@)
            },
    {
        if !self.enabled {
            return;
        }
        let mut params = json::object();
        json::set(&mut params, "id", json::copy(&self.id));
        json::set(&mut params, "items", json::array(items));
        let mut batch = json::object();
        json::set(&mut batch, "jsonrpc", json::string("2.0"));
        json::set(&mut batch, "method", json::string("$/partial"));
        json::set(&mut batch, "params", params);
        note(fx, Effect::Emit(Line::of(&batch)));
    }
}

/// What is said of a method that there is not.
pub open spec fn unknown_method(method: Seq<char>) -> WireErrorView {
    refusal("unknown method "@ + text::in_quotes(method))
}

/// The page that `repo/web_url` asks for.
pub open spec fn page_request(params: JsonView) -> PageView {
    PageView {
        full_name: text_or_empty(params, "repo"@),
        path: text_or_empty(params, "path"@),
        branch: text_or_empty(params, "branch"@),
        line: uint_member(params, "line"@),
        is_file: bool_member(params, "is_file"@) == Some(true),
    }
}

/// A method begins, or answers at once. Where a parameter is missing it is
/// empty.
pub open spec fn dispatched(
    method: Seq<char>,
    params: JsonView,
    id: JsonView,
    streams: bool,
    instance: Seq<char>,
    workspaces: Seq<String>,
) -> TurnView {
    let repo = text_or_empty(params, "repo"@);
    if method == "initialize"@ {
        TurnView::Reply(Ok(handshake()))
    } else if method == "search/repos"@ {
        let query = text_or_empty(params, "query"@);
        search_turn(query, search_start(workspaces, query))
    } else if method == "org/repos"@ {
        TurnView::More(
            TaskView::OrgRepos { paging: repo_listing(text_or_empty(params, "org"@)) },
        )
    } else if method == "repo/tree"@ {
        tree_turn(repo_tree_start(repo, text_member(params, "ref"@)))
    } else if method == "repo/blob"@ {
        blob_turn(fetch_start(instance, repo, text_or_empty(params, "sha"@)))
    } else if method == "repo/refs"@ {
        TurnView::More(
            TaskView::RepoRefs {
                refs: RefsView::Branches { full_name: repo, paging: branch_listing(repo) },
            },
        )
    } else if method == "repo/log"@ {
        log_turn(
            log_start(
                repo,
                text_member(params, "path"@),
                text_member(params, "ref"@),
                uint_member(params, "limit"@),
            ),
        )
    } else if method == "repo/blob_at"@ {
        blob_at_turn(
            blob_at_start(
                instance,
                repo,
                text_or_empty(params, "path"@),
                text_member(params, "ref"@),
            ),
        )
    } else if method == "repo/clone_url"@ {
        TurnView::More(TaskView::CloneUrl { full_name: repo })
    } else if method == "repo/web_url"@ {
        TurnView::More(TaskView::WebUrl { page: page_request(params) })
    } else if method == "org/url"@ {
        TurnView::Reply(
            Ok(url_object("https://bitbucket.org/"@ + text_or_empty(params, "org"@))),
        )
    } else if method == "search/code"@ {
        match code_start(text_or_empty(params, "q"@), id, streams) {
            Ok(s) => code_turn(s),
            Err(e) => TurnView::Reply(Err(e)),
        }
    } else {
        TurnView::Reply(Err(unknown_method(method)))
    }
}

impl Handler {
    /// A handler that has asked for nothing yet: neither the network nor the
    /// credentials nor the disk are touched.
    pub fn new(
        instance: &str,
        token_env: &str,
        username_env: &str,
        cache_base: Option<String>,
        workspaces: Vec<String>,
    ) -> (r: Handler)
        ensures
            r.bb.instance@ == without_trailing(instance@, '/'),
            r.bb.token_env@ == token_env@,
            r.bb.username_env@ == username_env@,
            r.bb.header is None,
            r.cache.root == cache_base,
            r.workspaces == workspaces,
    {
        Handler {
            bb: Bitbucket::new(instance, token_env, username_env),
            workspaces,
            cache: Cache::new(cache_base),
        }
    }

    /// Begins a method. Only `initialize` changes the handler, and of it only
    /// the root of the cache.
    pub fn dispatch(&mut self, method: &str, params: &Value, partials: PartialSink) -> (r: Turn)
        ensures
            r@ == dispatched(
                method@,
                json(*params),
                json(partials.id),
                partials.enabled,
                old(self).bb.instance@,
                old(self).workspaces@,
            ),
            final(self).bb == old(self).bb,
            final(self).workspaces == old(self).workspaces,
            string_opt(final(self).cache.root) == if method@ == "initialize"@ {
                rooted(string_opt(old(self).cache.root), json(*params))
            } else {
                string_opt(old(self).cache.root)
            },
    {
        let repo = json::get_text_or_empty(params, "repo");
        if text::same(method, "initialize") {
            Turn::Reply(Ok(self.initialize(params)))
        } else if text::same(method, "search/repos") {
            let query = json::get_text_or_empty(params, "query");
            let s = self.search(query.as_str());
            Turn::of_search(query, s)
        } else if text::same(method, "org/repos") {
            let org = json::get_text_or_empty(params, "org");
            Turn::More(Task::OrgRepos { paging: self.org_repos(org.as_str()) })
        } else if text::same(method, "repo/tree") {
            Turn::of_tree(self.repo_tree(repo.as_str(), json::get_text(params, "ref")))
        } else if text::same(method, "repo/blob") {
            let sha = json::get_text_or_empty(params, "sha");
            Turn::of_blob(self.blob_bytes(repo.as_str(), sha.as_str()))
        } else if text::same(method, "repo/refs") {
            Turn::More(Task::RepoRefs { refs: self.repo_refs(repo.as_str()) })
        } else if text::same(method, "repo/log") {
            let path = json::get_text(params, "path");
            let ref_ = json::get_text(params, "ref");
            let limit = json::get_uint(params, "limit");
            Turn::of_log(self.repo_log(repo.as_str(), path, ref_, limit))
        } else if text::same(method, "repo/blob_at") {
            let path = json::get_text_or_empty(params, "path");
            let ref_ = json::get_text(params, "ref");
            Turn::of_blob_at(self.repo_blob_at(repo.as_str(), path.as_str(), ref_))
        } else if text::same(method, "repo/clone_url") {
            Turn::More(Task::CloneUrl { full_name: repo })
        } else if text::same(method, "repo/web_url") {
            let page = PageRequest {
                full_name: repo,
                path: json::get_text_or_empty(params, "path"),
                branch: json::get_text_or_empty(params, "branch"),
                line: json::get_uint(params, "line"),
                is_file: match json::get_bool(params, "is_file") {
                    Some(b) => b,
                    None => false,
                },
            };
            Turn::More(Task::WebUrl { page })
        } else if text::same(method, "org/url") {
            let org = json::get_text_or_empty(params, "org");
            Turn::Reply(Ok(self.org_url(org.as_str())))
        } else if text::same(method, "search/code") {
            match self.search_code(params, partials) {
                Ok(s) => Turn::of_code(s),
                Err(e) => Turn::Reply(Err(e)),
            }
        } else {
            Turn::Reply(
                Err(
                    WireError::refusal(
                        "unknown method ".to_owned().concat(text::quoted(method).as_str()),
                    ),
                ),
            )
        }
    }
}

/// What this adapter refuses, and what it finds missing, lands where the error
/// taxonomy says: missing credentials are a matter of authorization, what is
/// missing is not found, and the preview cap is this provider's policy. None of
/// these suggests a later try.
pub proof fn refusals_are_classed(
    token_env: Seq<char>,
    username_env: Seq<char>,
    name: Seq<char>,
    len: nat,
)
    ensures
        wire_error(no_credentials(token_env, username_env)).kind == "auth"@,
        wire_error(no_credentials(token_env, username_env)).retry_after_s is None,
        wire_error(no_such_repo(name)).kind == "not_found"@,
        wire_error(no_such_ref(name)).kind == "not_found"@,
        wire_error(malformed_id(name)).kind == "not_found"@,
        wire_error(over_cap(len)).kind == "provider"@,
        wire_error(over_cap(len)).retry_after_s is None,
        unknown_method(name).kind == "provider"@,
{
}

/// There is no blame: the call fails as any unknown method does, whatever it
/// asks for.
pub proof fn blame_is_unknown(
    params: JsonView,
    id: JsonView,
    streams: bool,
    instance: Seq<char>,
    workspaces: Seq<String>,
)
    ensures
        dispatched("repo/blame"@, params, id, streams, instance, workspaces) == TurnView::Reply(
            Err(unknown_method("repo/blame"@)),
        ),
{
    reveal_strlit("repo/blame");
    reveal_strlit("initialize");
    reveal_strlit("search/repos");
    reveal_strlit("org/repos");
    reveal_strlit("repo/tree");
    reveal_strlit("repo/blob");
    reveal_strlit("repo/refs");
    reveal_strlit("repo/log");
    reveal_strlit("repo/blob_at");
    reveal_strlit("repo/clone_url");
    reveal_strlit("repo/web_url");
    reveal_strlit("org/url");
    reveal_strlit("search/code");
    let blame = "repo/blame"@;
    assert(blame.len() == 10 && blame[0] == 'r');
    assert("initialize"@[0] == 'i');
}

/// A method begins with questions for bytes, where it begins with a blob.
pub proof fn methods_begin_well_asked(
    method: Seq<char>,
    params: JsonView,
    id: JsonView,
    streams: bool,
    instance: Seq<char>,
    workspaces: Seq<String>,
)
    ensures
        dispatched(method, params, id, streams, instance, workspaces) matches TurnView::More(t)
            ==> well_asked(t),
{
}

}
