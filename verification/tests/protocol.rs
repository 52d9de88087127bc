//! The protocol surface against a scripted backend: requests go in as lines,
//! the questions they ask are answered from a table of routes and an in-memory
//! cache, and the lines they say come out.

use base64::engine::Engine;
use rootle_bitbucket::api::{
    classify_send, classify_status, ApiError, ApiResult, Author, Commit, Link, Mainbranch,
    NamedLink, NamedRef, Paged, Ref, RefTarget, Repo, RepoLinks, SrcEntry, Workspace,
};
use rootle_bitbucket::cache::{RepoMeta, Tree};
use rootle_bitbucket::exchange::{Answer, Ask, Effect};
use rootle_bitbucket::handlers::query::parse_query;
use rootle_bitbucket::handlers::PartialSink;
use rootle_bitbucket::{respond, Handler, WireError};
use serde_json::Value;
use std::collections::HashMap;

const INSTANCE: &str = "http://backend.test";

fn json(text: &str) -> Value {
    serde_json::from_str(text).unwrap()
}

struct Route {
    path: String,
    query: Vec<(String, String)>,
    status: u16,
    retry_after: Option<String>,
    body: Vec<u8>,
    left: Option<usize>,
}

/// A backend: routes that are tried in order, and a cache that keeps what it is
/// told to.
struct Backend {
    routes: Vec<Route>,
    metas: HashMap<Vec<String>, RepoMeta>,
    trees: HashMap<Vec<String>, Tree>,
    blobs: HashMap<Vec<String>, Vec<u8>>,
    token: Option<String>,
    username: Option<String>,
    fetched: Vec<String>,
}

fn backend() -> Backend {
    Backend {
        routes: Vec::new(),
        metas: HashMap::new(),
        trees: HashMap::new(),
        blobs: HashMap::new(),
        token: Some("app-password".to_string()),
        username: Some("someone".to_string()),
        fetched: Vec::new(),
    }
}

impl Backend {
    fn mount(&mut self, path: &str, status: u16, body: &str) -> &mut Route {
        self.routes.push(Route {
            path: path.to_string(),
            query: Vec::new(),
            status,
            retry_after: None,
            body: body.as_bytes().to_vec(),
            left: None,
        });
        self.routes.last_mut().unwrap()
    }

    fn get(&mut self, url: &str, handler: &mut Handler) -> ApiResult<Vec<u8>> {
        handler.bb.auth_header(self.token.clone(), self.username.clone())?;
        self.fetched.push(url.to_string());
        let rest = url.strip_prefix(INSTANCE).unwrap_or(url);
        let (path, query) = match rest.split_once('?') {
            Some((p, q)) => (p, q),
            None => (rest, ""),
        };
        let given: Vec<&str> = query.split('&').collect();
        for route in self.routes.iter_mut() {
            let wanted = route
                .query
                .iter()
                .all(|(k, v)| given.contains(&format!("{k}={v}").as_str()));
            if route.path != path || !wanted || route.left == Some(0) {
                continue;
            }
            if let Some(n) = route.left {
                route.left = Some(n - 1);
            }
            classify_status(route.status, route.retry_after.as_deref(), &route.body)?;
            return Ok(route.body.clone());
        }
        classify_status(404, None, b"")?;
        unreachable!()
    }

    fn value<T>(
        &mut self,
        url: &str,
        handler: &mut Handler,
        read: fn(&Value) -> Option<T>,
    ) -> ApiResult<T> {
        let bytes = self.get(url, handler)?;
        let value: Option<Value> = serde_json::from_slice(&bytes).ok();
        match value.as_ref().and_then(read) {
            Some(v) => Ok(v),
            None => Err(classify_send("error decoding response body".to_string())),
        }
    }

    fn answer(&mut self, ask: Ask, handler: &mut Handler) -> Answer {
        match ask {
            Ask::Meta(f) => Answer::Meta(self.metas.get(&f.components).map(|m| RepoMeta {
                full_name: m.full_name.clone(),
                branch: m.branch.clone(),
            })),
            Ask::Tree(f) => Answer::Tree(self.trees.get(&f.components).map(|t| t.copy())),
            Ask::Blob(f) => Answer::Blob(self.blobs.get(&f.components).cloned()),
            Ask::Repo(u) => Answer::Repo(self.value(&u, handler, repo)),
            Ask::Ref(u) => Answer::Ref(self.value(&u, handler, one_ref)),
            Ask::Workspaces(u) => Answer::Workspaces(self.value(&u, handler, workspaces)),
            Ask::Repos(u) => Answer::Repos(self.value(&u, handler, repos)),
            Ask::Entries(u) => Answer::Entries(self.value(&u, handler, entries)),
            Ask::Refs(u) => Answer::Refs(self.value(&u, handler, refs)),
            Ask::Commits(u) => Answer::Commits(self.value(&u, handler, commits)),
            Ask::Bytes(u) => Answer::Bytes(self.get(&u, handler)),
        }
    }

    fn perform(&mut self, fx: Vec<Effect>, out: &mut Vec<Value>) {
        for effect in fx {
            match effect {
                Effect::StoreMeta(f, m) => {
                    self.metas.insert(f.components, m);
                }
                Effect::DropMeta(f) => {
                    self.metas.remove(&f.components);
                }
                Effect::StoreTree(f, t) => {
                    self.trees.insert(f.components, t);
                }
                Effect::StoreBlob(f, b) => {
                    self.blobs.insert(f.components, b);
                }
                Effect::Emit(line) => out.push(json(line.as_str())),
            }
        }
    }

    /// Every message that one line elicits, in order.
    fn exchange(&mut self, handler: &mut Handler, line: &str) -> Vec<Value> {
        let mut out = Vec::new();
        let mut fx = Vec::new();
        let mut pending = respond(handler, line, &mut fx);
        loop {
            self.perform(std::mem::take(&mut fx), &mut out);
            match pending {
                Some(p) => {
                    let ask = p.ask(handler);
                    let answer = self.answer(ask, handler);
                    pending = p.resume(answer, handler, &mut fx);
                }
                None => return out,
            }
        }
    }

    fn lines_with(&mut self, workspaces: &[&str], method: &str, params: &str) -> Vec<Value> {
        let line = request(method, params);
        let mut handler = handler_for(workspaces);
        self.exchange(&mut handler, &line)
    }

    fn lines(&mut self, method: &str, params: &str) -> Vec<Value> {
        self.lines_with(&[], method, params)
    }

    fn reply(&mut self, method: &str, params: &str) -> Value {
        self.lines(method, params).pop().expect("a reply line")
    }

    fn result(&mut self, method: &str, params: &str) -> Value {
        let r = self.reply(method, params);
        assert!(r.get("result").is_some(), "expected result, got: {r}");
        r["result"].clone()
    }

    fn error(&mut self, method: &str, params: &str) -> Value {
        self.reply(method, params)["error"].clone()
    }
}

fn request(method: &str, params: &str) -> String {
    format!("{{\"jsonrpc\":\"2.0\",\"id\":1,\"method\":\"{method}\",\"params\":{params}}}")
}

fn handler_for(workspaces: &[&str]) -> Handler {
    let workspaces = workspaces.iter().map(|w| w.to_string()).collect();
    Handler::new(INSTANCE, "TEST_TOKEN", "TEST_USER", Some("/cache".to_string()), workspaces)
}

fn text(v: &Value, key: &str) -> Option<String> {
    v.get(key)?.as_str().map(|s| s.to_string())
}

fn repo(v: &Value) -> Option<Repo> {
    let links = v.get("links").map(|l| RepoLinks {
        html: l.get("html").and_then(|h| text(h, "href")).map(|href| Link { href }),
        clone_: None,
        clone_wire: l.get("clone").and_then(|c| c.as_array()).map(|c| {
            c.iter()
                .map(|n| NamedLink {
                    name: text(n, "name").unwrap(),
                    href: text(n, "href").unwrap(),
                })
                .collect()
        }),
    });
    Some(Repo {
        full_name: text(v, "full_name")?,
        mainbranch: v.get("mainbranch").and_then(|m| text(m, "name")).map(|name| Mainbranch { name }),
        links,
    })
}

fn paged<T>(v: &Value, read: fn(&Value) -> Option<T>) -> Option<Paged<T>> {
    let mut values = Vec::new();
    for item in v.get("values")?.as_array()? {
        values.push(read(item)?);
    }
    Some(Paged { values, next: text(v, "next") })
}

fn one_ref(v: &Value) -> Option<Ref> {
    Some(Ref { target: RefTarget { hash: text(v.get("target")?, "hash")? } })
}

fn named_ref(v: &Value) -> Option<NamedRef> {
    let target = RefTarget { hash: text(v.get("target")?, "hash")? };
    Some(NamedRef { name: text(v, "name")?, target })
}

fn workspace(v: &Value) -> Option<Workspace> {
    Some(Workspace { slug: text(v, "slug")?, name: text(v, "name") })
}

fn entry(v: &Value) -> Option<SrcEntry> {
    Some(SrcEntry {
        kind: text(v, "type")?,
        path: text(v, "path")?,
        size: v.get("size").and_then(|s| s.as_u64()),
    })
}

fn commit(v: &Value) -> Option<Commit> {
    Some(Commit {
        hash: text(v, "hash")?,
        message: text(v, "message").unwrap_or_default(),
        author: v.get("author").and_then(|a| text(a, "raw")).map(|raw| Author { raw }),
        date: text(v, "date"),
    })
}

fn workspaces(v: &Value) -> Option<Paged<Workspace>> {
    paged(v, workspace)
}

fn repos(v: &Value) -> Option<Paged<Repo>> {
    paged(v, repo)
}

fn entries(v: &Value) -> Option<Paged<SrcEntry>> {
    paged(v, entry)
}

fn refs(v: &Value) -> Option<Paged<NamedRef>> {
    paged(v, named_ref)
}

fn commits(v: &Value) -> Option<Paged<Commit>> {
    paged(v, commit)
}

fn decoded(v: &Value) -> String {
    let bytes = base64::engine::general_purpose::STANDARD.decode(v.as_str().unwrap()).unwrap();
    String::from_utf8(bytes).unwrap()
}

/// The default branch: the repository and its head.
fn mount_default_head(server: &mut Backend, branch: &str, hash: &str) {
    server.mount(
        "/2.0/repositories/team/alpha",
        200,
        &format!("{{\"full_name\":\"team/alpha\",\"mainbranch\":{{\"name\":\"{branch}\"}}}}"),
    );
    server.mount(
        &format!("/2.0/repositories/team/alpha/refs/branches/{branch}"),
        200,
        &format!("{{\"target\":{{\"hash\":\"{hash}\"}}}}"),
    );
}

fn mount_blob(server: &mut Backend) {
    server.mount(
        "/2.0/repositories/team/alpha/src/abc123/src/main.rs",
        200,
        "fn main() {}",
    );
}

fn check_blob_round_trip() {
    let mut server = backend();
    mount_blob(&mut server);
    let r = server.result("repo/blob", r#"{"repo":"team/alpha","sha":"abc123:src/main.rs"}"#);
    assert_eq!(decoded(&r["bytes_b64"]), "fn main() {}");
}

#[test]
fn blob_blob_round_trips_through_the_content_id() {
    check_blob_round_trip();
}

#[test]
fn integration_blob_round_trips_through_the_content_id() {
    check_blob_round_trip();
}

#[test]
fn a_sha_outside_the_grammar_is_not_found() {
    let mut server = backend();
    let sha = "0".repeat(64);
    let e = server.error("repo/blob", &format!("{{\"repo\":\"team/alpha\",\"sha\":\"{sha}\"}}"));
    assert_eq!(e["data"]["kind"], "not_found");
}

#[test]
fn blob_at_serves_bytes_and_a_grammar_sha() {
    let mut server = backend();
    mount_default_head(&mut server, "main", "abc123");
    mount_blob(&mut server);
    let at = server.result("repo/blob_at", r#"{"repo":"team/alpha","path":"src/main.rs"}"#);
    assert_eq!(at["sha"], "abc123:src/main.rs");
    assert_eq!(decoded(&at["bytes_b64"]), "fn main() {}");
    // The minted id is servable by `repo/blob`, without what was cached.
    server.blobs.clear();
    let again = server.result("repo/blob", r#"{"repo":"team/alpha","sha":"abc123:src/main.rs"}"#);
    assert_eq!(again["bytes_b64"], at["bytes_b64"]);
}

#[test]
fn blob_at_an_explicit_tag_ref_pins_the_tagged_commit() {
    let mut server = backend();
    server.mount("/2.0/repositories/team/alpha/refs/branches/v2.0", 404, "");
    server.mount(
        "/2.0/repositories/team/alpha/refs/tags/v2.0",
        200,
        r#"{"target":{"hash":"tagged9"}}"#,
    );
    server.mount("/2.0/repositories/team/alpha/src/tagged9/lib.rs", 200, "pub fn f() {}");
    let at = server
        .result("repo/blob_at", r#"{"repo":"team/alpha","path":"lib.rs","ref":"v2.0"}"#);
    assert_eq!(at["sha"], "tagged9:lib.rs");
}

#[test]
fn blob_at_an_unknown_path_or_ref_is_not_found() {
    let mut server = backend();
    mount_default_head(&mut server, "main", "abc123");
    server.mount("/2.0/repositories/team/alpha/src/abc123/gone.rs", 404, "");
    server.mount("/2.0/repositories/team/alpha/refs/branches/nope", 404, "");
    server.mount("/2.0/repositories/team/alpha/refs/tags/nope", 404, "");
    let missing_path = server.error("repo/blob_at", r#"{"repo":"team/alpha","path":"gone.rs"}"#);
    assert_eq!(missing_path["data"]["kind"], "not_found");
    let missing_ref =
        server.error("repo/blob_at", r#"{"repo":"team/alpha","path":"lib.rs","ref":"nope"}"#);
    assert_eq!(missing_ref["data"]["kind"], "not_found");
}

#[test]
fn query_grammar_splits_scopes() {
    let (path, repo, org, ext) = parse_query("path:parser repo:team/proj extension:rs");
    assert_eq!(path.as_deref(), Some("parser"));
    assert_eq!(repo.as_deref(), Some("team/proj"));
    assert_eq!(org, None);
    assert_eq!(ext.as_deref(), Some("rs"));
}

#[test]
fn content_grep_without_scope_errors_honestly() {
    let h = Handler::new("http://unused.invalid", "NOPE_TOKEN", "NOPE_USER", None, Vec::new());
    let params = json(r#"{"q":"render"}"#);
    let partials = PartialSink::new(&json("1"), &params);
    let err = match h.search_code(&params, partials) {
        Ok(_) => panic!("a grep without a scope is refused"),
        Err(e) => e,
    };
    assert_eq!(err.kind, "provider");
    assert!(err.message.contains("no code-search API"));
}

fn check_path_search() {
    let mut server = backend();
    mount_default_head(&mut server, "main", "deadbeef");
    server.mount(
        "/2.0/repositories/team/alpha/src/deadbeef/",
        200,
        r#"{"values":[
            {"type":"commit_file","path":"parser.rs"},
            {"type":"commit_file","path":"main.rs"}
        ]}"#,
    );
    let r = server.result("search/code", r#"{"q":"path:parser repo:team/alpha"}"#);
    let items = r["items"].as_array().unwrap();
    assert_eq!(items.len(), 1);
    assert_eq!(items[0]["path"], "parser.rs");
    assert_eq!(items[0]["matches"], json("[]"));
    assert_eq!(items[0]["sha"], "deadbeef:parser.rs");
    assert_eq!(r["truncated"], false);
}

#[test]
fn code_path_search_serves_path_only_hits() {
    check_path_search();
}

#[test]
fn integration_path_search_serves_path_only_hits() {
    check_path_search();
}

#[test]
fn initialize_initialize_declares_the_split_and_icon() {
    let r = backend().result("initialize", r#"{"protocol":1}"#);
    assert_eq!(r["protocol"], 1);
    assert_eq!(r["name"], "bitbucket");
    assert_eq!(r["icon"], "bitbucket");
    assert_eq!(r["capabilities"]["code_search"], false);
    assert_eq!(r["capabilities"]["file_search"], true);
    assert_eq!(r["capabilities"]["orgs"], true);
    assert_eq!(r["capabilities"]["refs"], true);
    assert_eq!(r["capabilities"]["log"], true);
    assert_eq!(r["capabilities"]["blame"], false);
}

#[test]
fn integration_initialize_declares_the_split_and_icon() {
    let r = backend().result("initialize", r#"{"protocol":1}"#);
    assert_eq!(r["protocol"], 1);
    assert_eq!(r["name"], "bitbucket");
    assert_eq!(r["icon"], "bitbucket");
    assert_eq!(r["capabilities"]["code_search"], false);
    assert_eq!(r["capabilities"]["file_search"], true);
    assert_eq!(r["capabilities"]["orgs"], true);
}

#[test]
fn log_lists_commits_newest_first_with_subjects() {
    let mut server = backend();
    mount_default_head(&mut server, "main", "abc123");
    let route = server.mount(
        "/2.0/repositories/team/alpha/commits",
        200,
        r#"{"values":[
            {
                "hash":"c2",
                "message":"fix: the widget\n\nthe long body nobody\nwants in a list",
                "author":{"raw":"Tarek <tarek@example.com>"},
                "date":"2026-08-27T10:00:00+00:00"
            },
            {
                "hash":"c1",
                "message":"init",
                "author":null,
                "date":"2026-08-26T09:00:00+00:00"
            }
        ]}"#,
    );
    route.query = vec![("include".to_string(), "abc123".to_string())];
    let r = server.result("repo/log", r#"{"repo":"team/alpha"}"#);
    let items = r["items"].as_array().unwrap();
    assert_eq!(items.len(), 2);
    assert_eq!(items[0]["sha"], "c2");
    assert_eq!(items[0]["subject"], "fix: the widget");
    assert_eq!(items[0]["author"], "Tarek <tarek@example.com>");
    assert_eq!(items[0]["date"], "2026-08-27T10:00:00+00:00");
    assert_eq!(items[1]["author"], "");
    assert_eq!(r["truncated"], false);
}

#[test]
fn log_filters_by_path_and_stops_at_the_limit() {
    let mut server = backend();
    mount_default_head(&mut server, "main", "abc123");
    let route = server.mount(
        "/2.0/repositories/team/alpha/commits",
        200,
        r#"{"values":[
            {"hash":"c2","message":"touch the file",
             "author":{"raw":"T <t@x.y>"},"date":"2026-08-27T10:00:00+00:00"}
        ],
        "next":"https://api.example.org/2.0/repositories/team/alpha/commits?include=abc123&pagelen=1&page=2"}"#,
    );
    route.query = vec![
        ("include".to_string(), "abc123".to_string()),
        ("path".to_string(), "src/main.rs".to_string()),
        ("pagelen".to_string(), "1".to_string()),
    ];
    let r = server.result("repo/log", r#"{"repo":"team/alpha","path":"src/main.rs","limit":1}"#);
    assert_eq!(r["items"].as_array().unwrap().len(), 1);
    assert_eq!(r["truncated"], true);
}

#[test]
fn a_page_landing_exactly_on_the_limit_without_next_is_complete() {
    let mut server = backend();
    mount_default_head(&mut server, "main", "abc123");
    let route = server.mount(
        "/2.0/repositories/team/alpha/commits",
        200,
        r#"{"values":[
            {"hash":"c2","message":"two",
             "author":{"raw":"T <t@x.y>"},"date":"2026-08-27T10:00:00+00:00"},
            {"hash":"c1","message":"one",
             "author":{"raw":"T <t@x.y>"},"date":"2026-08-26T10:00:00+00:00"}
        ]}"#,
    );
    route.query = vec![
        ("include".to_string(), "abc123".to_string()),
        ("pagelen".to_string(), "2".to_string()),
    ];
    let r = server.result("repo/log", r#"{"repo":"team/alpha","limit":2}"#);
    assert_eq!(r["items"].as_array().unwrap().len(), 2);
    assert_eq!(r["truncated"], false);
}

#[test]
fn log_at_a_commit_sha_pins_without_probes() {
    let mut server = backend();
    let sha = "0123456789abcdef0123456789abcdef01234567";
    let route = server.mount(
        "/2.0/repositories/team/alpha/commits",
        200,
        &format!(
            "{{\"values\":[{{\"hash\":\"{sha}\",\"message\":\"the commit itself\",\
             \"author\":{{\"raw\":\"T <t@x.y>\"}},\"date\":\"2026-08-27T10:00:00+00:00\"}}]}}"
        ),
    );
    route.query = vec![("include".to_string(), sha.to_string())];
    let r = server.result("repo/log", &format!("{{\"repo\":\"team/alpha\",\"ref\":\"{sha}\"}}"));
    assert_eq!(r["items"][0]["sha"], sha);
    assert_eq!(server.fetched.len(), 1);
}

fn mount_unknown_ref(server: &mut Backend) {
    for p in [
        "/2.0/repositories/team/alpha/refs/branches/nope",
        "/2.0/repositories/team/alpha/refs/tags/nope",
    ] {
        server.mount(p, 404, "");
    }
}

#[test]
fn log_an_unknown_ref_is_not_found() {
    let mut server = backend();
    mount_unknown_ref(&mut server);
    let e = server.error("repo/log", r#"{"repo":"team/alpha","ref":"nope"}"#);
    assert_eq!(e["data"]["kind"], "not_found");
}

#[test]
fn tree_an_unknown_ref_is_not_found() {
    let mut server = backend();
    mount_unknown_ref(&mut server);
    let e = server.error("repo/tree", r#"{"repo":"team/alpha","ref":"nope"}"#);
    assert_eq!(e["data"]["kind"], "not_found");
    let msg = e["message"].as_str().unwrap();
    assert!(msg.contains("nope"), "message names the ref: {msg}");
}

#[test]
fn refs_list_branches_and_tags_with_one_default_marker() {
    let mut server = backend();
    server.mount(
        "/2.0/repositories/team/alpha",
        200,
        r#"{"full_name":"team/alpha","mainbranch":{"name":"main"}}"#,
    );
    server.mount(
        "/2.0/repositories/team/alpha/refs/branches",
        200,
        r#"{"values":[
            {"name":"main","target":{"hash":"abc123"}},
            {"name":"dev","target":{"hash":"def456"}}
        ]}"#,
    );
    server.mount(
        "/2.0/repositories/team/alpha/refs/tags",
        200,
        r#"{"values":[{"name":"v1.0","target":{"hash":"abc123"}}]}"#,
    );
    let r = server.result("repo/refs", r#"{"repo":"team/alpha"}"#);
    let branches = r["branches"].as_array().unwrap();
    assert_eq!(branches.len(), 2);
    assert_eq!(branches[0]["name"], "main");
    assert_eq!(branches[0]["sha"], "abc123");
    assert_eq!(branches[0]["default"], true);
    assert_eq!(branches[1]["name"], "dev");
    assert_eq!(
        branches[1].get("default"),
        None,
        "default marks at most one branch — absent elsewhere"
    );
    let tags = r["tags"].as_array().unwrap();
    assert_eq!(tags[0]["name"], "v1.0");
    assert_eq!(tags[0]["sha"], "abc123");
    assert!(tags[0].get("default").is_none(), "tags carry no default");
}

#[test]
fn a_repo_without_refs_lists_empty_both_ways() {
    let mut server = backend();
    server.mount("/2.0/repositories/team/alpha", 200, r#"{"full_name":"team/alpha"}"#);
    for p in [
        "/2.0/repositories/team/alpha/refs/branches",
        "/2.0/repositories/team/alpha/refs/tags",
    ] {
        server.mount(p, 200, r#"{"values":[]}"#);
    }
    let r = server.result("repo/refs", r#"{"repo":"team/alpha"}"#);
    assert_eq!(r["branches"], json("[]"));
    assert_eq!(r["tags"], json("[]"));
}

#[test]
fn an_unknown_repo_is_not_found() {
    let mut server = backend();
    server.mount("/2.0/repositories/team/nope/refs/branches", 404, "");
    let e = server.error("repo/refs", r#"{"repo":"team/nope"}"#);
    assert_eq!(e["data"]["kind"], "not_found");
}

fn check_org_repos() {
    let mut server = backend();
    server.mount(
        "/2.0/repositories/team",
        200,
        r#"{"values":[
            {"full_name":"team/alpha","mainbranch":{"name":"main"}},
            {"full_name":"team/beta"}
        ]}"#,
    );
    let r = server.result("org/repos", r#"{"org":"team"}"#);
    assert_eq!(r["repos"], json(r#"["alpha","beta"]"#));
}

#[test]
fn search_org_repos_strips_the_workspace_prefix() {
    check_org_repos();
}

#[test]
fn integration_org_repos_strips_the_workspace_prefix() {
    check_org_repos();
}

fn check_missing_credentials() {
    let mut server = backend();
    server.token = None;
    server.username = None;
    let mut handler =
        Handler::new(INSTANCE, "MISSING_TOKEN_XYZ", "MISSING_USER_XYZ", None, Vec::new());
    let line = request("org/repos", r#"{"org":"team"}"#);
    let r = server.exchange(&mut handler, &line).pop().unwrap();
    let e = r["error"].clone();
    assert_eq!(e["data"]["kind"], "auth");
    assert!(e["message"].as_str().unwrap().contains("credentials"));
    assert!(e["message"].as_str().unwrap().contains("MISSING_TOKEN_XYZ"));
    assert!(server.fetched.is_empty());
}

#[test]
fn tests_missing_credentials_is_an_auth_error_not_a_panic() {
    check_missing_credentials();
}

#[test]
fn integration_missing_credentials_is_an_auth_error_not_a_panic() {
    check_missing_credentials();
}

fn check_rate_limits() {
    let mut server = backend();
    server.mount("/2.0/repositories/team", 429, "").retry_after = Some("37".to_string());
    let e = server.error("org/repos", r#"{"org":"team"}"#);
    assert_eq!(e["data"]["kind"], "rate_limited");
    assert_eq!(e["data"]["retry_after_s"], 37);
}

#[test]
fn tests_rate_limits_map_to_the_taxonomy() {
    check_rate_limits();
}

#[test]
fn integration_rate_limits_map_to_the_taxonomy() {
    check_rate_limits();
}

#[test]
fn the_preview_cap_is_provider_policy_not_a_transport_fault() {
    let e = WireError::from_api(&ApiError::Api {
        status: 413,
        message: "blob over the 1 MiB preview cap".into(),
        retry_after: None,
    });
    assert_eq!(e.kind, "provider");
}

#[test]
fn blame_is_the_honest_unknown_method() {
    let e = backend().error("repo/blame", r#"{"repo":"team/alpha","path":"lib.rs"}"#);
    assert_eq!(e["data"]["kind"], "provider");
    let msg = e["message"].as_str().unwrap();
    assert!(msg.contains("repo/blame"), "names the method: {msg}");
    assert_eq!(msg, "unknown method \"repo/blame\"");
}

fn check_tree_walk() {
    let mut server = backend();
    mount_default_head(&mut server, "master", "abc123");
    server.mount(
        "/2.0/repositories/team/alpha/src/abc123/",
        200,
        r#"{"values":[
            {"type":"commit_directory","path":"src"},
            {"type":"commit_file","path":"README.md","size":12}
        ]}"#,
    );
    // Entries are repo-root-relative: listing /src/abc123/src/ returns
    // "src/main.rs".
    server.mount(
        "/2.0/repositories/team/alpha/src/abc123/src/",
        200,
        r#"{"values":[{"type":"commit_file","path":"src/main.rs","size":40}]}"#,
    );
    let r = server.result("repo/tree", r#"{"repo":"team/alpha"}"#);
    assert_eq!(r["branch"], "master");
    assert_eq!(r["truncated"], false);
    let entries = r["entries"].as_array().unwrap();
    let paths: Vec<&str> = entries.iter().map(|e| e["path"].as_str().unwrap()).collect();
    assert!(paths.contains(&"README.md"));
    assert!(paths.contains(&"src"));
    assert!(paths.contains(&"src/main.rs"));
    let main = entries.iter().find(|e| e["path"] == "src/main.rs").unwrap();
    assert_eq!(main["sha"], "abc123:src/main.rs");
    assert_eq!(main["type"], "blob");
    let dir = entries.iter().find(|e| e["path"] == "src").unwrap();
    assert_eq!(dir["sha"], "abc123");
    assert_eq!(dir["type"], "tree");
    assert_eq!(dir["size"], Value::Null);
}

#[test]
fn tree_tree_walk_recurses_directories_and_pins_content_ids() {
    check_tree_walk();
}

#[test]
fn integration_tree_walk_recurses_directories_and_pins_content_ids() {
    check_tree_walk();
}

#[test]
fn content_ids_move_when_the_head_moves() {
    let mut server = backend();
    server.mount(
        "/2.0/repositories/team/alpha",
        200,
        r#"{"full_name":"team/alpha","mainbranch":{"name":"main"}}"#,
    );
    // The first head answers once, and the second takes over.
    let head = "/2.0/repositories/team/alpha/refs/branches/main";
    server.mount(head, 200, r#"{"target":{"hash":"gen1"}}"#).left = Some(1);
    server.mount(head, 200, r#"{"target":{"hash":"gen2"}}"#);
    for commit in ["gen1", "gen2"] {
        server.mount(
            &format!("/2.0/repositories/team/alpha/src/{commit}/"),
            200,
            r#"{"values":[{"type":"commit_file","path":"lib.rs","size":3}]}"#,
        );
    }
    let mut handler = handler_for(&[]);
    let line = request("repo/tree", r#"{"repo":"team/alpha"}"#);
    let first = server.exchange(&mut handler, &line).pop().unwrap();
    let second = server.exchange(&mut handler, &line).pop().unwrap();
    assert_eq!(first["result"]["entries"][0]["sha"], "gen1:lib.rs");
    assert_eq!(
        second["result"]["entries"][0]["sha"], "gen2:lib.rs",
        "a moved head must move the content ids, not replay the cached tree"
    );
}

#[test]
fn tree_at_a_branch_ref_walks_that_branches_head() {
    let mut server = backend();
    server.mount(
        "/2.0/repositories/team/alpha/refs/branches/feature-x",
        200,
        r#"{"target":{"hash":"feed42"}}"#,
    );
    server.mount(
        "/2.0/repositories/team/alpha/src/feed42/",
        200,
        r#"{"values":[{"type":"commit_file","path":"lib.rs","size":3}]}"#,
    );
    let r = server.result("repo/tree", r#"{"repo":"team/alpha","ref":"feature-x"}"#);
    assert_eq!(r["branch"], "feature-x");
    assert_eq!(r["entries"][0]["sha"], "feed42:lib.rs");
}

#[test]
fn tree_at_a_tag_ref_resolves_to_the_tagged_commit() {
    let mut server = backend();
    server.mount("/2.0/repositories/team/alpha/refs/branches/v1.0", 404, "");
    server.mount(
        "/2.0/repositories/team/alpha/refs/tags/v1.0",
        200,
        r#"{"target":{"hash":"tagged9"}}"#,
    );
    server.mount(
        "/2.0/repositories/team/alpha/src/tagged9/",
        200,
        r#"{"values":[{"type":"commit_file","path":"lib.rs","size":3}]}"#,
    );
    let r = server.result("repo/tree", r#"{"repo":"team/alpha","ref":"v1.0"}"#);
    assert_eq!(r["branch"], "v1.0");
    assert_eq!(r["entries"][0]["sha"], "tagged9:lib.rs");
}

#[test]
fn tree_at_a_commit_sha_skips_the_probes() {
    let mut server = backend();
    let sha = "0123456789abcdef0123456789abcdef01234567";
    server.mount(
        &format!("/2.0/repositories/team/alpha/src/{sha}/"),
        200,
        r#"{"values":[{"type":"commit_file","path":"lib.rs","size":3}]}"#,
    );
    let r = server
        .result("repo/tree", &format!("{{\"repo\":\"team/alpha\",\"ref\":\"{sha}\"}}"));
    assert_eq!(r["branch"], sha);
    assert_eq!(r["entries"][0]["sha"], format!("{sha}:lib.rs"));
    assert_eq!(server.fetched.len(), 1);
}

fn check_urls() {
    let mut server = backend();
    server.mount(
        "/2.0/repositories/team/alpha",
        200,
        r#"{
            "full_name":"team/alpha",
            "mainbranch":{"name":"main"},
            "links":{
                "html":{"href":"https://bitbucket.org/team/alpha"},
                "clone":[
                    {"name":"https","href":"https://bitbucket.org/team/alpha.git"},
                    {"name":"ssh","href":"git@bitbucket.org:team/alpha.git"}
                ]
            }
        }"#,
    );
    let clone = server.result("repo/clone_url", r#"{"repo":"team/alpha"}"#);
    assert_eq!(clone["clone_url"], "https://bitbucket.org/team/alpha.git");
    let web = server.result(
        "repo/web_url",
        r#"{"repo":"team/alpha","path":"src/main.rs","branch":"main","line":42,"is_file":true}"#,
    );
    assert_eq!(web["url"], "https://bitbucket.org/team/alpha/src/main/src/main.rs#lines-42");
}

#[test]
fn urls_clone_and_web_urls_come_from_links() {
    check_urls();
}

#[test]
fn integration_clone_and_web_urls_come_from_links() {
    check_urls();
}

fn mount_tree(server: &mut Backend, files: &[&str]) {
    mount_default_head(server, "main", "abc123");
    let values: Vec<String> = files
        .iter()
        .map(|f| format!("{{\"type\":\"commit_file\",\"path\":\"{f}\"}}"))
        .collect();
    server.mount(
        "/2.0/repositories/team/alpha/src/abc123/",
        200,
        &format!("{{\"values\":[{}]}}", values.join(",")),
    );
}

fn mount_file(server: &mut Backend, path: &str, bytes: &[u8]) {
    let route = server.mount(&format!("/2.0/repositories/team/alpha/src/abc123/{path}"), 200, "");
    route.body = bytes.to_vec();
}

#[test]
fn bare_terms_grep_the_blobs_of_the_tree() {
    let mut server = backend();
    mount_tree(&mut server, &["a.rs", "b.rs", "c.bin", "d.bin", "gone.rs", "e.txt"]);
    mount_file(&mut server, "a.rs", "use x;\n\nfn Render(one) {}\r\nfn other() {}\n".as_bytes());
    mount_file(&mut server, "b.rs", "nothing here\n".as_bytes());
    mount_file(&mut server, "c.bin", b"render\0one");
    mount_file(&mut server, "d.bin", b"render one \xff\xfe");
    mount_file(&mut server, "e.txt", "one render\nrender\n".as_bytes());
    let r = server.result("search/code", r#"{"q":"RENDER one repo:team/alpha"}"#);
    assert_eq!(r["truncated"], false);
    assert_eq!(
        r["items"],
        json(
            r#"[
                {"repo":"team/alpha","path":"a.rs","sha":"abc123:a.rs","branch":"main",
                 "matches":[{"line":3,"text":"fn Render(one) {}"}]},
                {"repo":"team/alpha","path":"e.txt","sha":"abc123:e.txt","branch":"main",
                 "matches":[{"line":1,"text":"one render"}]}
            ]"#
        )
    );
}

#[test]
fn grep_goes_only_where_path_and_extension_lead() {
    let mut server = backend();
    mount_tree(&mut server, &["src/Parser.RS", "src/parser.txt", "lib.rs"]);
    mount_file(&mut server, "src/Parser.RS", b"needle");
    mount_file(&mut server, "src/parser.txt", b"needle");
    mount_file(&mut server, "lib.rs", b"needle");
    let q = r#"{"q":"needle path:parser extension:..rs repo:team/alpha"}"#;
    let r = server.result("search/code", q);
    let items = r["items"].as_array().unwrap();
    assert_eq!(items.len(), 1);
    assert_eq!(items[0]["path"], "src/Parser.RS");
    assert!(!server.fetched.iter().any(|u| u.ends_with("/lib.rs")));
}

#[test]
fn extension_alone_finds_files() {
    let mut server = backend();
    mount_tree(&mut server, &["a.rs", "b.txt", "c.RS"]);
    let r = server.result("search/code", r#"{"q":"extension:rs repo:team/alpha"}"#);
    let paths: Vec<&str> =
        r["items"].as_array().unwrap().iter().map(|i| i["path"].as_str().unwrap()).collect();
    assert_eq!(paths, vec!["a.rs", "c.RS"]);
}

#[test]
fn path_queries_need_a_scope() {
    let e = backend().error("search/code", r#"{"q":"path:parser"}"#);
    assert_eq!(e["data"]["kind"], "provider");
    assert_eq!(
        e["message"],
        "path-only search needs a repo: or org: scope on bitbucket (no global index)"
    );
    let e = backend().error("search/code", r#"{"q":"repo:team/alpha"}"#);
    assert_eq!(
        e["message"],
        "bitbucket cloud has no code-search API — use file find (leader f) or a path: query \
         scoped to a repo or workspace"
    );
}

#[test]
fn hits_stop_at_the_cap() {
    for (n, shown, truncated) in [(99, 99, false), (100, 100, false), (101, 100, true)] {
        let mut server = backend();
        let names: Vec<String> = (0..n).map(|i| format!("f{i}.rs")).collect();
        let files: Vec<&str> = names.iter().map(|s| s.as_str()).collect();
        mount_tree(&mut server, &files);
        let r = server.result("search/code", r#"{"q":"path:f repo:team/alpha"}"#);
        assert_eq!(r["items"].as_array().unwrap().len(), shown);
        assert_eq!(r["truncated"], truncated);
    }
}

#[test]
fn greps_stop_at_the_cap() {
    let mut server = backend();
    let names: Vec<String> = (0..201).map(|i| format!("f{i}.rs")).collect();
    let files: Vec<&str> = names.iter().map(|s| s.as_str()).collect();
    mount_tree(&mut server, &files);
    for name in &names {
        mount_file(&mut server, name, b"nothing");
    }
    let r = server.result("search/code", r#"{"q":"needle repo:team/alpha"}"#);
    assert_eq!(r["items"], json("[]"));
    assert_eq!(r["truncated"], true);
    assert_eq!(server.fetched.iter().filter(|u| u.ends_with(".rs")).count(), 200);
}

fn mount_scope(server: &mut Backend) {
    server.mount(
        "/2.0/repositories/team",
        200,
        r#"{"values":[{"full_name":"team/a"},{"full_name":"team/none"},{"full_name":"team/b"}]}"#,
    );
    for name in ["a", "b"] {
        server.mount(
            &format!("/2.0/repositories/team/{name}"),
            200,
            &format!("{{\"full_name\":\"team/{name}\"}}"),
        );
        server.mount(
            &format!("/2.0/repositories/team/{name}/refs/branches/main"),
            200,
            &format!("{{\"target\":{{\"hash\":\"head{name}\"}}}}"),
        );
        server.mount(
            &format!("/2.0/repositories/team/{name}/src/head{name}/"),
            200,
            r#"{"values":[{"type":"commit_file","path":"one.rs"},
                          {"type":"commit_directory","path":"two.rs"},
                          {"type":"commit_file","path":"three.rs"}]}"#,
        );
        server.mount(
            &format!("/2.0/repositories/team/{name}/src/head{name}/two.rs/"),
            200,
            r#"{"values":[]}"#,
        );
    }
}

#[test]
fn streaming_sends_a_batch_per_repository_before_the_reply() {
    let mut server = backend();
    mount_scope(&mut server);
    let plain = server.result("search/code", r#"{"q":"path:.rs org:team"}"#);
    assert_eq!(plain["items"].as_array().unwrap().len(), 4);
    let lines = server.lines("search/code", r#"{"q":"path:.rs org:team","partial":true}"#);
    assert_eq!(lines.len(), 3);
    let mut streamed = Vec::new();
    for note in &lines[..2] {
        assert_eq!(note["method"], "$/partial");
        assert_eq!(note["params"]["id"], 1);
        assert!(note.get("id").is_none());
        streamed.extend(note["params"]["items"].as_array().unwrap().clone());
    }
    assert_eq!(Value::from(streamed), plain["items"]);
    assert_eq!(lines[2]["id"], 1);
    assert_eq!(lines[2]["result"]["items"], json("[]"));
    assert_eq!(lines[2]["result"]["truncated"], plain["truncated"]);
}

#[test]
fn a_scope_that_cannot_be_listed_is_an_error() {
    let e = backend().error("search/code", r#"{"q":"path:x org:gone"}"#);
    assert_eq!(e["data"]["kind"], "not_found");
    assert_eq!(e["message"], "bitbucket api: status 404");
}

#[test]
fn notifications_and_noise_are_not_answered() {
    let mut server = backend();
    let mut handler = handler_for(&[]);
    for line in [
        "",
        "   ",
        "not json",
        "[1,2]",
        r#"{"jsonrpc":"2.0","method":"$/cancelRequest","params":{"id":1}}"#,
        r#"{"jsonrpc":"2.0","id":7}"#,
        r#"{"jsonrpc":"2.0","id":7,"method":3}"#,
    ] {
        assert!(server.exchange(&mut handler, line).is_empty(), "answered: {line}");
    }
    let spaced = format!("  {}\t", request("org/url", r#"{"org":"team"}"#));
    let out = server.exchange(&mut handler, &spaced);
    assert_eq!(
        out,
        vec![json(r#"{"jsonrpc":"2.0","id":1,"result":{"url":"https://bitbucket.org/team"}}"#)]
    );
    let out = server.exchange(&mut handler, r#"{"id":"x","method":"org/url"}"#);
    assert_eq!(out[0]["id"], "x");
    assert_eq!(out[0]["result"]["url"], "https://bitbucket.org/");
}

#[test]
fn pages_are_followed_to_the_end() {
    let mut server = backend();
    let next = format!("{INSTANCE}/2.0/repositories/team?page=2");
    server.mount("/2.0/repositories/team", 200, r#"{"values":[{"full_name":"team/b"}]}"#).query =
        vec![("page".to_string(), "2".to_string())];
    server.mount(
        "/2.0/repositories/team",
        200,
        &format!("{{\"values\":[{{\"full_name\":\"team/a\"}}],\"next\":\"{next}\"}}"),
    );
    let r = server.result("org/repos", r#"{"org":"team"}"#);
    assert_eq!(r["repos"], json(r#"["a","b"]"#));
    assert_eq!(
        server.fetched,
        vec![format!("{INSTANCE}/2.0/repositories/team?pagelen=100&sort=-updated_on"), next]
    );
}

#[test]
fn a_listing_is_walked_once_per_commit() {
    let mut server = backend();
    mount_tree(&mut server, &["lib.rs"]);
    let first = server.result("repo/tree", r#"{"repo":"team/alpha"}"#);
    let walked = server.fetched.len();
    let second = server.result("repo/tree", r#"{"repo":"team/alpha"}"#);
    assert_eq!(first, second);
    // Only the head is resolved again.
    assert_eq!(
        server.fetched[walked..].to_vec(),
        vec![format!("{INSTANCE}/2.0/repositories/team/alpha/refs/branches/main")]
    );
}

#[test]
fn a_repository_that_moved_is_revalidated_once() {
    let mut server = backend();
    mount_tree(&mut server, &["lib.rs"]);
    let stale = RepoMeta { full_name: "team/alpha".to_string(), branch: "old".to_string() };
    server.metas.insert(vec!["repos".to_string(), "team%2Falpha.json".to_string()], stale);
    let r = server.result("repo/tree", r#"{"repo":"team/alpha"}"#);
    assert_eq!(r["branch"], "main");
    assert_eq!(server.metas.len(), 1);
    assert!(server.metas.values().all(|m| m.branch == "main"));

    let mut server = backend();
    server.mount("/2.0/repositories/team/alpha", 200, r#"{"full_name":"team/alpha"}"#);
    let e = server.error("repo/tree", r#"{"repo":"team/alpha"}"#);
    assert_eq!(e["data"]["kind"], "not_found");
    let heads = server.fetched.iter().filter(|u| u.ends_with("/refs/branches/main")).count();
    assert_eq!(heads, 2);
}

#[test]
fn a_repository_that_is_missing_is_named() {
    let e = backend().error("repo/log", r#"{"repo":"team/gone"}"#);
    assert_eq!(e["data"]["kind"], "not_found");
    assert_eq!(e["message"], "no such repo \"team/gone\"");
}

#[test]
fn other_failures_of_a_ref_are_passed_on() {
    let mut server = backend();
    let body = r#"{"error":{"message":"down for maintenance"}}"#;
    server.mount("/2.0/repositories/team/alpha/refs/branches/x", 503, body);
    let e = server.error("repo/tree", r#"{"repo":"team/alpha","ref":"x"}"#);
    assert_eq!(e["data"]["kind"], "network");
    assert_eq!(e["message"], "down for maintenance");
    assert_eq!(e["code"], 1);
}

#[test]
fn a_reply_that_cannot_be_read_is_a_network_error() {
    let mut server = backend();
    server.mount("/2.0/repositories/team", 200, "<html>");
    let e = server.error("org/repos", r#"{"org":"team"}"#);
    assert_eq!(e["data"]["kind"], "network");
}

#[test]
fn blobs_are_fetched_once_and_never_over_the_cap() {
    let mut server = backend();
    let full = vec![b'x'; 1024 * 1024];
    let over = vec![b'x'; 1024 * 1024 + 1];
    mount_file(&mut server, "full", &full);
    mount_file(&mut server, "over", &over);
    for _ in 0..2 {
        let r = server.result("repo/blob", r#"{"repo":"team/alpha","sha":"abc123:full"}"#);
        assert_eq!(decoded(&r["bytes_b64"]).len(), full.len());
    }
    assert_eq!(server.fetched.len(), 1);
    let e = server.error("repo/blob", r#"{"repo":"team/alpha","sha":"abc123:over"}"#);
    assert_eq!(e["data"]["kind"], "provider");
    assert_eq!(e["message"], "blob over the 1 MiB preview cap (1048577 bytes)");
    assert_eq!(server.blobs.len(), 1);
}

#[test]
fn a_malformed_id_is_quoted() {
    let e = backend().error("repo/blob", r#"{"repo":"team/alpha","sha":"a\nb"}"#);
    assert_eq!(e["message"], "malformed content id \"a\\nb\" — expected <commit>:<path>");
}

#[test]
fn configured_workspaces_are_served_without_discovery() {
    let mut server = backend();
    let values: Vec<String> =
        (0..12).map(|i| format!("{{\"full_name\":\"Team-X/r{i}\"}}")).collect();
    server.mount(
        "/2.0/repositories/Team-X",
        200,
        &format!("{{\"values\":[{}]}}", values.join(",")),
    );
    let lines = server.lines_with(&["Team-X", "other"], "search/repos", r#"{"query":"TEAM"}"#);
    let items = lines[0]["result"]["items"].as_array().unwrap();
    assert_eq!(items.len(), 11);
    assert_eq!(items[0]["org"], "Team-X");
    assert_eq!(items[10]["full_name"], "Team-X/r9");
    assert_eq!(server.fetched.len(), 1);
}

#[test]
fn discovery_matches_slugs_and_names() {
    let mut server = backend();
    server.mount(
        "/2.0/user/workspaces",
        200,
        r#"{"values":[{"slug":"one"},{"slug":"two","name":"The ONE"},{"slug":"three"}]}"#,
    );
    server.mount("/2.0/repositories/one", 200, r#"{"values":[{"full_name":"one/a"}]}"#);
    server.mount("/2.0/repositories/two", 200, r#"{"values":[]}"#);
    let r = server.result("search/repos", r#"{"query":"One"}"#);
    assert_eq!(r["items"], json(r#"[{"org":"one"},{"full_name":"one/a"},{"org":"two"}]"#));
    let r = server.result("search/repos", r#"{"query":"zzz"}"#);
    assert_eq!(r["items"], json(r#"[{"org":"zzz"}]"#));
}

#[test]
fn searches_look_into_five_workspaces_and_show_enough() {
    let mut server = backend();
    let slugs: Vec<String> = (0..7).map(|i| format!("{{\"slug\":\"w{i}\"}}")).collect();
    server.mount("/2.0/user/workspaces", 200, &format!("{{\"values\":[{}]}}", slugs.join(",")));
    for i in 0..7 {
        let values: Vec<String> =
            (0..15).map(|k| format!("{{\"full_name\":\"w{i}/r{k}\"}}")).collect();
        server.mount(
            &format!("/2.0/repositories/w{i}"),
            200,
            &format!("{{\"values\":[{}]}}", values.join(",")),
        );
    }
    let r = server.result("search/repos", r#"{"query":"w"}"#);
    assert_eq!(r["items"].as_array().unwrap().len(), 22);
    assert_eq!(server.fetched.len(), 6);
}

#[test]
fn addresses_have_fallbacks() {
    let mut server = backend();
    server.mount("/2.0/repositories/team/alpha", 200, r#"{"full_name":"team/alpha"}"#);
    let url = |server: &mut Backend, params: &str| server.result("repo/web_url", params)["url"].clone();
    let page = "https://bitbucket.org/team/alpha";
    assert_eq!(url(&mut server, r#"{"repo":"team/alpha"}"#), page);
    assert_eq!(
        url(&mut server, r#"{"repo":"team/alpha","path":"a/b"}"#),
        format!("{page}/src/main/a/b")
    );
    assert_eq!(
        url(&mut server, r#"{"repo":"team/alpha","path":"a","line":3}"#),
        format!("{page}/src/main/a")
    );
    assert_eq!(
        url(&mut server, r#"{"repo":"team/alpha","branch":"dev","line":3,"is_file":true}"#),
        format!("{page}#lines-3")
    );
    let clone = server.result("repo/clone_url", r#"{"repo":"team/alpha"}"#);
    assert_eq!(clone["clone_url"], "https://bitbucket.org/team/alpha.git");
}

#[test]
fn handshakes_root_the_cache() {
    let mut server = backend();
    let mut handler = handler_for(&[]);
    for dir in ["/new", "/new", "/other"] {
        let line = request("initialize", &format!("{{\"cache_dir\":\"{dir}\"}}"));
        server.exchange(&mut handler, &line);
        assert_eq!(handler.cache.root_as_str().as_deref(), Some(dir));
    }
    server.exchange(&mut handler, &request("initialize", r#"{"cache_dir":3}"#));
    assert_eq!(handler.cache.root_as_str().as_deref(), Some("/other"));
}

#[test]
fn histories_are_bounded() {
    let mut server = backend();
    mount_default_head(&mut server, "main", "abc123");
    let page = |n: usize, next: &str| {
        let values: Vec<String> =
            (0..n).map(|i| format!("{{\"hash\":\"h{i}\",\"message\":\"m\"}}")).collect();
        format!("{{\"values\":[{}],\"next\":\"{next}\"}}", values.join(","))
    };
    let next = format!("{INSTANCE}/2.0/repositories/team/alpha/commits?more");
    server.mount("/2.0/repositories/team/alpha/commits", 200, &page(100, &next));
    for (params, depth) in [
        (r#"{"repo":"team/alpha"}"#, 200),
        (r#"{"repo":"team/alpha","limit":0}"#, 1),
        (r#"{"repo":"team/alpha","limit":150}"#, 150),
        (r#"{"repo":"team/alpha","limit":100000}"#, 500),
    ] {
        let r = server.result("repo/log", params);
        assert_eq!(r["items"].as_array().unwrap().len(), depth);
        assert_eq!(r["truncated"], true);
        assert_eq!(r["items"][0]["date"], "");
    }
    let first = format!("{INSTANCE}/2.0/repositories/team/alpha/commits?include=abc123&pagelen=100");
    assert!(server.fetched.contains(&first));
    let short = format!("{INSTANCE}/2.0/repositories/team/alpha/commits?include=abc123&pagelen=1");
    assert!(server.fetched.contains(&short));
}

#[test]
fn an_answer_that_was_not_asked_for_changes_nothing() {
    let mut handler = handler_for(&[]);
    let mut fx = Vec::new();
    let line = request("repo/tree", r#"{"repo":"team/alpha"}"#);
    let mut pending = respond(&mut handler, &line, &mut fx).unwrap();
    let asked = format!("{:?}", pending.ask(&handler));
    for answer in [
        Answer::Tree(None),
        Answer::Blob(None),
        Answer::Bytes(Ok(Vec::new())),
        Answer::Ref(Err(classify_send("x".to_string()))),
    ] {
        pending = pending.resume(answer, &handler, &mut fx).unwrap();
        assert_eq!(format!("{:?}", pending.ask(&handler)), asked);
    }
    assert!(fx.is_empty());
}

#[test]
fn credentials_are_kept_once_found() {
    let mut handler = handler_for(&[]);
    assert!(handler.bb.auth_header(None, Some("someone".to_string())).is_err());
    assert!(handler.bb.auth_header(Some(String::new()), None).is_err());
    let basic = handler.bb.auth_header(Some("secret".to_string()), Some("user".to_string()));
    assert_eq!(basic.unwrap(), "Basic dXNlcjpzZWNyZXQ=");
    let kept = handler.bb.auth_header(None, None);
    assert_eq!(kept.unwrap(), "Basic dXNlcjpzZWNyZXQ=");
    let mut handler = handler_for(&[]);
    let bearer = handler.bb.auth_header(Some("secret".to_string()), Some(String::new()));
    assert_eq!(bearer.unwrap(), "Bearer secret");
}

#[test]
fn instances_lose_trailing_slashes() {
    let handler = Handler::new("http://x.test//", "T", "U", None, Vec::new());
    assert_eq!(handler.bb.url("/2.0/y"), "http://x.test/2.0/y");
    assert_eq!(handler.bb.url("https://z.test/page"), "https://z.test/page");
}
