//! Bitbucket Cloud's REST 2.0 API: what its answers hold, the URLs that ask
//! for them, credentials, and the error taxonomy. Collections come in pages
//! (`paging`), and since Bitbucket lists one directory per call, a walk takes
//! the place of a recursive tree endpoint (`walk`).
//!
//! Content ids: the API exposes no git object ids, so every listing and blob
//! is pinned to a commit hash, and `<commit>:<path>` is the content id. It is
//! immutable, since a different commit is a different id.

use crate::discovery::{SearchView, WorkspaceSearch};
use crate::exchange::{Ask, AskView};
use crate::json::{self, json, json_of_bytes, member, text_member, JsonView};
use crate::paging::{collection, CommitLog, Paging, PagingView};
use crate::text::{self, after_last, decimal, lowercased, stands_at, string_opt, without_trailing};
use crate::walk::{walk_from_root, TreeWalk};
use base64::engine::Engine;
use serde_json::Value;
use vstd::prelude::*;
use vstd::string::{StrSliceExecFns, StringExecFns};
use vstd::utf8::encode_utf8;

verus! {

/// Bitbucket Cloud's API.
pub const DEFAULT_INSTANCE: &'static str = "https://api.bitbucket.org";

/// The variable with the token or app password.
pub const DEFAULT_TOKEN_ENV: &'static str = "BITBUCKET_TOKEN";

/// The variable with the user name.
pub const DEFAULT_USERNAME_ENV: &'static str = "BITBUCKET_USERNAME";

/// Blobs over 1 MiB are refused at the other end; refusing them here first
/// saves the transfer.
pub const BLOB_CAP: usize = 1024 * 1024;

/// The tree walk aggregates this many entries; past it the listing is reported
/// as truncated.
pub const TREE_ENTRY_CAP: usize = 25_000;

/// How many workspaces are aggregated.
pub const WORKSPACE_CAP: usize = 200;

/// How many repositories of a workspace are aggregated.
pub const REPO_CAP: usize = 500;

/// How many entries of a directory are aggregated: one more than a whole walk
/// takes, so that a directory that is cut always shows as a truncated listing.
pub const DIR_CAP: usize = 25_001;

/// Branches and tags are aggregated without a bound: all pages are followed.
pub const REF_CAP: usize = usize::MAX;

/// A search looks into this many workspaces.
pub const GROUP_CAP: usize = 5;

/// The API serves no longer pages than this.
pub const PAGE_CAP: usize = 100;

/// What can go wrong with an API call.
#[derive(Debug)]
pub enum ApiError {
    Api { status: u16, message: String, retry_after: Option<u64> },
    Network(String),
}

/// An [`ApiError`] over plain sequences.
pub enum ErrorView {
    Api { status: u16, message: Seq<char>, retry_after: Option<u64> },
    Network(Seq<char>),
}

impl View for ApiError {
    type V = ErrorView;

    open spec fn view(&self) -> ErrorView {
        match self {
            ApiError::Api { status, message, retry_after } => ErrorView::Api {
                status: *status,
                message: message@,
                retry_after: *retry_after,
            },
            ApiError::Network(m) => ErrorView::Network(m@),
        }
    }
}

/// What an API call comes to.
pub type ApiResult<T> = Result<T, ApiError>;

impl ApiError {
    /// The error in words.
    pub fn text(&self) -> (r: String)
        ensures
            r@ == match self@ {
                ErrorView::Api { message, .. } => message,
                ErrorView::Network(m) => "network: "@ + m,
            },
    {
        match self {
            ApiError::Api { message, .. } => message.clone(),
            ApiError::Network(m) => "network: ".to_owned().concat(m.as_str()),
        }
    }

    /// The status is 404.
    pub fn is_missing(&self) -> (r: bool)
        ensures
            r == is_missing(self@),
    {
        match self {
            ApiError::Api { status, .. } => *status == 404,
            ApiError::Network(_) => false,
        }
    }
}

/// The status is 404.
pub open spec fn is_missing(e: ErrorView) -> bool {
    e matches ErrorView::Api { status, .. } && status == 404
}

/// A 404 with this message.
pub open spec fn missing(message: Seq<char>) -> ErrorView {
    ErrorView::Api { status: 404, message, retry_after: None }
}

/// A 404 with this message.
pub fn missing_error(message: String) -> (r: ApiError)
    ensures
        r@ == missing(message@),
{
    ApiError::Api { status: 404, message, retry_after: None }
}

/// A repository. Private forks omit fields of `links`; one odd repository in a
/// page must not fail the whole listing.
#[derive(Debug, Clone)]
pub struct Repo {
    pub full_name: String,
    pub mainbranch: Option<Mainbranch>,
    pub links: Option<RepoLinks>,
}

/// A repository's default branch.
#[derive(Debug, Clone)]
pub struct Mainbranch {
    pub name: String,
}

/// A repository's addresses.
#[derive(Debug, Clone)]
pub struct RepoLinks {
    pub html: Option<Link>,
    pub clone_: Option<Vec<NamedLink>>,
    /// Under the name `clone` in the API's answers.
    pub clone_wire: Option<Vec<NamedLink>>,
}

/// An address.
#[derive(Debug, Clone)]
pub struct Link {
    pub href: String,
}

/// An address and the protocol that it is for.
#[derive(Debug, Clone)]
pub struct NamedLink {
    pub name: String,
    pub href: String,
}

/// The place of the first link of a name; their number where there is none.
pub open spec fn first_named(links: Seq<NamedLink>, name: Seq<char>) -> int
    decreases links.len(),
{
    if links.len() == 0 || links[0].name@ == name {
        0
    } else {
        1 + first_named(links.drop_first(), name)
    }
}

/// `first_named` is where the first link of a name stands.
pub proof fn first_named_is_first(links: Seq<NamedLink>, name: Seq<char>, n: int)
    requires
        0 <= n <= links.len(),
        n < links.len() ==> links[n].name@ == name,
        forall|k: int| 0 <= k < n ==> links[k].name@ != name,
    ensures
        n == first_named(links, name),
    decreases links.len(),
{
    if n > 0 {
        assert(links[0].name@ != name);
        let rest = links.drop_first();
        assert forall|k: int| 0 <= k < n - 1 implies rest[k].name@ != name by {
            assert(rest[k] == links[k + 1]);
        }
        first_named_is_first(rest, name, n - 1);
    }
}

impl Repo {
    /// The name of the default branch, `main` where none is known.
    pub open spec fn branch_name(&self) -> Seq<char> {
        match self.mainbranch {
            Some(m) => m.name@,
            None => "main"@,
        }
    }

    /// The repository's page.
    pub open spec fn page(&self) -> Seq<char> {
        match self.links {
            Some(RepoLinks { html: Some(html), .. }) => html.href@,
            _ => "https://bitbucket.org/"@ + self.full_name@,
        }
    }

    /// Where the repository is cloned from: the `https` link, otherwise the
    /// first one, otherwise the usual address.
    pub open spec fn remote(&self) -> Seq<char> {
        match self.links {
            Some(RepoLinks { clone_wire: Some(links), .. }) if links@.len() > 0 => {
                let n = first_named(links@, "https"@);
                if n < links@.len() {
                    links@[n].href@
                } else {
                    links@[0].href@
                }
            },
            _ => "https://bitbucket.org/"@ + self.full_name@ + ".git"@,
        }
    }

    /// `workspace/repo` to `repo`.
    pub fn name(&self) -> (r: &str)
        ensures
            r@ == after_last(self.full_name@, '/'),
    {
        let full = self.full_name.as_str();
        let chars = text::chars_of(full);
        let mut n: usize = chars.len();
        while n > 0 && chars[n - 1] != '/'
            invariant
                n <= chars@.len(),
                chars@ == full@,
                forall|k: int| n <= k < chars@.len() ==> chars@[k] != '/',
            decreases n,
        {
            n -= 1;
        }
        proof {
            text::after_last_follows(full@, '/', n as int);
            assert(full@.subrange(n as int, full@.len() as int) =~= full@.skip(n as int));
        }
        full.substring_char(n, chars.len())
    }

    /// The name of the default branch.
    pub fn branch(&self) -> (r: String)
        ensures
            r@ == self.branch_name(),
    {
        match &self.mainbranch {
            Some(m) => m.name.clone(),
            None => "main".to_owned(),
        }
    }

    /// The repository's page.
    pub fn web(&self) -> (r: String)
        ensures
            r@ == self.page(),
    {
        if let Some(links) = &self.links {
            if let Some(html) = &links.html {
                return html.href.clone();
            }
        }
        "https://bitbucket.org/".to_owned().concat(self.full_name.as_str())
    }

    /// Where the repository is cloned from.
    pub fn clone_remote(&self) -> (r: String)
        ensures
            r@ == self.remote(),
    {
        if let Some(links) = &self.links {
            if let Some(clones) = &links.clone_wire {
                if clones.len() > 0 {
                    let mut n: usize = 0;
                    while n < clones.len() && !text::same(clones[n].name.as_str(), "https")
                        invariant
                            n <= clones@.len(),
                            forall|k: int| 0 <= k < n ==> clones@[k].name@ != "https"@,
                        decreases clones@.len() - n,
                    {
                        n += 1;
                    }
                    proof {
                        first_named_is_first(clones@, "https"@, n as int);
                    }
                    if n < clones.len() {
                        return clones[n].href.clone();
                    }
                    return clones[0].href.clone();
                }
            }
        }
        "https://bitbucket.org/".to_owned().concat(self.full_name.as_str()).concat(".git")
    }
}

/// One page of a collection.
#[derive(Debug)]
pub struct Paged<T> {
    pub values: Vec<T>,
    pub next: Option<String>,
}

/// A workspace.
#[derive(Debug, Clone)]
pub struct Workspace {
    pub slug: String,
    pub name: Option<String>,
}

/// A branch or a tag on its own.
#[derive(Debug, Clone)]
pub struct Ref {
    pub target: RefTarget,
}

/// The commit that a branch or tag points to.
#[derive(Debug, Clone)]
pub struct RefTarget {
    pub hash: String,
}

/// A branch or a tag in a listing.
#[derive(Debug, Clone)]
pub struct NamedRef {
    pub name: String,
    pub target: RefTarget,
}

/// A commit in a history. Service commits may lack author and date.
#[derive(Debug, Clone)]
pub struct Commit {
    pub hash: String,
    pub message: String,
    pub author: Option<Author>,
    pub date: Option<String>,
}

/// An author as the forge writes it.
#[derive(Debug, Clone)]
pub struct Author {
    pub raw: String,
}

impl Commit {
    /// The first line of the message, without the line's end.
    pub open spec fn subject_line(&self) -> Seq<char> {
        let lines = text::lines_of(self.message@);
        if lines.len() > 0 {
            lines[0]
        } else {
            Seq::empty()
        }
    }

    /// The author as the forge writes it, empty where there is none.
    pub open spec fn author_text(&self) -> Seq<char> {
        match self.author {
            Some(a) => a.raw@,
            None => Seq::empty(),
        }
    }

    /// The date as the forge writes it, empty where there is none.
    pub open spec fn date_text(&self) -> Seq<char> {
        match self.date {
            Some(d) => d@,
            None => Seq::empty(),
        }
    }

    /// The first line of the message.
    pub fn subject(&self) -> (r: String)
        ensures
            r@ == self.subject_line(),
    {
        let lines = text::lines(self.message.as_str());
        if lines.len() > 0 {
            assert(text::texts(lines@)[0] == lines@[0]@);
            lines[0].clone()
        } else {
            String::new()
        }
    }

    /// The author, verbatim.
    pub fn author_raw(&self) -> (r: String)
        ensures
            r@ == self.author_text(),
    {
        match &self.author {
            Some(a) => a.raw.clone(),
            None => String::new(),
        }
    }
}

/// One entry of a directory; its path is relative to the repository's root.
#[derive(Debug, Clone)]
pub struct SrcEntry {
    pub kind: String,
    pub path: String,
    pub size: Option<u64>,
}

impl SrcEntry {
    /// The entry is a directory.
    pub open spec fn names_dir(&self) -> bool {
        self.kind@ == "commit_directory"@
    }

    /// The entry is a directory.
    pub fn is_dir(&self) -> (r: bool)
        ensures
            r == self.names_dir(),
    {
        text::same(self.kind.as_str(), "commit_directory")
    }
}

/// The content id of a path at a commit.
pub open spec fn content_id(commit: Seq<char>, path: Seq<char>) -> Seq<char> {
    commit + seq![':'] + path
}

/// The commit and the path of a content id: the two sides of its first colon.
pub open spec fn parted(sha: Seq<char>) -> Option<(Seq<char>, Seq<char>)> {
    text::split_first(sha, ':')
}

/// Mints a content id.
pub fn mint(commit: &str, path: &str) -> (r: String)
    ensures
        r@ == content_id(commit@, path@),
{
    let mut id = commit.to_owned();
    id.push(':');
    id.append(path);
    assert(id@ =~= content_id(commit@, path@));
    id
}

/// A minted content id comes apart into the commit and the path that it was
/// minted from; commit hashes hold no colon.
pub proof fn content_ids_round_trip(commit: Seq<char>, path: Seq<char>)
    requires
        !commit.contains(':'),
    ensures
        parted(content_id(commit, path)) == Some((commit, path)),
{
    let id = content_id(commit, path);
    let n = commit.len() as int;
    assert(id[n] == ':');
    assert forall|k: int| 0 <= k < n implies id[k] != ':' by {
        assert(id[k] == commit[k]);
        assert(commit.contains(commit[k]));
    }
    text::first_is_before_first(id, ':', n);
    assert(id.take(n) =~= commit);
    assert(id.skip(n + 1) =~= path);
}

/// Two content ids are the same only where commit and path are: a different
/// commit is a different id.
pub proof fn content_ids_differ(c1: Seq<char>, p1: Seq<char>, c2: Seq<char>, p2: Seq<char>)
    requires
        !c1.contains(':'),
        !c2.contains(':'),
        content_id(c1, p1) == content_id(c2, p2),
    ensures
        c1 == c2,
        p1 == p2,
{
    content_ids_round_trip(c1, p1);
    content_ids_round_trip(c2, p2);
}

/// Bytes in the standard base64 alphabet, padded.
pub uninterp spec fn base64_of(bytes: Seq<u8>) -> Seq<char>;

/// `Engine::encode` of `base64::engine::general_purpose::STANDARD`: the text
/// depends on the bytes alone, and goes by the name `base64_of`. The alphabet
/// is not stated.
#[verifier::external_body]
pub(crate) fn base64_encode(bytes: &[u8]) -> (r: String)
    ensures
        r@ == base64_of(bytes@),
{
    base64::engine::general_purpose::STANDARD.encode(bytes)
}

/// A client of one Bitbucket instance. Credentials are looked up when they are
/// first needed, and kept.
#[derive(Debug)]
pub struct Bitbucket {
    pub instance: String,
    pub token_env: String,
    pub username_env: String,
    pub header: Option<String>,
}

/// An empty value counts as none.
pub open spec fn nonempty(s: Option<Seq<char>>) -> Option<Seq<char>> {
    match s {
        Some(t) => if t.len() > 0 {
            Some(t)
        } else {
            None
        },
        None => None,
    }
}

/// The authorization that a token and a user name give: an app password goes
/// with a user name as Basic, a token alone as Bearer. Without a token there
/// is none.
pub open spec fn authorization(token: Option<Seq<char>>, username: Option<Seq<char>>) -> Option<
    Seq<char>,
> {
    match (nonempty(token), nonempty(username)) {
        (Some(token), Some(user)) => Some(
            "Basic "@ + base64_of(encode_utf8(user + seq![':'] + token)),
        ),
        (Some(token), None) => Some("Bearer "@ + token),
        (None, _) => None,
    }
}

/// The header of a user name and password that are encoded together.
pub fn basic(encoded: &str) -> (r: String)
    ensures
        r@ == "Basic "@ + encoded@,
{
    "Basic ".to_owned().concat(encoded)
}

/// What is said where there are no credentials.
pub open spec fn no_credentials(token_env: Seq<char>, username_env: Seq<char>) -> ErrorView {
    ErrorView::Api {
        status: 401,
        message: "bitbucket needs credentials — set "@ + token_env + " (app password) + "@
            + username_env + " (username), or "@ + token_env + " for a bearer token"@,
        retry_after: None,
    }
}

/// What is said of a blob over the preview cap.
pub open spec fn over_cap(len: nat) -> ErrorView {
    ErrorView::Api {
        status: 413,
        message: "blob over the 1 MiB preview cap ("@ + decimal(len) + " bytes)"@,
        retry_after: None,
    }
}

/// What is said of a content id outside the grammar.
pub open spec fn malformed_id(sha: Seq<char>) -> ErrorView {
    missing(
        "malformed content id "@ + text::in_quotes(sha) + " — expected <commit>:<path>"@,
    )
}

/// A path below the instance, or a URL as it stands.
pub open spec fn full_url(instance: Seq<char>, path: Seq<char>) -> Seq<char> {
    if stands_at(path, "http"@, 0) {
        path
    } else {
        instance + path
    }
}

/// Where a repository is asked for.
pub open spec fn repo_path(full_name: Seq<char>) -> Seq<char> {
    "/2.0/repositories/"@ + full_name
}

/// Where a branch is asked for.
pub open spec fn branch_path(full_name: Seq<char>, branch: Seq<char>) -> Seq<char> {
    "/2.0/repositories/"@ + full_name + "/refs/branches/"@ + branch
}

/// Where a tag is asked for.
pub open spec fn tag_path(full_name: Seq<char>, tag: Seq<char>) -> Seq<char> {
    "/2.0/repositories/"@ + full_name + "/refs/tags/"@ + tag
}

/// Where a file's bytes at a commit are asked for.
pub open spec fn blob_path(full_name: Seq<char>, commit: Seq<char>, path: Seq<char>) -> Seq<char> {
    "/2.0/repositories/"@ + full_name + "/src/"@ + commit + "/"@ + path
}

/// The workspaces that the account can see.
pub open spec fn workspace_listing() -> PagingView<Workspace> {
    collection("/2.0/user/workspaces?pagelen=100"@, WORKSPACE_CAP as nat)
}

/// The repositories of a workspace, most recently updated first.
pub open spec fn repo_listing(workspace: Seq<char>) -> PagingView<Repo> {
    collection(
        "/2.0/repositories/"@ + workspace + "?pagelen=100&sort=-updated_on"@,
        REPO_CAP as nat,
    )
}

/// The branches of a repository.
pub open spec fn branch_listing(full_name: Seq<char>) -> PagingView<NamedRef> {
    collection(
        "/2.0/repositories/"@ + full_name + "/refs/branches?pagelen=100"@,
        REF_CAP as nat,
    )
}

/// The tags of a repository.
pub open spec fn tag_listing(full_name: Seq<char>) -> PagingView<NamedRef> {
    collection("/2.0/repositories/"@ + full_name + "/refs/tags?pagelen=100"@, REF_CAP as nat)
}

/// How long the pages of a history of `limit` commits are.
pub open spec fn log_page(limit: nat) -> nat {
    if limit < PAGE_CAP {
        limit
    } else {
        PAGE_CAP as nat
    }
}

/// A history from a commit backwards, of the commits that touch a path where
/// one is given.
pub open spec fn commit_listing(
    full_name: Seq<char>,
    commit: Seq<char>,
    path: Option<Seq<char>>,
    limit: nat,
) -> PagingView<Commit> {
    let first = "/2.0/repositories/"@ + full_name + "/commits?include="@ + commit + "&pagelen="@
        + decimal(log_page(limit));
    collection(
        match path {
            Some(p) => first + "&path="@ + p,
            None => first,
        },
        limit,
    )
}

pub(crate) fn repo_pages(workspace: &str) -> (r: Paging<Repo>)
    ensures
        r@ == repo_listing(workspace@),
{
    Paging::new(
        "/2.0/repositories/".to_owned().concat(workspace).concat("?pagelen=100&sort=-updated_on"),
        REPO_CAP,
    )
}

/// The message of an error reply: its own, where it carries one.
pub open spec fn error_message(status: u16, body: Option<JsonView>) -> Seq<char> {
    match body {
        Some(body) => match member(body, "error"@) {
            Some(error) => match text_member(error, "message"@) {
                Some(message) => message,
                None => "bitbucket api: status "@ + decimal(status as nat),
            },
            None => "bitbucket api: status "@ + decimal(status as nat),
        },
        None => "bitbucket api: status "@ + decimal(status as nat),
    }
}

/// The error that a reply with this status, `Retry-After` header and body
/// stands for.
pub open spec fn error_of(
    status: u16,
    retry_after: Option<Seq<char>>,
    body: Option<JsonView>,
) -> ErrorView {
    ErrorView::Api {
        status,
        message: error_message(status, body),
        retry_after: match retry_after {
            Some(s) => text::unsigned(s),
            None => None,
        },
    }
}

/// The error that a reply stands for, its body parsed.
pub fn status_error(status: u16, retry_after: Option<&str>, body: Option<&Value>) -> (r: ApiError)
    ensures
        r@ == error_of(
            status,
            text::str_opt(retry_after),
            match body {
                Some(v) => Some(json(*v)),
                None => None,
            },
        ),
{
    let retry_after = match retry_after {
        Some(s) => text::parse_unsigned(s),
        None => None,
    };
    if let Some(body) = body {
        if let Some(error) = json::get(body, "error") {
            if let Some(message) = json::get_text(error, "message") {
                return ApiError::Api { status, message: message.to_owned(), retry_after };
            }
        }
    }
    let message = "bitbucket api: status ".to_owned().concat(text::number(status as u64).as_str());
    ApiError::Api { status, message, retry_after }
}

/// A reply with this status is to be read: one of the 200s is.
pub open spec fn succeeds(status: u16) -> bool {
    200 <= status < 300
}

/// A reply with this status is to be read: one of the 200s is.
pub fn is_success(status: u16) -> (r: bool)
    ensures
        r == succeeds(status),
{
    200 <= status && status < 300
}

/// The error that a reply stands for, by its status, `Retry-After` header and
/// body.
pub fn refused(status: u16, retry_after: Option<&str>, body: &[u8]) -> (r: ApiError)
    ensures
        r@ == error_of(status, text::str_opt(retry_after), json_of_bytes(body@)),
{
    let parsed = json::parse_bytes(body);
    status_error(status, retry_after, parsed.as_ref())
}

/// A reply is to be read, or stands for an error.
pub fn classify_status(status: u16, retry_after: Option<&str>, body: &[u8]) -> (r: ApiResult<()>)
    ensures
        match r {
            Ok(_) => succeeds(status),
            Err(e) => !succeeds(status) && e@ == error_of(
                status,
                text::str_opt(retry_after),
                json_of_bytes(body@),
            ),
        },
{
    if is_success(status) {
        Ok(())
    } else {
        Err(refused(status, retry_after, body))
    }
}

/// A request that could not be sent, or a reply that could not be read.
pub fn classify_send(message: String) -> (r: ApiError)
    ensures
        r@ == ErrorView::Network(message@),
{
    ApiError::Network(message)
}

/// Refuses a blob over the preview cap.
pub fn check_blob(bytes: Vec<u8>) -> (r: ApiResult<Vec<u8>>)
    ensures
        match r {
            Ok(b) => b == bytes && bytes@.len() <= BLOB_CAP,
            Err(e) => bytes@.len() > BLOB_CAP && e@ == over_cap(bytes@.len()),
        },
{
    if bytes.len() > BLOB_CAP {
        let message = "blob over the 1 MiB preview cap (".to_owned().concat(
            text::number(bytes.len() as u64).as_str(),
        ).concat(" bytes)");
        return Err(ApiError::Api { status: 413, message, retry_after: None });
    }
    Ok(bytes)
}

impl Bitbucket {
    /// A client that has looked up no credentials yet.
    pub fn new(instance: &str, token_env: &str, username_env: &str) -> (r: Bitbucket)
        ensures
            r.instance@ == without_trailing(instance@, '/'),
            r.token_env@ == token_env@,
            r.username_env@ == username_env@,
            r.header is None,
    {
        Bitbucket {
            instance: text::trim_end(instance, '/'),
            token_env: token_env.to_owned(),
            username_env: username_env.to_owned(),
            header: None,
        }
    }

    /// The authorization header, from what the environment holds under
    /// `token_env` and `username_env` when it is first needed. App passwords
    /// authenticate as Basic `username:password`, plain API tokens as Bearer;
    /// without a token there is an auth error and no anonymous mode.
    pub fn auth_header(&mut self, token: Option<String>, username: Option<String>) -> (r: ApiResult<
        String,
    >)
        ensures
            final(self).instance == old(self).instance,
            final(self).token_env == old(self).token_env,
            final(self).username_env == old(self).username_env,
            match old(self).header {
                Some(header) => r == ApiResult::<String>::Ok(header) && final(self).header == old(
                    self,
                ).header,
                None => match authorization(string_opt(token), string_opt(username)) {
                    Some(header) => {
                        &&& r matches Ok(h)
                        &&& h@ == header
                        &&& final(self).header == Some(h)
                    },
                    None => {
                        &&& r matches Err(e)
                        &&& e@ == no_credentials(old(self).token_env@, old(self).username_env@)
                        &&& final(self).header is None
                    },
                },
            },
    {
        if let Some(header) = &self.header {
            return Ok(header.clone());
        }
        let header = match (keep_nonempty(token), keep_nonempty(username)) {
            (Some(token), Some(user)) => {
                let mut pair = user.clone();
                pair.push(':');
                pair.append(token.as_str());
                assert(pair@ =~= user@ + seq![':'] + token@);
                basic(base64_encode(pair.as_str().as_bytes()).as_str())
            },
            (Some(token), None) => "Bearer ".to_owned().concat(token.as_str()),
            (None, _) => {
                let message = "bitbucket needs credentials — set ".to_owned().concat(
                    self.token_env.as_str(),
                ).concat(" (app password) + ").concat(self.username_env.as_str()).concat(
                    " (username), or ",
                ).concat(self.token_env.as_str()).concat(" for a bearer token");
                return Err(ApiError::Api { status: 401, message, retry_after: None });
            },
        };
        self.header = Some(header.clone());
        Ok(header)
    }

    /// The URL of a path of the API. The links to further pages are URLs
    /// already.
    pub fn url(&self, path: &str) -> (r: String)
        ensures
            r@ == full_url(self.instance@, path@),
    {
        if text::starts_with(path, "http") {
            path.to_owned()
        } else {
            self.instance.clone().concat(path)
        }
    }

    /// Begins to aggregate the pages of a collection.
    fn paged<T>(&self, first: String, cap: usize) -> (r: Paging<T>)
        ensures
            r@ == collection::<T>(first@, cap as nat),
    {
        Paging::new(first, cap)
    }

    /// Lists the workspaces that the account can see, the first
    /// [`WORKSPACE_CAP`] of them.
    pub fn workspaces(&self) -> (r: Paging<Workspace>)
        ensures
            r@ == workspace_listing(),
    {
        self.paged("/2.0/user/workspaces?pagelen=100".to_owned(), WORKSPACE_CAP)
    }

    /// Asks for a repository.
    pub fn repo(&self, full_name: &str) -> (r: Ask)
        ensures
            r@ == AskView::Repo(full_url(self.instance@, repo_path(full_name@))),
    {
        Ask::Repo(self.url("/2.0/repositories/".to_owned().concat(full_name).as_str()))
    }

    /// Lists the repositories of a workspace, the [`REPO_CAP`] most recently
    /// updated ones.
    pub fn workspace_repos(&self, workspace: &str) -> (r: Paging<Repo>)
        ensures
            r@ == repo_listing(workspace@),
    {
        repo_pages(workspace)
    }

    /// Searches the workspaces whose slug or name contains the query, and lists
    /// their repositories.
    pub fn search(&self, query: &str) -> (r: WorkspaceSearch)
        ensures
            r@ == (SearchView::Discover {
                query: lowercased(query@),
                paging: workspace_listing(),
            }),
    {
        WorkspaceSearch::Discover { query: text::lowercase(query), paging: self.workspaces() }
    }

    /// Lists all branches of a repository.
    pub fn branches(&self, full_name: &str) -> (r: Paging<NamedRef>)
        ensures
            r@ == branch_listing(full_name@),
    {
        self.paged(
            "/2.0/repositories/".to_owned().concat(full_name).concat(
                "/refs/branches?pagelen=100",
            ),
            REF_CAP,
        )
    }

    /// Lists all tags of a repository.
    pub fn tags(&self, full_name: &str) -> (r: Paging<NamedRef>)
        ensures
            r@ == tag_listing(full_name@),
    {
        self.paged(
            "/2.0/repositories/".to_owned().concat(full_name).concat("/refs/tags?pagelen=100"),
            REF_CAP,
        )
    }

    /// Asks for the commit that a branch points to: the pin for trees and
    /// blobs.
    pub fn branch_head(&self, full_name: &str, branch: &str) -> (r: Ask)
        ensures
            r@ == AskView::Ref(full_url(self.instance@, branch_path(full_name@, branch@))),
    {
        Ask::Ref(
            self.url(
                "/2.0/repositories/".to_owned().concat(full_name).concat(
                    "/refs/branches/",
                ).concat(branch).as_str(),
            ),
        )
    }

    /// Asks for the commit that a tag points to.
    pub fn tag_head(&self, full_name: &str, tag: &str) -> (r: Ask)
        ensures
            r@ == AskView::Ref(full_url(self.instance@, tag_path(full_name@, tag@))),
    {
        Ask::Ref(
            self.url(
                "/2.0/repositories/".to_owned().concat(full_name).concat("/refs/tags/").concat(
                    tag,
                ).as_str(),
            ),
        )
    }

    /// Lists the commits from one backwards, newest first, up to `limit`.
    pub fn commits(&self, full_name: &str, commit: &str, path: Option<&str>, limit: usize) -> (r:
        CommitLog)
        ensures
            r@ == commit_listing(
                full_name@,
                commit@,
                text::str_opt(path),
                limit as nat,
            ),
    {
        let pagelen: usize = if limit < PAGE_CAP {
            limit
        } else {
            PAGE_CAP
        };
        let first = "/2.0/repositories/".to_owned().concat(full_name).concat(
            "/commits?include=",
        ).concat(commit).concat("&pagelen=").concat(text::number(pagelen as u64).as_str());
        let first = match path {
            Some(p) => first.concat("&path=").concat(p),
            None => first,
        };
        CommitLog { paging: self.paged(first, limit) }
    }

    /// Walks a repository's directories at a commit.
    pub fn walk_tree(&self, full_name: &str, commit: &str) -> (r: TreeWalk)
        ensures
            r@ == walk_from_root(full_name@, commit@),
    {
        TreeWalk::from_root(full_name, commit)
    }

    /// Asks for a blob's bytes by content id. An id outside the grammar is one
    /// that was never served, so its blob is missing.
    pub fn blob(&self, full_name: &str, sha: &str) -> (r: ApiResult<Ask>)
        ensures
            match parted(sha@) {
                Some((commit, path)) => r matches Ok(ask) && ask@ == AskView::Bytes(
                    full_url(self.instance@, blob_path(full_name@, commit, path)),
                ),
                None => r matches Err(e) && e@ == malformed_id(sha@),
            },
    {
        match text::split_once(sha, ':') {
            Some((commit, path)) => Ok(
                Ask::Bytes(
                    self.url(
                        "/2.0/repositories/".to_owned().concat(full_name).concat("/src/").concat(
                            commit.as_str(),
                        ).concat("/").concat(path.as_str()).as_str(),
                    ),
                ),
            ),
            None => Err(
                missing_error(
                    "malformed content id ".to_owned().concat(text::quoted(sha).as_str()).concat(
                        " — expected <commit>:<path>",
                    ),
                ),
            ),
        }
    }
}

fn keep_nonempty(s: Option<String>) -> (r: Option<String>)
    ensures
        string_opt(r) == nonempty(string_opt(s)),
{
    match s {
        Some(t) => if t.as_str().is_empty() {
            None
        } else {
            Some(t)
        },
        None => None,
    }
}

}
