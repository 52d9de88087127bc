//! Addresses: a repository's pages and its clone remote, from its links
//! (`repo/web_url`, `repo/clone_url`), and a workspace's page (`org/url`).

use super::Handler;
use crate::text;
use crate::api::Repo;
use crate::json::{self, json, JsonView};
use serde_json::Value;
use vstd::prelude::*;
use vstd::string::StringExecFns;

verus! {

/// The remote to clone from, on the wire.
pub open spec fn clone_object(repo: Repo) -> JsonView {
    JsonView::Object(Map::empty().insert("clone_url"@, JsonView::Str(repo.remote())))
}

/// The page of a path on a branch; without a path, the repository's. Without a
/// branch, the default branch. A line of a file is a fragment.
pub open spec fn page_of(
    repo: Repo,
    path: Seq<char>,
    branch: Seq<char>,
    line: Option<u64>,
    is_file: bool,
) -> Seq<char> {
    let branch = if branch.len() == 0 {
        repo.branch_name()
    } else {
        branch
    };
    let page = if path.len() == 0 {
        repo.page()
    } else {
        repo.page() + "/src/"@ + branch + "/"@ + path
    };
    match line {
        Some(n) => if is_file {
            page + "#lines-"@ + text::decimal(n as nat)
        } else {
            page
        },
        None => page,
    }
}

/// An address on the wire.
pub open spec fn url_object(url: Seq<char>) -> JsonView {
    JsonView::Object(Map::empty().insert("url"@, JsonView::Str(url)))
}

/// The remote to clone from, on the wire.
pub fn clone_value(repo: &Repo) -> (r: Value)
    ensures
        json(r) == clone_object(*repo),
{
    let mut v = json::object();
    json::set(&mut v, "clone_url", json::string(repo.clone_remote().as_str()));
    v
}

/// A page of `repo/web_url` that is asked for.
#[derive(Debug)]
pub struct PageRequest {
    pub full_name: String,
    pub path: String,
    pub branch: String,
    pub line: Option<u64>,
    pub is_file: bool,
}

/// A [`PageRequest`] over plain sequences.
pub struct PageView {
    pub full_name: Seq<char>,
    pub path: Seq<char>,
    pub branch: Seq<char>,
    pub line: Option<u64>,
    pub is_file: bool,
}

impl View for PageRequest {
    type V = PageView;

    open spec fn view(&self) -> PageView {
        PageView {
            full_name: self.full_name@,
            path: self.path@,
            branch: self.branch@,
            line: self.line,
            is_file: self.is_file,
        }
    }
}

/// The page that was asked for, on the wire.
pub open spec fn page_object(repo: Repo, p: PageView) -> JsonView {
    url_object(page_of(repo, p.path, p.branch, p.line, p.is_file))
}

impl PageRequest {
    /// The page, on the wire.
    pub fn of(&self, repo: &Repo) -> (r: Value)
        ensures
            json(r) == page_object(*repo, self@),
    {
        let branch = if self.branch.as_str().is_empty() {
            repo.branch()
        } else {
            self.branch.clone()
        };
        let mut url = if self.path.as_str().is_empty() {
            repo.web()
        } else {
            repo.web().concat("/src/").concat(branch.as_str()).concat("/").concat(
                self.path.as_str(),
            )
        };
        if self.is_file {
            if let Some(n) = self.line {
                url.append("#lines-");
                url.append(text::number(n).as_str());
            }
        }
        let mut v = json::object();
        json::set(&mut v, "url", json::string(url.as_str()));
        v
    }
}

impl Handler {
    /// `org/url`: a workspace's page.
    pub fn org_url(&self, org: &str) -> (r: Value)
        ensures
            json(r) == url_object("https://bitbucket.org/"@ + org@),
    {
        let mut v = json::object();
        json::set(
            &mut v,
            "url",
            json::string("https://bitbucket.org/".to_owned().concat(org).as_str()),
        );
        v
    }
}

}
