//! The handshake: protocol version, name and icon, the capability split, and
//! the root of the cache.

use super::Handler;
use crate::cache::Cache;
use crate::json::{self, json, text_member, JsonView};
use crate::text::{self, string_opt};
use serde_json::Value;
use vstd::prelude::*;

verus! {

/// What the provider can do. Bitbucket Cloud has no code-search index, and no
/// blame.
pub open spec fn capabilities() -> JsonView {
    JsonView::Object(
        Map::empty().insert("orgs"@, JsonView::Bool(true)).insert(
            "code_search"@,
            JsonView::Bool(false),
        ).insert("file_search"@, JsonView::Bool(true)).insert("refs"@, JsonView::Bool(true)).insert(
            "log"@,
            JsonView::Bool(true),
        ).insert("blame"@, JsonView::Bool(false)),
    )
}

/// What the provider says of itself.
pub open spec fn handshake() -> JsonView {
    JsonView::Object(
        Map::empty().insert("protocol"@, JsonView::UInt(1)).insert(
            "name"@,
            JsonView::Str("bitbucket"@),
        ).insert("icon"@, JsonView::Str("bitbucket"@)).insert("capabilities"@, capabilities()),
    )
}

/// The root of the cache after a handshake: the one that it names, otherwise
/// the one before.
pub open spec fn rooted(before: Option<Seq<char>>, params: JsonView) -> Option<Seq<char>> {
    match text_member(params, "cache_dir"@) {
        Some(dir) => Some(dir),
        None => before,
    }
}

impl Handler {
    /// `initialize`. The client may send it any number of times.
    pub fn initialize(&mut self, params: &Value) -> (r: Value)
        ensures
            json(r) == handshake(),
            final(self).bb == old(self).bb,
            final(self).workspaces == old(self).workspaces,
            string_opt(final(self).cache.root) == rooted(string_opt(old(self).cache.root), json(*params)),
    {
        if let Some(dir) = json::get_text(params, "cache_dir") {
            let same_root = match self.cache.root_as_str() {
                Some(root) => text::same(root.as_str(), dir),
                None => false,
            };
            if !same_root {
                self.cache = Cache::new(Some(dir.to_owned()));
            }
        }
        let mut capabilities = json::object();
        json::set(&mut capabilities, "orgs", json::boolean(true));
        json::set(&mut capabilities, "code_search", json::boolean(false));
        json::set(&mut capabilities, "file_search", json::boolean(true));
        json::set(&mut capabilities, "refs", json::boolean(true));
        json::set(&mut capabilities, "log", json::boolean(true));
        json::set(&mut capabilities, "blame", json::boolean(false));
        let mut v = json::object();
        json::set(&mut v, "protocol", json::uint(1));
        json::set(&mut v, "name", json::string("bitbucket"));
        json::set(&mut v, "icon", json::string("bitbucket"));
        json::set(&mut v, "capabilities", capabilities);
        v
    }
}

/// The client may send the handshake again: the root stays what it is.
pub proof fn handshakes_repeat(before: Option<Seq<char>>, params: JsonView)
    ensures
        rooted(rooted(before, params), params) == rooted(before, params),
{
}

}
