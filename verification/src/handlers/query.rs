//! Queries of `search/code`: their grammar, the files of a tree that they look
//! for, and the lines of a blob.

use crate::cache::{entries_view, EntryView, TreeEntry};
use crate::json::{self, json, json_all, JsonView};
use crate::text::{
    self, after_prefix, has_text, lines_of, lowercased, string_opt, without_leading, words,
};
use serde_json::Value;
use std::collections::VecDeque;
use vstd::prelude::*;
use vstd::string::StringExecFns;
use vstd::utf8::{decode_utf8, valid_utf8};

verus! {

/// What follows a prefix in the last word that begins with it.
pub open spec fn qualifier(words: Seq<Seq<char>>, prefix: Seq<char>) -> Option<Seq<char>>
    decreases words.len(),
{
    if words.len() == 0 {
        None
    } else {
        match after_prefix(words.last(), prefix) {
            Some(value) => Some(value),
            None => qualifier(words.drop_last(), prefix),
        }
    }
}

/// An extension in lower case, without leading dots.
pub open spec fn bare_extension(value: Option<Seq<char>>) -> Option<Seq<char>> {
    match value {
        Some(v) => Some(lowercased(without_leading(v, '.'))),
        None => None,
    }
}

/// A word without a qualifier: a term to grep for.
pub open spec fn is_term(word: Seq<char>) -> bool {
    &&& after_prefix(word, "path:"@) is None
    &&& after_prefix(word, "repo:"@) is None
    &&& after_prefix(word, "org:"@) is None
    &&& after_prefix(word, "extension:"@) is None
}

/// The terms to grep for, in lower case.
pub open spec fn terms_of(q: Seq<char>) -> Seq<Seq<char>> {
    words(q).filter(|w: Seq<char>| is_term(w)).map_values(|w: Seq<char>| lowercased(w))
}

/// A word begins with one qualifier at most.
proof fn qualifiers_exclude(w: Seq<char>)
    ensures
        after_prefix(w, "path:"@) is Some ==> {
            &&& after_prefix(w, "repo:"@) is None
            &&& after_prefix(w, "org:"@) is None
            &&& after_prefix(w, "extension:"@) is None
        },
        after_prefix(w, "repo:"@) is Some ==> {
            &&& after_prefix(w, "org:"@) is None
            &&& after_prefix(w, "extension:"@) is None
        },
        after_prefix(w, "org:"@) is Some ==> after_prefix(w, "extension:"@) is None,
{
    reveal_strlit("path:");
    reveal_strlit("repo:");
    reveal_strlit("org:");
    reveal_strlit("extension:");
    assert forall|p: Seq<char>| p.len() > 0 && #[trigger] after_prefix(w, p) is Some implies w[0]
        == p[0] by {
        assert(w.subrange(0, p.len() as int)[0] == p[0]);
    }
}

/// The parts of a query: path, repository and workspace as they stand behind
/// `path:`, `repo:` and `org:`, and the extension behind `extension:`. Of each,
/// the last one counts.
pub fn parse_query(q: &str) -> (r: (
    Option<String>,
    Option<String>,
    Option<String>,
    Option<String>,
))
    ensures
        string_opt(r.0) == qualifier(words(q@), "path:"@),
        string_opt(r.1) == qualifier(words(q@), "repo:"@),
        string_opt(r.2) == qualifier(words(q@), "org:"@),
        string_opt(r.3) == bare_extension(qualifier(words(q@), "extension:"@)),
{
    let tokens = text::split_words(q);
    let ghost all = words(q@);
    let mut path: Option<String> = None;
    let mut repo: Option<String> = None;
    let mut org: Option<String> = None;
    let mut extension: Option<String> = None;
    let mut i: usize = 0;
    while i < tokens.len()
        invariant
            i <= tokens@.len(),
            text::texts(tokens@) == all,
            string_opt(path) == qualifier(all.take(i as int), "path:"@),
            string_opt(repo) == qualifier(all.take(i as int), "repo:"@),
            string_opt(org) == qualifier(all.take(i as int), "org:"@),
            string_opt(extension) == bare_extension(
                qualifier(all.take(i as int), "extension:"@),
            ),
        decreases tokens@.len() - i,
    {
        let token = tokens[i].as_str();
        proof {
            assert(all.take(i + 1).drop_last() =~= all.take(i as int));
            assert(all.take(i + 1).last() == token@);
            qualifiers_exclude(token@);
        }
        if let Some(v) = text::strip_prefix(token, "path:") {
            path = Some(v);
        } else if let Some(v) = text::strip_prefix(token, "repo:") {
            repo = Some(v);
        } else if let Some(v) = text::strip_prefix(token, "org:") {
            org = Some(v);
        } else if let Some(v) = text::strip_prefix(token, "extension:") {
            extension = Some(text::lowercase(text::trim_start(v.as_str(), '.').as_str()));
        }
        i += 1;
    }
    assert(all.take(i as int) =~= all);
    (path, repo, org, extension)
}

/// The terms of a query to grep for.
pub fn parse_terms(q: &str) -> (r: Vec<String>)
    ensures
        text::texts(r@) == terms_of(q@),
{
    let tokens = text::split_words(q);
    let ghost all = words(q@);
    let ghost pred = |w: Seq<char>| is_term(w);
    let ghost lower = |w: Seq<char>| lowercased(w);
    let mut terms: Vec<String> = Vec::new();
    let mut i: usize = 0;
    assert(text::texts(terms@) =~= all.take(0).filter(pred).map_values(lower));
    while i < tokens.len()
        invariant
            i <= tokens@.len(),
            text::texts(tokens@) == all,
            pred == (|w: Seq<char>| is_term(w)),
            lower == (|w: Seq<char>| lowercased(w)),
            text::texts(terms@) == all.take(i as int).filter(pred).map_values(lower),
        decreases tokens@.len() - i,
    {
        let token = tokens[i].as_str();
        let ghost before = all.take(i as int).filter(pred);
        let ghost terms0 = text::texts(terms@);
        proof {
            assert(all.take(i + 1) =~= all.take(i as int).push(token@));
            all.take(i as int).lemma_filter_push(token@, pred);
        }
        if text::strip_prefix(token, "path:").is_none() && text::strip_prefix(
            token,
            "repo:",
        ).is_none() && text::strip_prefix(token, "org:").is_none() && text::strip_prefix(
            token,
            "extension:",
        ).is_none() {
            let term = text::lowercase(token);
            terms.push(term);
            assert(text::texts(terms@) =~= terms0.push(lowercased(token@)));
            assert(before.push(token@).map_values(lower) =~= before.map_values(lower).push(
                lowercased(token@),
            ));
        }
        i += 1;
    }
    assert(all.take(i as int) =~= all);
    terms
}

/// What a search looks for, in lower case: a part of the path, the extension,
/// and the terms that a line must hold. What is not given does not restrict.
pub struct Filter {
    pub path: Option<String>,
    pub extension: Option<String>,
    pub terms: Vec<String>,
}

/// A [`Filter`] over plain sequences.
pub struct FilterView {
    pub path: Option<Seq<char>>,
    pub extension: Option<Seq<char>>,
    pub terms: Seq<Seq<char>>,
}

impl View for Filter {
    type V = FilterView;

    open spec fn view(&self) -> FilterView {
        FilterView {
            path: string_opt(self.path),
            extension: string_opt(self.extension),
            terms: text::texts(self.terms@),
        }
    }
}

/// A text ends with another.
pub open spec fn ends_in(s: Seq<char>, suffix: Seq<char>) -> bool {
    text::stands_at(s, suffix, s.len() - suffix.len())
}

/// A path in lower case is one that the search looks for.
pub open spec fn path_wanted(f: FilterView, path: Seq<char>) -> bool {
    &&& f.path matches Some(p) ==> has_text(path, p)
    &&& f.extension matches Some(x) ==> ends_in(path, "."@ + x)
}

/// An entry of a tree is a file that the search looks for.
pub open spec fn wanted(f: FilterView, e: EntryView) -> bool {
    !e.is_dir && path_wanted(f, lowercased(e.path))
}

/// The files of a tree that the search looks for, in order.
pub open spec fn candidates(f: FilterView, entries: Seq<EntryView>) -> Seq<EntryView> {
    entries.filter(|e: EntryView| wanted(f, e))
}

/// A text holds every term.
pub open spec fn holds_all(s: Seq<char>, terms: Seq<Seq<char>>) -> bool {
    forall|i: int| 0 <= i < terms.len() ==> has_text(s, #[trigger] terms[i])
}

/// A line holds every term, upper or lower case.
pub open spec fn line_matches(line: Seq<char>, terms: Seq<Seq<char>>) -> bool {
    holds_all(lowercased(line), terms)
}

/// A line that matches, on the wire; lines count from 1.
pub open spec fn match_object(number: u64, line: Seq<char>) -> JsonView {
    JsonView::Object(
        Map::empty().insert("line"@, JsonView::UInt(number)).insert("text"@, JsonView::Str(line)),
    )
}

/// The lines that match, on the wire, in order.
pub open spec fn matching_lines(lines: Seq<Seq<char>>, terms: Seq<Seq<char>>) -> Seq<JsonView>
    decreases lines.len(),
{
    if lines.len() == 0 {
        Seq::empty()
    } else {
        let before = matching_lines(lines.drop_last(), terms);
        if line_matches(lines.last(), terms) {
            before.push(match_object(lines.len() as u64, lines.last()))
        } else {
            before
        }
    }
}

/// A blob is binary: it holds a zero byte, or is no UTF-8.
pub open spec fn is_binary(bytes: Seq<u8>) -> bool {
    bytes.contains(0u8) || !valid_utf8(bytes)
}

/// What a grep finds in a blob. Binary blobs are passed over.
pub open spec fn grepped(bytes: Seq<u8>, terms: Seq<Seq<char>>) -> Seq<JsonView> {
    if is_binary(bytes) {
        Seq::empty()
    } else {
        matching_lines(lines_of(decode_utf8(bytes)), terms)
    }
}

impl Filter {
    /// The search looks for a path, given in lower case.
    pub fn wants_path(&self, path: &str) -> (r: bool)
        ensures
            r == path_wanted(self@, path@),
    {
        if let Some(p) = &self.path {
            if !text::contains(path, p.as_str()) {
                return false;
            }
        }
        if let Some(x) = &self.extension {
            let suffix = ".".to_owned().concat(x.as_str());
            if !text::ends_with(path, suffix.as_str()) {
                return false;
            }
        }
        true
    }

    /// The search looks for an entry of a tree.
    pub fn wants(&self, e: &TreeEntry) -> (r: bool)
        ensures
            r == wanted(self@, e@),
    {
        !e.is_dir && self.wants_path(text::lowercase(e.path.as_str()).as_str())
    }

    /// The files among a tree's entries that the search looks for.
    pub fn pick(&self, entries: Vec<TreeEntry>) -> (r: VecDeque<TreeEntry>)
        ensures
            entries_view(r@) == candidates(self@, entries_view(entries@)),
    {
        let ghost all = entries_view(entries@);
        let ghost pred = |e: EntryView| wanted(self@, e);
        let mut found: VecDeque<TreeEntry> = VecDeque::new();
        assert(entries_view(found@) =~= all.take(0).filter(pred));
        for e in it: entries
            invariant
                it.seq() == entries@,
                all == entries_view(entries@),
                pred == (|e: EntryView| wanted(self@, e)),
                entries_view(found@) == all.take(it.index() as int).filter(pred),
        {
            let ghost i = it.index() as int;
            let ghost before = entries_view(found@);
            proof {
                assert(all.take(i + 1) =~= all.take(i).push(e@));
                all.take(i).lemma_filter_push(e@, pred);
            }
            if self.wants(&e) {
                let ghost seen = e@;
                found.push_back(e);
                assert(entries_view(found@) =~= before.push(seen));
            }
        }
        assert(all.take(all.len() as int) =~= all);
        found
    }

    /// A text, given in lower case, holds every term.
    pub fn holds_terms(&self, lower: &str) -> (r: bool)
        ensures
            r == holds_all(lower@, self@.terms),
    {
        let mut i: usize = 0;
        while i < self.terms.len()
            invariant
                i <= self.terms@.len(),
                forall|k: int| 0 <= k < i ==> has_text(lower@, #[trigger] self@.terms[k]),
            decreases self.terms@.len() - i,
        {
            assert(self@.terms[i as int] == self.terms@[i as int]@);
            if !text::contains(lower, self.terms[i].as_str()) {
                return false;
            }
            i += 1;
        }
        true
    }

    /// What a grep finds in a blob, on the wire.
    pub fn grep(&self, bytes: &Vec<u8>) -> (r: Vec<Value>)
        ensures
            json_all(r@) == grepped(bytes@, self@.terms),
    {
        let mut found: Vec<Value> = Vec::new();
        assert(json_all(found@) =~= Seq::empty());
        if holds_zero(bytes) {
            return found;
        }
        let content = match text::from_utf8(bytes.as_slice()) {
            Some(s) => s,
            None => {
                return found;
            },
        };
        let lines = text::lines(content);
        let ghost all = lines_of(content@);
        let mut i: usize = 0;
        while i < lines.len()
            invariant
                i <= lines@.len(),
                all == text::texts(lines@),
                json_all(found@) == matching_lines(all.take(i as int), self@.terms),
            decreases lines@.len() - i,
        {
            let ghost before = json_all(found@);
            let line = lines[i].as_str();
            i += 1;
            proof {
                assert(all.take(i as int).drop_last() =~= all.take(i - 1));
                assert(all.take(i as int).last() == line@);
            }
            if self.holds_terms(text::lowercase(line).as_str()) {
                let mut v = json::object();
                json::set(&mut v, "line", json::uint(i as u64));
                json::set(&mut v, "text", json::string(line));
                found.push(v);
                assert(json_all(found@) =~= before.push(match_object(i as u64, line@)));
            }
        }
        assert(all.take(i as int) =~= all);
        found
    }
}

fn holds_zero(bytes: &Vec<u8>) -> (r: bool)
    ensures
        r == bytes@.contains(0u8),
{
    let mut i: usize = 0;
    while i < bytes.len()
        invariant
            i <= bytes@.len(),
            forall|k: int| 0 <= k < i ==> bytes@[k] != 0,
        decreases bytes@.len() - i,
    {
        if bytes[i] == 0 {
            return true;
        }
        i += 1;
    }
    false
}

}
