//! The provider's disk cache, under
//! `~/.cache/rootle/providers/rootle-bitbucket/` unless the handshake names
//! another root: which file holds what.
//!
//! Trees are immutable per commit, so tree listings go by commit and never
//! become stale. Blobs go by content id. Every path component is
//! percent-encoded: values come from API responses and are not trusted to be
//! well-formed.

use crate::text;
use crate::api::{self, BLOB_CAP};
use crate::exchange::{Ask, AskView, Effect, EffectView};
use vstd::prelude::*;
use vstd::string::StringExecFns;
use vstd::utf8::encode_utf8;

verus! {

/// One entry of a recursive listing.
#[derive(Debug, Clone)]
pub struct TreeEntry {
    pub path: String,
    pub is_dir: bool,
    /// Files: `<commit>:<path>`, the content id. Directories: the commit (they
    /// have no content of their own).
    pub sha: String,
    pub size: Option<u64>,
}

/// A [`TreeEntry`] over plain sequences.
pub struct EntryView {
    pub path: Seq<char>,
    pub is_dir: bool,
    pub sha: Seq<char>,
    pub size: Option<u64>,
}

impl View for TreeEntry {
    type V = EntryView;

    open spec fn view(&self) -> EntryView {
        EntryView { path: self.path@, is_dir: self.is_dir, sha: self.sha@, size: self.size }
    }
}

/// The entries that a vector holds, in order.
pub open spec fn entries_view(v: Seq<TreeEntry>) -> Seq<EntryView> {
    v.map_values(|e: TreeEntry| e@)
}

/// A recursive listing of a repository at one commit.
#[derive(Debug, Clone)]
pub struct Tree {
    pub entries: Vec<TreeEntry>,
    pub truncated: bool,
    pub branch: String,
}

/// A [`Tree`] over plain sequences.
pub struct TreeView {
    pub entries: Seq<EntryView>,
    pub truncated: bool,
    pub branch: Seq<char>,
}

impl View for Tree {
    type V = TreeView;

    open spec fn view(&self) -> TreeView {
        TreeView {
            entries: entries_view(self.entries@),
            truncated: self.truncated,
            branch: self.branch@,
        }
    }
}

impl Tree {
    /// The same listing once more.
    pub fn copy(&self) -> (r: Tree)
        ensures
            r@ == self@,
    {
        let mut entries: Vec<TreeEntry> = Vec::new();
        let mut i: usize = 0;
        while i < self.entries.len()
            invariant
                i <= self.entries@.len(),
                entries_view(entries@) == entries_view(self.entries@).take(i as int),
            decreases self.entries@.len() - i,
        {
            let e = &self.entries[i];
            let ghost before = entries_view(entries@);
            entries.push(
                TreeEntry {
                    path: e.path.clone(),
                    is_dir: e.is_dir,
                    sha: e.sha.clone(),
                    size: e.size,
                },
            );
            assert(entries_view(entries@) =~= before.push(e@));
            assert(entries_view(self.entries@).take(i + 1) =~= before.push(e@));
            i += 1;
        }
        let r = Tree { entries, truncated: self.truncated, branch: self.branch.clone() };
        assert(r@.entries =~= self@.entries);
        r
    }
}

/// What is remembered of a repository: its full name and default branch.
#[derive(Debug, Clone)]
pub struct RepoMeta {
    pub full_name: String,
    pub branch: String,
}

/// A [`RepoMeta`] over plain sequences.
pub struct MetaView {
    pub full_name: Seq<char>,
    pub branch: Seq<char>,
}

impl View for RepoMeta {
    type V = MetaView;

    open spec fn view(&self) -> MetaView {
        MetaView { full_name: self.full_name@, branch: self.branch@ }
    }
}

/// A file of the cache: the path components below its root.
#[derive(Debug, Clone)]
pub struct CacheFile {
    pub components: Vec<String>,
}

impl View for CacheFile {
    type V = Seq<Seq<char>>;

    open spec fn view(&self) -> Seq<Seq<char>> {
        text::texts(self.components@)
    }
}

impl CacheFile {
    /// The same file once more.
    pub fn copy(&self) -> (r: CacheFile)
        ensures
            r@ == self@,
    {
        let mut components: Vec<String> = Vec::new();
        let mut i: usize = 0;
        while i < self.components.len()
            invariant
                i <= self.components@.len(),
                text::texts(components@) == self@.take(i as int),
            decreases self.components@.len() - i,
        {
            let ghost before = text::texts(components@);
            components.push(self.components[i].clone());
            assert(text::texts(components@) =~= before.push(self.components@[i as int]@));
            assert(self@.take(i + 1) =~= before.push(self.components@[i as int]@));
            i += 1;
        }
        let r = CacheFile { components };
        assert(r@ =~= self@);
        r
    }
}

/// Where the cache is rooted: at a path that was named, or at these components
/// below the user's cache directory.
#[derive(Debug)]
pub enum Base {
    Named(String),
    UserCache(CacheFile),
}

/// The disk cache: the root that it was given, if any.
#[derive(Debug)]
pub struct Cache {
    pub root: Option<String>,
}

/// Bytes that stand for themselves in an encoded component.
pub open spec fn stands_for_itself(b: u8) -> bool {
    ||| 0x41 <= b <= 0x5A
    ||| 0x61 <= b <= 0x7A
    ||| 0x30 <= b <= 0x39
    ||| b == 0x2D
    ||| b == 0x5F
}

/// An upper-case hexadecimal digit.
pub open spec fn hex_upper(n: u8) -> char {
    if n < 10 {
        (0x30 + n) as u8 as char
    } else {
        (0x37 + n) as u8 as char
    }
}

/// One byte, encoded: itself, or a percent sign and two hexadecimal digits.
pub open spec fn encoded_byte(b: u8) -> Seq<char> {
    if stands_for_itself(b) {
        seq![b as char]
    } else {
        seq!['%', hex_upper((b / 16) as u8), hex_upper((b % 16) as u8)]
    }
}

/// Bytes, encoded one after another.
pub open spec fn encoded_bytes(bytes: Seq<u8>) -> Seq<char>
    decreases bytes.len(),
{
    if bytes.len() == 0 {
        Seq::empty()
    } else {
        encoded_byte(bytes[0]) + encoded_bytes(bytes.drop_first())
    }
}

/// A text as a path component: its UTF-8 bytes, encoded.
pub open spec fn encoded(s: Seq<char>) -> Seq<char> {
    encoded_bytes(encode_utf8(s))
}

fn hex_char(n: u8) -> (r: char)
    requires
        n < 16,
    ensures
        r == hex_upper(n),
{
    if n < 10 {
        (0x30 + n) as char
    } else {
        (0x37 + n) as char
    }
}

/// Percent-encodes anything outside `[A-Za-z0-9_-]`: separators, `..` and NUL
/// can never become path structure.
pub fn encode_component(s: &str) -> (r: String)
    ensures
        r@ == encoded(s@),
{
    let bytes = s.as_bytes();
    let ghost all = encode_utf8(s@);
    let mut out = String::new();
    let mut i: usize = 0;
    assert(all.skip(0) =~= all);
    assert(out@ + encoded_bytes(all) =~= encoded_bytes(all));
    while i < bytes.len()
        invariant
            i <= bytes@.len(),
            bytes@ == all,
            out@ + encoded_bytes(all.skip(i as int)) == encoded_bytes(all),
        decreases bytes@.len() - i,
    {
        let b: u8 = bytes[i];
        let ghost before = out@;
        if (0x41 <= b && b <= 0x5A) || (0x61 <= b && b <= 0x7A) || (0x30 <= b && b <= 0x39) || b
            == 0x2D || b == 0x5F {
            out.push(b as char);
        } else {
            out.push('%');
            out.push(hex_char(b / 16));
            out.push(hex_char(b % 16));
        }
        proof {
            assert(out@ =~= before + encoded_byte(b));
            assert(all.skip(i as int).drop_first() =~= all.skip(i + 1));
            assert(out@ + encoded_bytes(all.skip(i + 1)) =~= before + (encoded_byte(b)
                + encoded_bytes(all.skip(i + 1))));
        }
        i += 1;
    }
    assert(all.skip(i as int) =~= Seq::empty());
    assert(out@ + encoded_bytes(all.skip(i as int)) =~= out@);
    out
}

/// Characters that an encoded component may hold.
pub open spec fn component_char(c: char) -> bool {
    ||| 'A' <= c <= 'Z'
    ||| 'a' <= c <= 'z'
    ||| '0' <= c <= '9'
    ||| c == '-'
    ||| c == '_'
    ||| c == '%'
}

proof fn encoded_byte_is_safe(b: u8)
    ensures
        forall|i: int| 0 <= i < encoded_byte(b).len() ==> component_char(#[trigger] encoded_byte(b)[i]),
{
    assert(b / 16 < 16 && b % 16 < 16);
}

proof fn encoded_bytes_are_safe(bytes: Seq<u8>)
    ensures
        forall|i: int|
            0 <= i < encoded_bytes(bytes).len() ==> component_char(
                #[trigger] encoded_bytes(bytes)[i],
            ),
    decreases bytes.len(),
{
    if bytes.len() > 0 {
        encoded_byte_is_safe(bytes[0]);
        encoded_bytes_are_safe(bytes.drop_first());
        let head = encoded_byte(bytes[0]);
        let tail = encoded_bytes(bytes.drop_first());
        assert forall|i: int| 0 <= i < encoded_bytes(bytes).len() implies component_char(
            #[trigger] encoded_bytes(bytes)[i],
        ) by {
            if i < head.len() {
                assert(encoded_bytes(bytes)[i] == head[i]);
            } else {
                assert(encoded_bytes(bytes)[i] == tail[i - head.len()]);
            }
        }
    }
}

/// An encoded component holds letters, digits, `-`, `_` and `%` only: no
/// separator, no dot and no NUL, whatever was encoded.
pub proof fn encoding_is_structure_safe(s: Seq<char>)
    ensures
        forall|i: int| 0 <= i < encoded(s).len() ==> component_char(#[trigger] encoded(s)[i]),
{
    encoded_bytes_are_safe(encode_utf8(s));
}

proof fn encoded_bytes_determine(a: Seq<u8>, b: Seq<u8>)
    requires
        encoded_bytes(a) == encoded_bytes(b),
    ensures
        a == b,
    decreases a.len(),
{
    let ea = encoded_bytes(a);
    let eb = encoded_bytes(b);
    if a.len() == 0 {
        if b.len() > 0 {
            assert(eb.len() > 0);
        }
        assert(a =~= b);
    } else if b.len() == 0 {
        assert(ea.len() > 0);
    } else {
        let (x, y) = (a[0], b[0]);
        let (hx, hy) = (encoded_byte(x), encoded_byte(y));
        let (ta, tb) = (encoded_bytes(a.drop_first()), encoded_bytes(b.drop_first()));
        assert(ea == hx + ta);
        assert(eb == hy + tb);
        assert(ea[0] == hx[0] && eb[0] == hy[0]);
        if stands_for_itself(x) {
            assert(hx[0] == x as char);
            assert(hx[0] != '%');
            assert(stands_for_itself(y));
            assert(x == y);
        } else {
            assert(hx[0] == '%');
            assert(!stands_for_itself(y));
            assert(ea[1] == hx[1] && eb[1] == hy[1]);
            assert(ea[2] == hx[2] && eb[2] == hy[2]);
            assert(x / 16 < 16 && x % 16 < 16 && y / 16 < 16 && y % 16 < 16);
            assert(x / 16 == y / 16);
            assert(x % 16 == y % 16);
            assert(x == y);
        }
        assert(hx == hy);
        assert(ta =~= ea.skip(hx.len() as int));
        assert(tb =~= eb.skip(hy.len() as int));
        encoded_bytes_determine(a.drop_first(), b.drop_first());
        assert(a =~= seq![x] + a.drop_first());
        assert(b =~= seq![y] + b.drop_first());
    }
}

/// Different texts have different encodings.
pub proof fn encoding_is_injective(a: Seq<char>, b: Seq<char>)
    requires
        encoded(a) == encoded(b),
    ensures
        a == b,
{
    encoded_bytes_determine(encode_utf8(a), encode_utf8(b));
    vstd::utf8::encode_utf8_decode_utf8(a);
    vstd::utf8::encode_utf8_decode_utf8(b);
}

/// The file with what is remembered of a repository.
pub open spec fn meta_file(full_name: Seq<char>) -> Seq<Seq<char>> {
    seq!["repos"@, encoded(full_name) + ".json"@]
}

/// The file with a repository's listing at a commit.
pub open spec fn tree_file(full_name: Seq<char>, commit: Seq<char>) -> Seq<Seq<char>> {
    seq!["trees"@, encoded(full_name), encoded(commit) + ".json"@]
}

/// The file with a blob's bytes.
pub open spec fn blob_file(full_name: Seq<char>, commit: Seq<char>, path: Seq<char>) -> Seq<
    Seq<char>,
> {
    seq!["blobs"@, encoded(full_name), encoded(commit), encoded(path)]
}

proof fn names_determine(a: Seq<char>, b: Seq<char>)
    requires
        encoded(a) + ".json"@ == encoded(b) + ".json"@,
    ensures
        a == b,
{
    let suffix = ".json"@;
    let (ea, eb) = (encoded(a), encoded(b));
    assert((ea + suffix).len() == (eb + suffix).len());
    assert(ea =~= (ea + suffix).take(ea.len() as int));
    assert(eb =~= (eb + suffix).take(eb.len() as int));
    encoding_is_injective(a, b);
}

/// Repositories are remembered in a file each.
pub proof fn metas_are_apart(a: Seq<char>, b: Seq<char>)
    requires
        meta_file(a) == meta_file(b),
    ensures
        a == b,
{
    assert(meta_file(a)[1] == meta_file(b)[1]);
    names_determine(a, b);
}

/// Every repository has a file for each commit's listing.
pub proof fn trees_are_apart(
    full_name: Seq<char>,
    commit: Seq<char>,
    other_name: Seq<char>,
    other_commit: Seq<char>,
)
    requires
        tree_file(full_name, commit) == tree_file(other_name, other_commit),
    ensures
        full_name == other_name,
        commit == other_commit,
{
    let (f, g) = (tree_file(full_name, commit), tree_file(other_name, other_commit));
    assert(f[1] == g[1] && f[2] == g[2]);
    encoding_is_injective(full_name, other_name);
    names_determine(commit, other_commit);
}

/// Every repository has a file for each path's blob at each commit.
pub proof fn blobs_are_apart(
    full_name: Seq<char>,
    commit: Seq<char>,
    path: Seq<char>,
    other_name: Seq<char>,
    other_commit: Seq<char>,
    other_path: Seq<char>,
)
    requires
        blob_file(full_name, commit, path) == blob_file(other_name, other_commit, other_path),
    ensures
        full_name == other_name,
        commit == other_commit,
        path == other_path,
{
    let f = blob_file(full_name, commit, path);
    let g = blob_file(other_name, other_commit, other_path);
    assert(f[1] == g[1] && f[2] == g[2] && f[3] == g[3]);
    encoding_is_injective(full_name, other_name);
    encoding_is_injective(commit, other_commit);
    encoding_is_injective(path, other_path);
}

/// What is remembered of repositories, listings and blobs never share a file.
pub proof fn kinds_are_apart(
    meta_name: Seq<char>,
    tree_name: Seq<char>,
    tree_commit: Seq<char>,
    blob_name: Seq<char>,
    blob_commit: Seq<char>,
    blob_path: Seq<char>,
)
    ensures
        meta_file(meta_name) != tree_file(tree_name, tree_commit),
        tree_file(tree_name, tree_commit) != blob_file(blob_name, blob_commit, blob_path),
        blob_file(blob_name, blob_commit, blob_path) != meta_file(meta_name),
{
    assert(meta_file(meta_name).len() == 2);
    assert(tree_file(tree_name, tree_commit).len() == 3);
    assert(blob_file(blob_name, blob_commit, blob_path).len() == 4);
}

fn json_name(s: &str) -> (r: String)
    ensures
        r@ == encoded(s@) + ".json"@,
{
    let mut name = encode_component(s);
    name.append(".json");
    name
}

fn file_of_meta(full_name: &str) -> (r: CacheFile)
    ensures
        r@ == meta_file(full_name@),
{
    let r = CacheFile { components: vec!["repos".to_owned(), json_name(full_name)] };
    assert(r@ =~= meta_file(full_name@));
    r
}

fn file_of_tree(full_name: &str, commit: &str) -> (r: CacheFile)
    ensures
        r@ == tree_file(full_name@, commit@),
{
    let r = CacheFile {
        components: vec!["trees".to_owned(), encode_component(full_name), json_name(commit)],
    };
    assert(r@ =~= tree_file(full_name@, commit@));
    r
}

fn file_of_blob(full_name: &str, commit: &str, path: &str) -> (r: CacheFile)
    ensures
        r@ == blob_file(full_name@, commit@, path@),
{
    let r = CacheFile {
        components: vec![
            "blobs".to_owned(),
            encode_component(full_name),
            encode_component(commit),
            encode_component(path),
        ],
    };
    assert(r@ =~= blob_file(full_name@, commit@, path@));
    r
}

impl Cache {
    /// A cache at a root, or where the provider's usually is.
    pub fn new(root: Option<String>) -> (r: Cache)
        ensures
            r.root == root,
    {
        Cache { root }
    }

    /// The root that the cache was given, if any.
    pub fn root_as_str(&self) -> (r: Option<String>)
        ensures
            r == self.root,
    {
        match &self.root {
            Some(s) => Some(s.clone()),
            None => None,
        }
    }

    /// Where the cache's files are: at the root that it was given, otherwise
    /// in the provider's part of the user's cache directory.
    pub fn base(&self) -> (r: Base)
        ensures
            match self.root {
                Some(root) => r == Base::Named(root),
                None => r matches Base::UserCache(below) && below@ == seq![
                    "rootle"@,
                    "providers"@,
                    "rootle-bitbucket"@,
                ],
            },
    {
        match &self.root {
            Some(s) => Base::Named(s.clone()),
            None => {
                let below = CacheFile {
                    components: vec![
                        "rootle".to_owned(),
                        "providers".to_owned(),
                        "rootle-bitbucket".to_owned(),
                    ],
                };
                assert(below@ =~= seq!["rootle"@, "providers"@, "rootle-bitbucket"@]);
                Base::UserCache(below)
            },
        }
    }

    /// Asks for what is remembered of a repository, by full name.
    pub fn repo_meta(&self, full_name: &str) -> (r: Ask)
        ensures
            r@ == AskView::Meta(meta_file(full_name@)),
    {
        Ask::Meta(file_of_meta(full_name))
    }

    /// Remembers a repository, under the full name it goes by.
    pub fn store_repo_meta(&self, meta: &RepoMeta) -> (r: Effect)
        ensures
            r@ == EffectView::StoreMeta(meta_file(meta.full_name@), meta@),
    {
        Effect::StoreMeta(
            file_of_meta(meta.full_name.as_str()),
            RepoMeta { full_name: meta.full_name.clone(), branch: meta.branch.clone() },
        )
    }

    /// Forgets a repository.
    pub fn drop_repo_meta(&self, full_name: &str) -> (r: Effect)
        ensures
            r@ == EffectView::DropMeta(meta_file(full_name@)),
    {
        Effect::DropMeta(file_of_meta(full_name))
    }

    /// Asks for a repository's listing at a commit (immutable, so never
    /// invalidated).
    pub fn tree(&self, full_name: &str, commit: &str) -> (r: Ask)
        ensures
            r@ == AskView::Tree(tree_file(full_name@, commit@)),
    {
        Ask::Tree(file_of_tree(full_name, commit))
    }

    /// Keeps a repository's listing at a commit.
    pub fn store_tree(&self, full_name: &str, commit: &str, tree: Tree) -> (r: Effect)
        ensures
            r@ == EffectView::StoreTree(tree_file(full_name@, commit@), tree@),
    {
        Effect::StoreTree(file_of_tree(full_name, commit), tree)
    }

    /// Asks for a blob's bytes by content id (immutable). Nothing is kept under
    /// an id outside the grammar.
    pub fn blob(&self, full_name: &str, sha: &str) -> (r: Option<Ask>)
        ensures
            match api::parted(sha@) {
                Some((commit, path)) => r matches Some(ask) && ask@ == AskView::Blob(
                    blob_file(full_name@, commit, path),
                ),
                None => r is None,
            },
    {
        match text::split_once(sha, ':') {
            Some((commit, path)) => Some(
                Ask::Blob(file_of_blob(full_name, commit.as_str(), path.as_str())),
            ),
            None => None,
        }
    }

    /// Keeps a blob's bytes, unless they are over the preview cap or the id is
    /// outside the grammar.
    pub fn store_blob(&self, full_name: &str, sha: &str, bytes: Vec<u8>) -> (r: Option<Effect>)
        ensures
            match api::parted(sha@) {
                Some((commit, path)) if bytes@.len() <= BLOB_CAP => r matches Some(effect)
                    && effect@ == EffectView::StoreBlob(
                    blob_file(full_name@, commit, path),
                    bytes@,
                ),
                _ => r is None,
            },
    {
        if bytes.len() > BLOB_CAP {
            return None;
        }
        match text::split_once(sha, ':') {
            Some((commit, path)) => Some(
                Effect::StoreBlob(file_of_blob(full_name, commit.as_str(), path.as_str()), bytes),
            ),
            None => None,
        }
    }
}

}
