//! The tree: a ref or the default branch to its commit, the commit-keyed
//! listing or the walk that makes it, and revalidation of a repository that
//! has moved (`repo/tree`). Every revision method shares the resolution.

use super::Handler;
use crate::api::{
    branch_path, full_url, is_missing, missing, missing_error, repo_path, tag_path, ApiError,
    Bitbucket, ErrorView, Paged, Repo, SrcEntry,
};
use crate::cache::{
    entries_view, meta_file, tree_file, Cache, EntryView, MetaView, RepoMeta, Tree, TreeEntry,
    TreeView,
};
use crate::exchange::{effects, note, Answer, Ask, AskView, Effect, EffectView, Step, StepView};
use crate::json::{self, json, json_all, JsonView};
use crate::text::{self, string_opt};
use crate::walk::{
    sound, walk_fed, walk_from_root, walks_stay_sound, ListingView, TreeWalk, WalkView,
};
use serde_json::Value;
use vstd::prelude::*;
use vstd::string::StringExecFns;

verus! {

/// A text that is a full commit hash: forty hexadecimal digits.
pub open spec fn names_commit(r: Seq<char>) -> bool {
    r.len() == 40 && forall|i: int| 0 <= i < r.len() ==> text::hex_digit(#[trigger] r[i])
}

fn is_commit(r: &str) -> (b: bool)
    ensures
        b == names_commit(r@),
{
    let chars = text::chars_of(r);
    if chars.len() != 40 {
        return false;
    }
    let mut i: usize = 0;
    while i < chars.len()
        invariant
            i <= chars@.len() == 40,
            chars@ == r@,
            forall|k: int| 0 <= k < i ==> text::hex_digit(#[trigger] chars@[k]),
        decreases chars@.len() - i,
    {
        let c = chars[i];
        if !(('0' <= c && c <= '9') || ('a' <= c && c <= 'f') || ('A' <= c && c <= 'F')) {
            assert(!text::hex_digit(r@[i as int]));
            return false;
        }
        i += 1;
    }
    true
}

/// A revision on its way to a commit. Without a ref: what is remembered of the
/// repository, otherwise the repository itself, names the default branch, and
/// its head is the commit. With a ref: a branch of that name, otherwise a tag.
pub enum Pin {
    Meta { full_name: String },
    Repo { full_name: String },
    Head { full_name: String, branch: String },
    Branch { full_name: String, name: String },
    Tag { full_name: String, name: String },
}

/// A [`Pin`] over plain sequences.
pub enum PinView {
    Meta { full_name: Seq<char> },
    Repo { full_name: Seq<char> },
    Head { full_name: Seq<char>, branch: Seq<char> },
    Branch { full_name: Seq<char>, name: Seq<char> },
    Tag { full_name: Seq<char>, name: Seq<char> },
}

impl View for Pin {
    type V = PinView;

    open spec fn view(&self) -> PinView {
        match self {
            Pin::Meta { full_name } => PinView::Meta { full_name: full_name@ },
            Pin::Repo { full_name } => PinView::Repo { full_name: full_name@ },
            Pin::Head { full_name, branch } => PinView::Head {
                full_name: full_name@,
                branch: branch@,
            },
            Pin::Branch { full_name, name } => PinView::Branch {
                full_name: full_name@,
                name: name@,
            },
            Pin::Tag { full_name, name } => PinView::Tag { full_name: full_name@, name: name@ },
        }
    }
}

/// A revision: the branch or ref that was asked for, and its commit.
#[derive(Debug)]
pub struct Pinned {
    pub label: String,
    pub commit: String,
}

/// A [`Pinned`] over plain sequences.
pub struct PinnedView {
    pub label: Seq<char>,
    pub commit: Seq<char>,
}

impl View for Pinned {
    type V = PinnedView;

    open spec fn view(&self) -> PinnedView {
        PinnedView { label: self.label@, commit: self.commit@ }
    }
}

/// What is said of a repository that there is not.
pub open spec fn no_such_repo(full_name: Seq<char>) -> ErrorView {
    missing("no such repo "@ + text::in_quotes(full_name))
}

/// What is said of a ref that there is not.
pub open spec fn no_such_ref(name: Seq<char>) -> ErrorView {
    missing("no such ref "@ + text::in_quotes(name))
}

/// What is remembered of a repository.
pub open spec fn meta_of(repo: Repo) -> MetaView {
    MetaView { full_name: repo.full_name@, branch: repo.branch_name() }
}

/// A repository is remembered.
pub open spec fn remembered(repo: Repo) -> EffectView {
    EffectView::StoreMeta(meta_file(repo.full_name@), meta_of(repo))
}

/// A revision is to be resolved. A full commit hash is taken at face value.
pub open spec fn pin_start(full_name: Seq<char>, ref_: Option<Seq<char>>) -> StepView<
    PinView,
    PinnedView,
> {
    match ref_ {
        None => StepView::More(PinView::Meta { full_name }),
        Some(r) => if names_commit(r) {
            StepView::Done(PinnedView { label: r, commit: r })
        } else {
            StepView::More(PinView::Branch { full_name, name: r })
        },
    }
}

/// What a resolution asks.
pub open spec fn pin_ask(p: PinView, instance: Seq<char>) -> AskView {
    match p {
        PinView::Meta { full_name } => AskView::Meta(meta_file(full_name)),
        PinView::Repo { full_name } => AskView::Repo(full_url(instance, repo_path(full_name))),
        PinView::Head { full_name, branch } => AskView::Ref(
            full_url(instance, branch_path(full_name, branch)),
        ),
        PinView::Branch { full_name, name } => AskView::Ref(
            full_url(instance, branch_path(full_name, name)),
        ),
        PinView::Tag { full_name, name } => AskView::Ref(
            full_url(instance, tag_path(full_name, name)),
        ),
    }
}

/// A resolution goes on with an answer. One that was not asked for changes
/// nothing.
pub open spec fn pin_fed(p: PinView, answer: Answer) -> StepView<PinView, PinnedView> {
    match (p, answer) {
        (PinView::Meta { full_name }, Answer::Meta(Some(m))) => StepView::More(
            PinView::Head { full_name, branch: m.branch@ },
        ),
        (PinView::Meta { full_name }, Answer::Meta(None)) => StepView::More(
            PinView::Repo { full_name },
        ),
        (PinView::Repo { full_name }, Answer::Repo(Ok(repo))) => StepView::More(
            PinView::Head { full_name, branch: repo.branch_name() },
        ),
        (PinView::Repo { full_name }, Answer::Repo(Err(_))) => StepView::Failed(
            no_such_repo(full_name),
        ),
        (PinView::Head { branch, .. }, Answer::Ref(Ok(r))) => StepView::Done(
            PinnedView { label: branch, commit: r.target.hash@ },
        ),
        (PinView::Head { .. }, Answer::Ref(Err(e))) => StepView::Failed(e@),
        (PinView::Branch { name, .. }, Answer::Ref(Ok(r))) => StepView::Done(
            PinnedView { label: name, commit: r.target.hash@ },
        ),
        (PinView::Branch { full_name, name }, Answer::Ref(Err(e))) => if is_missing(e@) {
            StepView::More(PinView::Tag { full_name, name })
        } else {
            StepView::Failed(e@)
        },
        (PinView::Tag { name, .. }, Answer::Ref(Ok(r))) => StepView::Done(
            PinnedView { label: name, commit: r.target.hash@ },
        ),
        (PinView::Tag { name, .. }, Answer::Ref(Err(e))) => StepView::Failed(
            if is_missing(e@) {
                no_such_ref(name)
            } else {
                e@
            },
        ),
        _ => StepView::More(p),
    }
}

/// What a resolution does with an answer: a repository that was fetched is
/// remembered.
pub open spec fn pin_effects(p: PinView, answer: Answer) -> Seq<EffectView> {
    match (p, answer) {
        (PinView::Repo { .. }, Answer::Repo(Ok(repo))) => seq![remembered(repo)],
        _ => Seq::empty(),
    }
}

pub(crate) fn remember(repo: &Repo, cache: &Cache, fx: &mut Vec<Effect>) -> (r: RepoMeta)
    ensures
        r@ == meta_of(*repo),
        effects(final(fx)@) == effects(old(fx)@) + seq![remembered(*repo)],
{
    let meta = RepoMeta { full_name: repo.full_name.clone(), branch: repo.branch() };
    let ghost before = effects(fx@);
    note(fx, cache.store_repo_meta(&meta));
    assert(effects(fx@) =~= before + seq![remembered(*repo)]);
    meta
}

impl Pin {
    /// What the resolution waits for.
    pub fn ask(&self, bb: &Bitbucket, cache: &Cache) -> (r: Ask)
        ensures
            r@ == pin_ask(self@, bb.instance@),
    {
        match self {
            Pin::Meta { full_name } => cache.repo_meta(full_name.as_str()),
            Pin::Repo { full_name } => bb.repo(full_name.as_str()),
            Pin::Head { full_name, branch } => bb.branch_head(full_name.as_str(), branch.as_str()),
            Pin::Branch { full_name, name } => bb.branch_head(full_name.as_str(), name.as_str()),
            Pin::Tag { full_name, name } => bb.tag_head(full_name.as_str(), name.as_str()),
        }
    }

    /// Goes on with an answer.
    pub fn feed(self, answer: Answer, cache: &Cache, fx: &mut Vec<Effect>) -> (r: Step<Pin, Pinned>)
        ensures
            r@ == pin_fed(self@, answer),
            effects(final(fx)@) == effects(old(fx)@) + pin_effects(self@, answer),
    {
        let ghost before = effects(fx@);
        assert(before + Seq::<EffectView>::empty() =~= before);
        match (self, answer) {
            (Pin::Meta { full_name }, Answer::Meta(Some(m))) => Step::More(
                Pin::Head { full_name, branch: m.branch },
            ),
            (Pin::Meta { full_name }, Answer::Meta(None)) => Step::More(Pin::Repo { full_name }),
            (Pin::Repo { full_name }, Answer::Repo(Ok(repo))) => {
                let meta = remember(&repo, cache, fx);
                Step::More(Pin::Head { full_name, branch: meta.branch })
            },
            (Pin::Repo { full_name }, Answer::Repo(Err(_))) => Step::Failed(
                missing_error(
                    "no such repo ".to_owned().concat(text::quoted(full_name.as_str()).as_str()),
                ),
            ),
            (Pin::Head { branch, .. }, Answer::Ref(Ok(r))) => Step::Done(
                Pinned { label: branch, commit: r.target.hash },
            ),
            (Pin::Head { .. }, Answer::Ref(Err(e))) => Step::Failed(e),
            (Pin::Branch { name, .. }, Answer::Ref(Ok(r))) => Step::Done(
                Pinned { label: name, commit: r.target.hash },
            ),
            (Pin::Branch { full_name, name }, Answer::Ref(Err(e))) => if e.is_missing() {
                Step::More(Pin::Tag { full_name, name })
            } else {
                Step::Failed(e)
            },
            (Pin::Tag { name, .. }, Answer::Ref(Ok(r))) => Step::Done(
                Pinned { label: name, commit: r.target.hash },
            ),
            (Pin::Tag { name, .. }, Answer::Ref(Err(e))) => if e.is_missing() {
                Step::Failed(
                    missing_error(
                        "no such ref ".to_owned().concat(text::quoted(name.as_str()).as_str()),
                    ),
                )
            } else {
                Step::Failed(e)
            },
            (pin, _) => Step::More(pin),
        }
    }
}

/// A tree on its way: the revision is resolved, the listing of its commit is
/// looked up, and where there is none the directories are walked. The head is
/// resolved on every call; only what goes by commit is served from the cache.
pub enum TreeAt {
    Resolve { full_name: String, pin: Pin },
    Cached { full_name: String, pinned: Pinned },
    Walk { pinned: Pinned, walk: TreeWalk },
}

/// A [`TreeAt`] over plain sequences.
pub enum TreeAtView {
    Resolve { full_name: Seq<char>, pin: PinView },
    Cached { full_name: Seq<char>, pinned: PinnedView },
    Walk { pinned: PinnedView, walk: WalkView },
}

impl View for TreeAt {
    type V = TreeAtView;

    open spec fn view(&self) -> TreeAtView {
        match self {
            TreeAt::Resolve { full_name, pin } => TreeAtView::Resolve {
                full_name: full_name@,
                pin: pin@,
            },
            TreeAt::Cached { full_name, pinned } => TreeAtView::Cached {
                full_name: full_name@,
                pinned: pinned@,
            },
            TreeAt::Walk { pinned, walk } => TreeAtView::Walk { pinned: pinned@, walk: walk@ },
        }
    }
}

/// A tree and the branch or ref that it was asked for by.
#[derive(Debug)]
pub struct Served {
    pub label: String,
    pub tree: Tree,
}

/// A [`Served`] over plain sequences.
pub struct ServedView {
    pub label: Seq<char>,
    pub tree: TreeView,
}

impl View for Served {
    type V = ServedView;

    open spec fn view(&self) -> ServedView {
        ServedView { label: self.label@, tree: self.tree@ }
    }
}

/// The revision is resolved, or on its way.
pub open spec fn resolved(full_name: Seq<char>, s: StepView<PinView, PinnedView>) -> StepView<
    TreeAtView,
    ServedView,
> {
    match s {
        StepView::More(pin) => StepView::More(TreeAtView::Resolve { full_name, pin }),
        StepView::Done(pinned) => StepView::More(TreeAtView::Cached { full_name, pinned }),
        StepView::Failed(e) => StepView::Failed(e),
    }
}

/// A tree is to be served at the default branch's head.
pub open spec fn head_tree(full_name: Seq<char>) -> TreeAtView {
    TreeAtView::Resolve { full_name, pin: PinView::Meta { full_name } }
}

/// A tree is to be served at a ref, or at the default branch's head.
pub open spec fn tree_start(full_name: Seq<char>, ref_: Option<Seq<char>>) -> StepView<
    TreeAtView,
    ServedView,
> {
    resolved(full_name, pin_start(full_name, ref_))
}

/// What a tree on its way asks.
pub open spec fn tree_ask(t: TreeAtView, instance: Seq<char>) -> AskView {
    match t {
        TreeAtView::Resolve { pin, .. } => pin_ask(pin, instance),
        TreeAtView::Cached { full_name, pinned } => AskView::Tree(
            tree_file(full_name, pinned.commit),
        ),
        TreeAtView::Walk { walk, .. } => AskView::Entries(full_url(instance, walk.dir.next)),
    }
}

/// The listing that a walk arrived at, as the tree of a revision.
pub open spec fn listed_tree(pinned: PinnedView, listing: ListingView) -> TreeView {
    TreeView { entries: listing.entries, truncated: listing.truncated, branch: pinned.label }
}

/// A tree goes on with an answer. One that was not asked for changes nothing.
pub open spec fn tree_fed(t: TreeAtView, answer: Answer) -> StepView<TreeAtView, ServedView> {
    match (t, answer) {
        (TreeAtView::Resolve { full_name, pin }, _) => resolved(full_name, pin_fed(pin, answer)),
        (TreeAtView::Cached { pinned, .. }, Answer::Tree(Some(tree))) => StepView::Done(
            ServedView { label: pinned.label, tree: tree@ },
        ),
        (TreeAtView::Cached { full_name, pinned }, Answer::Tree(None)) => StepView::More(
            TreeAtView::Walk { pinned, walk: walk_from_root(full_name, pinned.commit) },
        ),
        (TreeAtView::Walk { pinned, walk }, Answer::Entries(Ok(page))) => match walk_fed(
            walk,
            page.values@,
            string_opt(page.next),
        ) {
            StepView::More(walk) => StepView::More(TreeAtView::Walk { pinned, walk }),
            StepView::Done(listing) => StepView::Done(
                ServedView { label: pinned.label, tree: listed_tree(pinned, listing) },
            ),
            StepView::Failed(e) => StepView::Failed(e),
        },
        (TreeAtView::Walk { .. }, Answer::Entries(Err(e))) => StepView::Failed(e@),
        _ => StepView::More(t),
    }
}

/// What a tree on its way does with an answer: a listing that a walk arrived at
/// is kept under its commit.
pub open spec fn tree_effects(t: TreeAtView, answer: Answer) -> Seq<EffectView> {
    match (t, answer) {
        (TreeAtView::Resolve { pin, .. }, _) => pin_effects(pin, answer),
        (TreeAtView::Walk { pinned, walk }, Answer::Entries(Ok(page))) => match walk_fed(
            walk,
            page.values@,
            string_opt(page.next),
        ) {
            StepView::Done(listing) => seq![
                EffectView::StoreTree(
                    tree_file(walk.full_name, walk.commit),
                    listed_tree(pinned, listing),
                ),
            ],
            _ => Seq::empty(),
        },
        _ => Seq::empty(),
    }
}

impl TreeAt {
    fn resolved(full_name: String, s: Step<Pin, Pinned>) -> (r: Step<TreeAt, Served>)
        ensures
            r@ == resolved(full_name@, s@),
    {
        match s {
            Step::More(pin) => Step::More(TreeAt::Resolve { full_name, pin }),
            Step::Done(pinned) => Step::More(TreeAt::Cached { full_name, pinned }),
            Step::Failed(e) => Step::Failed(e),
        }
    }

    /// What the tree waits for.
    pub fn ask(&self, bb: &Bitbucket, cache: &Cache) -> (r: Ask)
        ensures
            r@ == tree_ask(self@, bb.instance@),
    {
        match self {
            TreeAt::Resolve { pin, .. } => pin.ask(bb, cache),
            TreeAt::Cached { full_name, pinned } => cache.tree(
                full_name.as_str(),
                commit_key(pinned.commit.as_str()).as_str(),
            ),
            TreeAt::Walk { walk, .. } => Ask::Entries(bb.url(walk.dir.next.as_str())),
        }
    }

    /// Goes on with an answer.
    pub fn feed(self, answer: Answer, bb: &Bitbucket, cache: &Cache, fx: &mut Vec<Effect>) -> (r:
        Step<TreeAt, Served>)
        ensures
            r@ == tree_fed(self@, answer),
            effects(final(fx)@) == effects(old(fx)@) + tree_effects(self@, answer),
    {
        let ghost before = effects(fx@);
        assert(before + Seq::<EffectView>::empty() =~= before);
        match (self, answer) {
            (TreeAt::Resolve { full_name, pin }, answer) => {
                let s = pin.feed(answer, cache, fx);
                TreeAt::resolved(full_name, s)
            },
            (TreeAt::Cached { pinned, .. }, Answer::Tree(Some(tree))) => Step::Done(
                Served { label: pinned.label, tree },
            ),
            (TreeAt::Cached { full_name, pinned }, Answer::Tree(None)) => {
                let walk = bb.walk_tree(full_name.as_str(), pinned.commit.as_str());
                Step::More(TreeAt::Walk { pinned, walk })
            },
            (TreeAt::Walk { pinned, walk }, Answer::Entries(Ok(page))) => {
                let full_name = walk.full_name.clone();
                let commit = walk.commit.clone();
                match walk.feed(page) {
                    Step::More(walk) => Step::More(TreeAt::Walk { pinned, walk }),
                    Step::Done(listing) => {
                        let tree = Tree {
                            entries: listing.entries,
                            truncated: listing.truncated,
                            branch: pinned.label.clone(),
                        };
                        let key = commit_key(commit.as_str());
                        note(fx, cache.store_tree(full_name.as_str(), key.as_str(), tree.copy()));
                        assert(effects(fx@) =~= before + seq![
                            EffectView::StoreTree(tree_file(full_name@, commit@), tree@),
                        ]);
                        Step::Done(Served { label: pinned.label, tree })
                    },
                    Step::Failed(e) => Step::Failed(e),
                }
            },
            (TreeAt::Walk { .. }, Answer::Entries(Err(e))) => Step::Failed(e),
            (at, _) => Step::More(at),
        }
    }
}

/// `repo/tree` under way. Without a ref, a 404 means that the repository moved:
/// what is remembered of it is dropped, the repository is fetched and
/// remembered anew, and the tree is served again, once.
pub enum RepoTree {
    At { full_name: String, retry: bool, at: TreeAt },
    Refresh { full_name: String },
}

/// A [`RepoTree`] over plain sequences.
pub enum RepoTreeView {
    At { full_name: Seq<char>, retry: bool, at: TreeAtView },
    Refresh { full_name: Seq<char> },
}

impl View for RepoTree {
    type V = RepoTreeView;

    open spec fn view(&self) -> RepoTreeView {
        match self {
            RepoTree::At { full_name, retry, at } => RepoTreeView::At {
                full_name: full_name@,
                retry: *retry,
                at: at@,
            },
            RepoTree::Refresh { full_name } => RepoTreeView::Refresh { full_name: full_name@ },
        }
    }
}

/// The tree is on its way, served, or to be served again.
pub open spec fn attempted(
    full_name: Seq<char>,
    retry: bool,
    s: StepView<TreeAtView, ServedView>,
) -> StepView<RepoTreeView, ServedView> {
    match s {
        StepView::More(at) => StepView::More(RepoTreeView::At { full_name, retry, at }),
        StepView::Done(served) => StepView::Done(served),
        StepView::Failed(e) => if retry && is_missing(e) {
            StepView::More(RepoTreeView::Refresh { full_name })
        } else {
            StepView::Failed(e)
        },
    }
}

/// What a failed attempt does.
pub open spec fn attempt_effects(
    full_name: Seq<char>,
    retry: bool,
    s: StepView<TreeAtView, ServedView>,
) -> Seq<EffectView> {
    match s {
        StepView::Failed(e) => if retry && is_missing(e) {
            seq![EffectView::DropMeta(meta_file(full_name))]
        } else {
            Seq::empty()
        },
        _ => Seq::empty(),
    }
}

/// `repo/tree` begins.
pub open spec fn repo_tree_start(full_name: Seq<char>, ref_: Option<Seq<char>>) -> StepView<
    RepoTreeView,
    ServedView,
> {
    attempted(full_name, ref_ is None, tree_start(full_name, ref_))
}

/// What `repo/tree` asks.
pub open spec fn repo_tree_ask(t: RepoTreeView, instance: Seq<char>) -> AskView {
    match t {
        RepoTreeView::At { at, .. } => tree_ask(at, instance),
        RepoTreeView::Refresh { full_name } => AskView::Repo(
            full_url(instance, repo_path(full_name)),
        ),
    }
}

/// `repo/tree` goes on with an answer.
pub open spec fn repo_tree_fed(t: RepoTreeView, answer: Answer) -> StepView<
    RepoTreeView,
    ServedView,
> {
    match (t, answer) {
        (RepoTreeView::At { full_name, retry, at }, _) => attempted(
            full_name,
            retry,
            tree_fed(at, answer),
        ),
        (RepoTreeView::Refresh { full_name }, Answer::Repo(Ok(_))) => StepView::More(
            RepoTreeView::At { full_name, retry: false, at: head_tree(full_name) },
        ),
        (RepoTreeView::Refresh { .. }, Answer::Repo(Err(e))) => StepView::Failed(e@),
        _ => StepView::More(t),
    }
}

/// What `repo/tree` does with an answer.
pub open spec fn repo_tree_effects(t: RepoTreeView, answer: Answer) -> Seq<EffectView> {
    match (t, answer) {
        (RepoTreeView::At { full_name, retry, at }, _) => tree_effects(at, answer)
            + attempt_effects(full_name, retry, tree_fed(at, answer)),
        (RepoTreeView::Refresh { .. }, Answer::Repo(Ok(repo))) => seq![remembered(repo)],
        _ => Seq::empty(),
    }
}

impl RepoTree {
    fn attempted(
        full_name: String,
        retry: bool,
        s: Step<TreeAt, Served>,
        cache: &Cache,
        fx: &mut Vec<Effect>,
    ) -> (r: Step<RepoTree, Served>)
        ensures
            r@ == attempted(full_name@, retry, s@),
            effects(final(fx)@) == effects(old(fx)@) + attempt_effects(full_name@, retry, s@),
    {
        let ghost before = effects(fx@);
        assert(before + Seq::<EffectView>::empty() =~= before);
        match s {
            Step::More(at) => Step::More(RepoTree::At { full_name, retry, at }),
            Step::Done(served) => Step::Done(served),
            Step::Failed(e) => if retry && e.is_missing() {
                note(fx, cache.drop_repo_meta(full_name.as_str()));
                assert(effects(fx@) =~= before + seq![
                    EffectView::DropMeta(meta_file(full_name@)),
                ]);
                Step::More(RepoTree::Refresh { full_name })
            } else {
                Step::Failed(e)
            },
        }
    }

    /// What the method waits for.
    pub fn ask(&self, bb: &Bitbucket, cache: &Cache) -> (r: Ask)
        ensures
            r@ == repo_tree_ask(self@, bb.instance@),
    {
        match self {
            RepoTree::At { at, .. } => at.ask(bb, cache),
            RepoTree::Refresh { full_name } => bb.repo(full_name.as_str()),
        }
    }

    /// Goes on with an answer.
    pub fn feed(self, answer: Answer, handler: &Handler, fx: &mut Vec<Effect>) -> (r: Step<
        RepoTree,
        Served,
    >)
        ensures
            r@ == repo_tree_fed(self@, answer),
            effects(final(fx)@) == effects(old(fx)@) + repo_tree_effects(self@, answer),
    {
        let ghost before = effects(fx@);
        assert(before + Seq::<EffectView>::empty() =~= before);
        match (self, answer) {
            (RepoTree::At { full_name, retry, at }, answer) => {
                let ghost at0 = at@;
                let ghost answer0 = answer;
                let s = at.feed(answer, &handler.bb, &handler.cache, fx);
                let r = RepoTree::attempted(full_name, retry, s, &handler.cache, fx);
                assert(effects(fx@) =~= before + (tree_effects(at0, answer0) + attempt_effects(
                    full_name@,
                    retry,
                    tree_fed(at0, answer0),
                )));
                r
            },
            (RepoTree::Refresh { full_name }, Answer::Repo(Ok(repo))) => {
                remember(&repo, &handler.cache, fx);
                let at = handler.tree_at_commit(full_name.as_str());
                Step::More(RepoTree::At { full_name, retry: false, at })
            },
            (RepoTree::Refresh { .. }, Answer::Repo(Err(e))) => Step::Failed(e),
            (tree, _) => Step::More(tree),
        }
    }
}

/// One entry on the wire.
pub open spec fn entry_object(e: EntryView) -> JsonView {
    JsonView::Object(
        Map::empty().insert("path"@, JsonView::Str(e.path)).insert(
            "type"@,
            JsonView::Str(
                if e.is_dir {
                    "tree"@
                } else {
                    "blob"@
                },
            ),
        ).insert("sha"@, JsonView::Str(e.sha)).insert(
            "size"@,
            match e.size {
                Some(n) => JsonView::UInt(n),
                None => JsonView::Null,
            },
        ),
    )
}

/// A tree on the wire; the branch is the one, or the ref, that was served.
pub open spec fn tree_object(served: ServedView) -> JsonView {
    JsonView::Object(
        Map::empty().insert(
            "entries"@,
            JsonView::Array(served.tree.entries.map_values(|e: EntryView| entry_object(e))),
        ).insert("truncated"@, JsonView::Bool(served.tree.truncated)).insert(
            "branch"@,
            JsonView::Str(served.label),
        ),
    )
}

fn entry_value(e: &TreeEntry) -> (r: Value)
    ensures
        json(r) == entry_object(e@),
{
    let mut v = json::object();
    json::set(&mut v, "path", json::string(e.path.as_str()));
    json::set(
        &mut v,
        "type",
        json::string(
            if e.is_dir {
                "tree"
            } else {
                "blob"
            },
        ),
    );
    json::set(&mut v, "sha", json::string(e.sha.as_str()));
    let size = match e.size {
        Some(n) => json::uint(n),
        None => json::null(),
    };
    json::set(&mut v, "size", size);
    v
}

impl Served {
    /// The tree on the wire.
    pub fn to_json(&self) -> (r: Value)
        ensures
            json(r) == tree_object(self@),
    {
        let ghost all = entries_view(self.tree.entries@);
        let ghost wire = all.map_values(|e: EntryView| entry_object(e));
        let mut values: Vec<Value> = Vec::new();
        let mut i: usize = 0;
        assert(json_all(values@) =~= wire.take(0));
        while i < self.tree.entries.len()
            invariant
                i <= self.tree.entries@.len(),
                all == entries_view(self.tree.entries@),
                wire == all.map_values(|e: EntryView| entry_object(e)),
                json_all(values@) == wire.take(i as int),
            decreases self.tree.entries@.len() - i,
        {
            let ghost before = json_all(values@);
            values.push(entry_value(&self.tree.entries[i]));
            assert(json_all(values@) =~= before.push(wire[i as int]));
            assert(wire.take(i + 1) =~= before.push(wire[i as int]));
            i += 1;
        }
        assert(wire.take(i as int) =~= wire);
        let mut v = json::object();
        json::set(&mut v, "entries", json::array(values));
        json::set(&mut v, "truncated", json::boolean(self.tree.truncated));
        json::set(&mut v, "branch", json::string(self.label.as_str()));
        v
    }
}

/// The name that a commit's listing goes by in the cache.
pub fn commit_key(commit: &str) -> (r: String)
    ensures
        r@ == commit@,
{
    commit.to_owned()
}

impl Handler {
    /// Begins to resolve a revision to its commit: a ref, or without one the
    /// default branch's head.
    pub fn resolve_commit(&self, full_name: &str, ref_: Option<&str>) -> (r: Step<Pin, Pinned>)
        ensures
            r@ == pin_start(full_name@, text::str_opt(ref_)),
    {
        match ref_ {
            None => Step::More(self.head_commit(full_name)),
            Some(r) => if is_commit(r) {
                Step::Done(Pinned { label: r.to_owned(), commit: r.to_owned() })
            } else {
                Step::More(Pin::Branch { full_name: full_name.to_owned(), name: r.to_owned() })
            },
        }
    }

    /// Begins to resolve the default branch's head.
    pub fn head_commit(&self, full_name: &str) -> (r: Pin)
        ensures
            r@ == (PinView::Meta { full_name: full_name@ }),
    {
        Pin::Meta { full_name: full_name.to_owned() }
    }

    /// Begins to serve the tree at the default branch's head.
    pub fn tree_at_commit(&self, full_name: &str) -> (r: TreeAt)
        ensures
            r@ == head_tree(full_name@),
    {
        TreeAt::Resolve { full_name: full_name.to_owned(), pin: self.head_commit(full_name) }
    }

    /// Begins to serve the tree at a ref: a branch, a tag or a commit hash,
    /// resolved afresh on every call.
    pub fn tree_at_ref(&self, full_name: &str, ref_: &str) -> (r: Step<TreeAt, Served>)
        ensures
            r@ == tree_start(full_name@, Some(ref_@)),
    {
        TreeAt::resolved(full_name.to_owned(), self.resolve_commit(full_name, Some(ref_)))
    }

    /// Begins `repo/tree`.
    pub fn repo_tree(&self, full_name: &str, ref_: Option<&str>) -> (r: Step<RepoTree, Served>)
        ensures
            r@ == repo_tree_start(full_name@, text::str_opt(ref_)),
    {
        let s = match ref_ {
            Some(r) => self.tree_at_ref(full_name, r),
            None => Step::More(self.tree_at_commit(full_name)),
        };
        match s {
            Step::More(at) => Step::More(
                RepoTree::At { full_name: full_name.to_owned(), retry: ref_.is_none(), at },
            ),
            Step::Done(served) => Step::Done(served),
            Step::Failed(e) => Step::Failed(e),
        }
    }
}

/// The name that a resolution is for, once it is known: the default branch, or
/// the ref that was asked for.
pub open spec fn pin_label(p: PinView) -> Option<Seq<char>> {
    match p {
        PinView::Head { branch, .. } => Some(branch),
        PinView::Branch { name, .. } => Some(name),
        PinView::Tag { name, .. } => Some(name),
        _ => None,
    }
}

/// A resolution is for the ref that was asked for from beginning to end: what
/// it arrives at is named by it, and what it fails to find is not found under
/// it.
pub proof fn resolutions_keep_the_ref(full_name: Seq<char>, r: Seq<char>, p: PinView, answer: Answer)
    requires
        pin_label(p) == Some(r),
    ensures
        match pin_start(full_name, Some(r)) {
            StepView::More(begun) => pin_label(begun) == Some(r),
            StepView::Done(pinned) => pinned.label == r && pinned.commit == r,
            StepView::Failed(_) => false,
        },
        match pin_fed(p, answer) {
            StepView::More(after) => pin_label(after) == Some(r),
            StepView::Done(pinned) => pinned.label == r,
            StepView::Failed(e) => answer matches Answer::Ref(Err(cause)) && (e == cause@ || e
                == no_such_ref(r)),
        },
{
}

/// A ref that is neither a branch nor a tag is not found, and the error names
/// it. Any other failure is passed on as it is.
pub proof fn unknown_refs_are_not_found(
    full_name: Seq<char>,
    r: Seq<char>,
    first: ApiError,
    second: ApiError,
)
    requires
        is_missing(first@),
    ensures
        pin_fed(PinView::Branch { full_name, name: r }, Answer::Ref(Err(first)))
            == StepView::<PinView, PinnedView>::More(PinView::Tag { full_name, name: r }),
        pin_fed(PinView::Tag { full_name, name: r }, Answer::Ref(Err(second)))
            == StepView::<PinView, PinnedView>::Failed(
            if is_missing(second@) {
                no_such_ref(r)
            } else {
                second@
            },
        ),
        is_missing(no_such_ref(r)),
{
}

/// A tree on its way is for one repository, and its walk is for the commit that
/// was resolved.
pub open spec fn pinned_down(t: TreeAtView, full_name: Seq<char>) -> bool {
    match t {
        TreeAtView::Resolve { full_name: name, .. } => name == full_name,
        TreeAtView::Cached { full_name: name, .. } => name == full_name,
        TreeAtView::Walk { pinned, walk } => {
            &&& walk.full_name == full_name
            &&& walk.commit == pinned.commit
            &&& sound(walk.commit, walk.out)
        },
    }
}

/// The commit that a tree on its way has been resolved to.
pub open spec fn resolved_commit(t: TreeAtView) -> Option<Seq<char>> {
    match t {
        TreeAtView::Resolve { .. } => None,
        TreeAtView::Cached { pinned, .. } => Some(pinned.commit),
        TreeAtView::Walk { pinned, .. } => Some(pinned.commit),
    }
}

/// Listings go by the commit that was resolved for this very request: it is
/// looked up and kept under that commit, within the cap, and every entry that
/// is kept is pinned to it. The commit is never looked up in the cache itself.
pub proof fn listings_go_by_the_resolved_commit(
    t: TreeAtView,
    full_name: Seq<char>,
    ref_: Option<Seq<char>>,
    answer: Answer,
    instance: Seq<char>,
)
    requires
        pinned_down(t, full_name),
    ensures
        tree_start(full_name, ref_) matches StepView::More(begun) && pinned_down(begun, full_name),
        tree_ask(t, instance) matches AskView::Tree(file) ==> {
            &&& resolved_commit(t) is Some
            &&& file == tree_file(full_name, resolved_commit(t)->0)
        },
        tree_fed(t, answer) matches StepView::More(after) ==> pinned_down(after, full_name),
        tree_fed(t, answer) matches StepView::More(after) ==> resolved_commit(t) is Some
            ==> resolved_commit(after) == resolved_commit(t),
        forall|i: int|
            0 <= i < tree_effects(t, answer).len() ==> match #[trigger] tree_effects(t, answer)[i] {
                EffectView::StoreTree(file, tree) => {
                    &&& resolved_commit(t) is Some
                    &&& file == tree_file(full_name, resolved_commit(t)->0)
                    &&& sound(resolved_commit(t)->0, tree.entries)
                },
                EffectView::StoreMeta(..) => true,
                _ => false,
            },
{
    if let TreeAtView::Walk { pinned, walk } = t {
        if let Answer::Entries(Ok(page)) = answer {
            walks_stay_sound(walk, page.values@, string_opt(page.next));
        }
    }
}

/// A repository that has moved is looked up once more, and only once: after it
/// was fetched anew, a missing tree is a failure.
pub proof fn trees_are_retried_once(t: RepoTreeView, full_name: Seq<char>, answer: Answer)
    ensures
        t matches RepoTreeView::At { retry, .. } && !retry ==> match repo_tree_fed(t, answer) {
            StepView::More(after) => after matches RepoTreeView::At { retry, .. } && !retry,
            _ => true,
        },
        t is Refresh ==> match repo_tree_fed(t, answer) {
            StepView::More(after) => after == t || (after matches RepoTreeView::At { retry, .. }
                && !retry),
            _ => true,
        },
        forall|r: Seq<char>|
            #![trigger repo_tree_start(full_name, Some(r))]
            match repo_tree_start(full_name, Some(r)) {
                StepView::More(begun) => begun matches RepoTreeView::At { retry, .. } && !retry,
                _ => true,
            },
{
}

/// A listing that was walked is kept where the next request that resolves to the
/// same commit looks for it, and what is served from there is what was served
/// from the walk, under the name that was asked for this time.
pub proof fn kept_listings_are_served_again(
    t: TreeAtView,
    full_name: Seq<char>,
    page: Paged<SrcEntry>,
    label: Seq<char>,
    kept: Tree,
    instance: Seq<char>,
)
    requires
        pinned_down(t, full_name),
        t is Walk,
    ensures
        tree_fed(t, Answer::Entries(Ok(page))) matches StepView::Done(served) ==> {
            let commit = resolved_commit(t)->0;
            let again = TreeAtView::Cached { full_name, pinned: PinnedView { label, commit } };
            &&& tree_effects(t, Answer::Entries(Ok(page))) == seq![
                EffectView::StoreTree(tree_file(full_name, commit), served.tree),
            ]
            &&& tree_ask(again, instance) == AskView::Tree(tree_file(full_name, commit))
            &&& kept@ == served.tree ==> tree_fed(again, Answer::Tree(Some(kept))) == StepView::<
                TreeAtView,
                ServedView,
            >::Done(ServedView { label, tree: served.tree })
        },
{
}

/// A repository that was fetched is remembered where it is looked for under the
/// name that it goes by, and what is remembered leads on as the repository
/// itself did.
pub proof fn remembered_repositories_lead_on(full_name: Seq<char>, repo: Repo, meta: RepoMeta)
    requires
        meta@ == meta_of(repo),
    ensures
        pin_fed(PinView::Meta { full_name }, Answer::Meta(Some(meta))) == pin_fed(
            PinView::Repo { full_name },
            Answer::Repo(Ok(repo)),
        ),
        pin_effects(PinView::Repo { full_name }, Answer::Repo(Ok(repo))) == seq![
            EffectView::StoreMeta(meta_file(repo.full_name@), meta@),
        ],
        pin_ask(PinView::Meta { full_name: repo.full_name@ }, Seq::empty()) == AskView::Meta(
            meta_file(repo.full_name@),
        ),
{
}

}
