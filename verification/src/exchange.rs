//! What a method needs from outside while it works on a request. The library
//! neither opens connections nor files: a method that needs an answer stops
//! with an [`Ask`], and goes on once it has the [`Answer`]. What it wants done
//! without waiting, it leaves as [`Effect`]s, to be carried out in order.

use crate::api::{
    ApiError, ApiResult, Commit, ErrorView, NamedRef, Paged, Ref, Repo, SrcEntry, Workspace,
};
use crate::cache::{CacheFile, MetaView, RepoMeta, Tree, TreeView};
use crate::json::{self, json, json_text};
use serde_json::Value;
use vstd::prelude::*;

verus! {

/// One question. The first three ask the disk cache for what a file holds, the
/// others ask the API for what a URL answers.
#[derive(Debug)]
pub enum Ask {
    Meta(CacheFile),
    Tree(CacheFile),
    Blob(CacheFile),
    Repo(String),
    Ref(String),
    Workspaces(String),
    Repos(String),
    Entries(String),
    Refs(String),
    Commits(String),
    Bytes(String),
}

/// An [`Ask`] over plain sequences.
pub enum AskView {
    Meta(Seq<Seq<char>>),
    Tree(Seq<Seq<char>>),
    Blob(Seq<Seq<char>>),
    Repo(Seq<char>),
    Ref(Seq<char>),
    Workspaces(Seq<char>),
    Repos(Seq<char>),
    Entries(Seq<char>),
    Refs(Seq<char>),
    Commits(Seq<char>),
    Bytes(Seq<char>),
}

impl View for Ask {
    type V = AskView;

    open spec fn view(&self) -> AskView {
        match self {
            Ask::Meta(f) => AskView::Meta(f@),
            Ask::Tree(f) => AskView::Tree(f@),
            Ask::Blob(f) => AskView::Blob(f@),
            Ask::Repo(u) => AskView::Repo(u@),
            Ask::Ref(u) => AskView::Ref(u@),
            Ask::Workspaces(u) => AskView::Workspaces(u@),
            Ask::Repos(u) => AskView::Repos(u@),
            Ask::Entries(u) => AskView::Entries(u@),
            Ask::Refs(u) => AskView::Refs(u@),
            Ask::Commits(u) => AskView::Commits(u@),
            Ask::Bytes(u) => AskView::Bytes(u@),
        }
    }
}

impl Ask {
    /// The same question once more.
    pub fn copy(&self) -> (r: Ask)
        ensures
            r@ == self@,
    {
        match self {
            Ask::Meta(f) => Ask::Meta(f.copy()),
            Ask::Tree(f) => Ask::Tree(f.copy()),
            Ask::Blob(f) => Ask::Blob(f.copy()),
            Ask::Repo(u) => Ask::Repo(u.clone()),
            Ask::Ref(u) => Ask::Ref(u.clone()),
            Ask::Workspaces(u) => Ask::Workspaces(u.clone()),
            Ask::Repos(u) => Ask::Repos(u.clone()),
            Ask::Entries(u) => Ask::Entries(u.clone()),
            Ask::Refs(u) => Ask::Refs(u.clone()),
            Ask::Commits(u) => Ask::Commits(u.clone()),
            Ask::Bytes(u) => Ask::Bytes(u.clone()),
        }
    }
}

/// The answer to an [`Ask`] of the same name. A cache that holds nothing
/// readable answers `None`.
#[derive(Debug)]
pub enum Answer {
    Meta(Option<RepoMeta>),
    Tree(Option<Tree>),
    Blob(Option<Vec<u8>>),
    Repo(ApiResult<Repo>),
    Ref(ApiResult<Ref>),
    Workspaces(ApiResult<Paged<Workspace>>),
    Repos(ApiResult<Paged<Repo>>),
    Entries(ApiResult<Paged<SrcEntry>>),
    Refs(ApiResult<Paged<NamedRef>>),
    Commits(ApiResult<Paged<Commit>>),
    Bytes(ApiResult<Vec<u8>>),
}

/// A message to the client: one line of the protocol, without its line feed.
#[derive(Debug)]
pub struct Line {
    text: String,
}

impl View for Line {
    type V = Seq<char>;

    closed spec fn view(&self) -> Seq<char> {
        self.text@
    }
}

impl Line {
    #[verifier::type_invariant]
    spec fn one_line(self) -> bool {
        !self.text@.contains('\n')
    }

    /// A message as a line.
    pub fn of(message: &Value) -> (r: Line)
        ensures
            r@ == json_text(json(*message)),
    {
        Line { text: json::render(message) }
    }

    /// The line, which holds no line feed.
    pub fn as_str(&self) -> (r: &str)
        ensures
            r@ == self@,
            !r@.contains('\n'),
    {
        proof {
            use_type_invariant(self);
        }
        self.text.as_str()
    }
}

/// Something to be done, in the order given and without an answer. Whether it
/// succeeds makes no difference to what follows.
#[derive(Debug)]
pub enum Effect {
    StoreMeta(CacheFile, RepoMeta),
    DropMeta(CacheFile),
    StoreTree(CacheFile, Tree),
    StoreBlob(CacheFile, Vec<u8>),
    Emit(Line),
}

/// An [`Effect`] over plain sequences.
pub enum EffectView {
    StoreMeta(Seq<Seq<char>>, MetaView),
    DropMeta(Seq<Seq<char>>),
    StoreTree(Seq<Seq<char>>, TreeView),
    StoreBlob(Seq<Seq<char>>, Seq<u8>),
    Emit(Seq<char>),
}

impl View for Effect {
    type V = EffectView;

    open spec fn view(&self) -> EffectView {
        match self {
            Effect::StoreMeta(f, m) => EffectView::StoreMeta(f@, m@),
            Effect::DropMeta(f) => EffectView::DropMeta(f@),
            Effect::StoreTree(f, t) => EffectView::StoreTree(f@, t@),
            Effect::StoreBlob(f, b) => EffectView::StoreBlob(f@, b@),
            Effect::Emit(l) => EffectView::Emit(l@),
        }
    }
}

/// The effects that a vector holds, in order.
pub open spec fn effects(fx: Seq<Effect>) -> Seq<EffectView> {
    fx.map_values(|e: Effect| e@)
}

/// Appends an effect.
pub fn note(fx: &mut Vec<Effect>, e: Effect)
    ensures
        effects(final(fx)@) == effects(old(fx)@).push(e@),
{
    let ghost before = effects(fx@);
    fx.push(e);
    assert(effects(fx@) =~= before.push(e@));
}

/// Where a piece of work stands: it waits for an answer, it has its result, or
/// it has failed.
pub enum Step<S, R> {
    More(S),
    Done(R),
    Failed(ApiError),
}

/// A [`Step`] over the views of what it carries.
pub enum StepView<S, R> {
    More(S),
    Done(R),
    Failed(ErrorView),
}

impl<S: View, R: View> View for Step<S, R> {
    type V = StepView<S::V, R::V>;

    open spec fn view(&self) -> StepView<S::V, R::V> {
        match self {
            Step::More(s) => StepView::More(s@),
            Step::Done(r) => StepView::Done(r@),
            Step::Failed(e) => StepView::Failed(e@),
        }
    }
}

}
