//! Blobs: bytes by the content id that the tree carries, cache first
//! (`repo/blob`), and a path resolved at a revision straight to bytes and id
//! (`repo/blob_at`). The grep of `search/code` reads through the same cache.

use super::Handler;
use super::tree::{pin_ask, pin_effects, pin_fed, pin_start, Pin, PinView, Pinned, PinnedView};
use crate::text;
use crate::api::{
    base64_encode, base64_of, blob_path, check_blob, content_id, content_ids_round_trip, full_url,
    malformed_id, mint, over_cap, parted, SrcEntry, BLOB_CAP,
};
use crate::cache::{blob_file, Cache};
use crate::exchange::{effects, note, Answer, Ask, AskView, Effect, EffectView, Step, StepView};
use crate::json::{self, json, JsonView};
use crate::walk::pinned;
use serde_json::Value;
use vstd::prelude::*;

verus! {

/// A blob on its way: the cache is looked into, and where it holds nothing the
/// bytes are fetched.
pub struct BlobFetch {
    pub full_name: String,
    pub sha: String,
    pub look: Option<Ask>,
    pub fetch: Ask,
}

/// A [`BlobFetch`] over plain sequences.
pub struct FetchView {
    pub full_name: Seq<char>,
    pub sha: Seq<char>,
    pub look: Option<AskView>,
    pub fetch: AskView,
}

impl View for BlobFetch {
    type V = FetchView;

    open spec fn view(&self) -> FetchView {
        FetchView {
            full_name: self.full_name@,
            sha: self.sha@,
            look: match self.look {
                Some(ask) => Some(ask@),
                None => None,
            },
            fetch: self.fetch@,
        }
    }
}

/// A blob is to be served by content id. An id outside the grammar is refused
/// before anything is asked.
pub open spec fn fetch_start(instance: Seq<char>, full_name: Seq<char>, sha: Seq<char>) -> StepView<
    FetchView,
    Seq<u8>,
> {
    match parted(sha) {
        Some((commit, path)) => StepView::More(
            FetchView {
                full_name,
                sha,
                look: Some(AskView::Blob(blob_file(full_name, commit, path))),
                fetch: AskView::Bytes(full_url(instance, blob_path(full_name, commit, path))),
            },
        ),
        None => StepView::Failed(malformed_id(sha)),
    }
}

/// What a blob on its way asks.
pub open spec fn fetch_ask(f: FetchView) -> AskView {
    match f.look {
        Some(ask) => ask,
        None => f.fetch,
    }
}

/// A blob goes on with an answer. Bytes over the preview cap are refused. An
/// answer that was not asked for changes nothing.
pub open spec fn fetch_fed(f: FetchView, answer: Answer) -> StepView<FetchView, Seq<u8>> {
    match (f.look, answer) {
        (Some(_), Answer::Blob(Some(bytes))) => StepView::Done(bytes@),
        (Some(_), Answer::Blob(None)) => StepView::More(FetchView { look: None, ..f }),
        (None, Answer::Bytes(Ok(bytes))) => if bytes@.len() <= BLOB_CAP {
            StepView::Done(bytes@)
        } else {
            StepView::Failed(over_cap(bytes@.len()))
        },
        (None, Answer::Bytes(Err(e))) => StepView::Failed(e@),
        _ => StepView::More(f),
    }
}

/// What a blob on its way does with an answer: bytes that were fetched, and are
/// not over the cap, are kept under their content id.
pub open spec fn fetch_effects(f: FetchView, answer: Answer) -> Seq<EffectView> {
    match (f.look, answer, parted(f.sha)) {
        (None, Answer::Bytes(Ok(bytes)), Some((commit, path))) => if bytes@.len() <= BLOB_CAP {
            seq![EffectView::StoreBlob(blob_file(f.full_name, commit, path), bytes@)]
        } else {
            Seq::empty()
        },
        _ => Seq::empty(),
    }
}

impl BlobFetch {
    /// What the blob waits for.
    pub fn ask(&self) -> (r: Ask)
        ensures
            r@ == fetch_ask(self@),
    {
        match &self.look {
            Some(ask) => ask.copy(),
            None => self.fetch.copy(),
        }
    }

    /// Goes on with an answer.
    pub fn feed(self, answer: Answer, cache: &Cache, fx: &mut Vec<Effect>) -> (r: Step<
        BlobFetch,
        Vec<u8>,
    >)
        ensures
            r@ == fetch_fed(self@, answer),
            effects(final(fx)@) == effects(old(fx)@) + fetch_effects(self@, answer),
    {
        let ghost before = effects(fx@);
        assert(before + Seq::<EffectView>::empty() =~= before);
        match (self.look, answer) {
            (Some(_), Answer::Blob(Some(bytes))) => Step::Done(bytes),
            (Some(_), Answer::Blob(None)) => Step::More(
                BlobFetch {
                    full_name: self.full_name,
                    sha: self.sha,
                    look: None,
                    fetch: self.fetch,
                },
            ),
            (None, Answer::Bytes(Ok(bytes))) => match check_blob(bytes) {
                Ok(bytes) => {
                    let kept = bytes.clone();
                    assert(kept@ =~= bytes@);
                    if let Some(effect) = cache.store_blob(
                        self.full_name.as_str(),
                        self.sha.as_str(),
                        kept,
                    ) {
                        note(fx, effect);
                        assert(effects(fx@) =~= before + seq![effect@]);
                    }
                    Step::Done(bytes)
                },
                Err(e) => Step::Failed(e),
            },
            (None, Answer::Bytes(Err(e))) => Step::Failed(e),
            (look, _) => Step::More(
                BlobFetch {
                    full_name: self.full_name,
                    sha: self.sha,
                    look,
                    fetch: self.fetch,
                },
            ),
        }
    }
}

/// Bytes in base64 on the wire.
pub open spec fn bytes_object(encoded: Seq<char>) -> JsonView {
    JsonView::Object(Map::empty().insert("bytes_b64"@, JsonView::Str(encoded)))
}

/// A blob on the wire.
pub open spec fn blob_object(bytes: Seq<u8>) -> JsonView {
    bytes_object(base64_of(bytes))
}

/// Bytes in base64 on the wire.
pub fn bytes_value(encoded: &str) -> (r: Value)
    ensures
        json(r) == bytes_object(encoded@),
{
    let mut v = json::object();
    json::set(&mut v, "bytes_b64", json::string(encoded));
    v
}

pub(crate) fn blob_value(bytes: &Vec<u8>) -> (r: Value)
    ensures
        json(r) == blob_object(bytes@),
{
    bytes_value(base64_encode(bytes.as_slice()).as_str())
}

/// A path's bytes at a revision on their way: the revision is resolved, and the
/// blob is served by the content id that the tree carries there.
pub enum BlobAt {
    Resolve { full_name: String, path: String, pin: Pin },
    Blob { fetch: BlobFetch },
}

/// A [`BlobAt`] over plain sequences.
pub enum BlobAtView {
    Resolve { full_name: Seq<char>, path: Seq<char>, pin: PinView },
    Blob { fetch: FetchView },
}

impl View for BlobAt {
    type V = BlobAtView;

    open spec fn view(&self) -> BlobAtView {
        match self {
            BlobAt::Resolve { full_name, path, pin } => BlobAtView::Resolve {
                full_name: full_name@,
                path: path@,
                pin: pin@,
            },
            BlobAt::Blob { fetch } => BlobAtView::Blob { fetch: fetch@ },
        }
    }
}

/// Bytes and their content id.
#[derive(Debug)]
pub struct Blob {
    pub bytes: Vec<u8>,
    pub sha: String,
}

/// A [`Blob`] over plain sequences.
pub struct BlobView {
    pub bytes: Seq<u8>,
    pub sha: Seq<char>,
}

impl View for Blob {
    type V = BlobView;

    open spec fn view(&self) -> BlobView {
        BlobView { bytes: self.bytes@, sha: self.sha@ }
    }
}

/// The blob is on its way, or served under its content id.
pub open spec fn served(sha: Seq<char>, s: StepView<FetchView, Seq<u8>>) -> StepView<
    BlobAtView,
    BlobView,
> {
    match s {
        StepView::More(fetch) => StepView::More(BlobAtView::Blob { fetch }),
        StepView::Done(bytes) => StepView::Done(BlobView { bytes, sha }),
        StepView::Failed(e) => StepView::Failed(e),
    }
}

/// The revision is on its way, or resolved.
pub open spec fn located(
    instance: Seq<char>,
    full_name: Seq<char>,
    path: Seq<char>,
    s: StepView<PinView, PinnedView>,
) -> StepView<BlobAtView, BlobView> {
    match s {
        StepView::More(pin) => StepView::More(BlobAtView::Resolve { full_name, path, pin }),
        StepView::Done(pinned) => {
            let sha = content_id(pinned.commit, path);
            served(sha, fetch_start(instance, full_name, sha))
        },
        StepView::Failed(e) => StepView::Failed(e),
    }
}

/// A path's bytes are to be served at a ref, or at the default branch's head.
pub open spec fn blob_at_start(
    instance: Seq<char>,
    full_name: Seq<char>,
    path: Seq<char>,
    ref_: Option<Seq<char>>,
) -> StepView<BlobAtView, BlobView> {
    located(instance, full_name, path, pin_start(full_name, ref_))
}

/// What `repo/blob_at` asks.
pub open spec fn blob_at_ask(b: BlobAtView, instance: Seq<char>) -> AskView {
    match b {
        BlobAtView::Resolve { pin, .. } => pin_ask(pin, instance),
        BlobAtView::Blob { fetch } => fetch_ask(fetch),
    }
}

/// `repo/blob_at` goes on with an answer.
pub open spec fn blob_at_fed(b: BlobAtView, answer: Answer, instance: Seq<char>) -> StepView<
    BlobAtView,
    BlobView,
> {
    match b {
        BlobAtView::Resolve { full_name, path, pin } => located(
            instance,
            full_name,
            path,
            pin_fed(pin, answer),
        ),
        BlobAtView::Blob { fetch } => served(fetch.sha, fetch_fed(fetch, answer)),
    }
}

/// What `repo/blob_at` does with an answer.
pub open spec fn blob_at_effects(b: BlobAtView, answer: Answer) -> Seq<EffectView> {
    match b {
        BlobAtView::Resolve { pin, .. } => pin_effects(pin, answer),
        BlobAtView::Blob { fetch } => fetch_effects(fetch, answer),
    }
}

impl BlobAt {
    fn served(sha: String, s: Step<BlobFetch, Vec<u8>>) -> (r: Step<BlobAt, Blob>)
        ensures
            r@ == served(sha@, s@),
    {
        match s {
            Step::More(fetch) => Step::More(BlobAt::Blob { fetch }),
            Step::Done(bytes) => Step::Done(Blob { bytes, sha }),
            Step::Failed(e) => Step::Failed(e),
        }
    }

    fn located(full_name: String, path: String, s: Step<Pin, Pinned>, handler: &Handler) -> (r:
        Step<BlobAt, Blob>)
        ensures
            r@ == located(handler.bb.instance@, full_name@, path@, s@),
    {
        match s {
            Step::More(pin) => Step::More(BlobAt::Resolve { full_name, path, pin }),
            Step::Done(pinned) => {
                let sha = mint(pinned.commit.as_str(), path.as_str());
                let s = handler.blob_bytes(full_name.as_str(), sha.as_str());
                BlobAt::served(sha, s)
            },
            Step::Failed(e) => Step::Failed(e),
        }
    }

    /// What the method waits for.
    pub fn ask(&self, handler: &Handler) -> (r: Ask)
        ensures
            r@ == blob_at_ask(self@, handler.bb.instance@),
    {
        match self {
            BlobAt::Resolve { pin, .. } => pin.ask(&handler.bb, &handler.cache),
            BlobAt::Blob { fetch } => fetch.ask(),
        }
    }

    /// Goes on with an answer.
    pub fn feed(self, answer: Answer, handler: &Handler, fx: &mut Vec<Effect>) -> (r: Step<
        BlobAt,
        Blob,
    >)
        ensures
            r@ == blob_at_fed(self@, answer, handler.bb.instance@),
            effects(final(fx)@) == effects(old(fx)@) + blob_at_effects(self@, answer),
    {
        match self {
            BlobAt::Resolve { full_name, path, pin } => {
                let s = pin.feed(answer, &handler.cache, fx);
                BlobAt::located(full_name, path, s, handler)
            },
            BlobAt::Blob { fetch } => {
                let sha = fetch.sha.clone();
                let s = fetch.feed(answer, &handler.cache, fx);
                BlobAt::served(sha, s)
            },
        }
    }
}

/// Bytes in base64 and their content id on the wire.
pub open spec fn named_object(encoded: Seq<char>, sha: Seq<char>) -> JsonView {
    JsonView::Object(
        Map::empty().insert("bytes_b64"@, JsonView::Str(encoded)).insert("sha"@, JsonView::Str(sha)),
    )
}

/// A blob and its content id on the wire.
pub open spec fn blob_at_object(b: BlobView) -> JsonView {
    named_object(base64_of(b.bytes), b.sha)
}

/// Bytes in base64 and their content id on the wire.
pub fn named_value(encoded: &str, sha: &str) -> (r: Value)
    ensures
        json(r) == named_object(encoded@, sha@),
{
    let mut v = json::object();
    json::set(&mut v, "bytes_b64", json::string(encoded));
    json::set(&mut v, "sha", json::string(sha));
    v
}

impl Blob {
    /// The blob on the wire.
    pub fn to_json(&self) -> (r: Value)
        ensures
            json(r) == blob_at_object(self@),
    {
        named_value(base64_encode(self.bytes.as_slice()).as_str(), self.sha.as_str())
    }
}

impl Handler {
    /// Begins to serve a blob by content id, cache first.
    pub fn blob_bytes(&self, full_name: &str, sha: &str) -> (r: Step<BlobFetch, Vec<u8>>)
        ensures
            r@ == fetch_start(self.bb.instance@, full_name@, sha@),
    {
        let look = self.cache.blob(full_name, sha);
        match self.bb.blob(full_name, sha) {
            Ok(fetch) => Step::More(
                BlobFetch { full_name: full_name.to_owned(), sha: sha.to_owned(), look, fetch },
            ),
            Err(e) => Step::Failed(e),
        }
    }

    /// Begins `repo/blob_at`.
    pub fn repo_blob_at(&self, full_name: &str, path: &str, ref_: Option<&str>) -> (r: Step<
        BlobAt,
        Blob,
    >)
        ensures
            r@ == blob_at_start(self.bb.instance@, full_name@, path@, text::str_opt(ref_)),
    {
        let s = self.resolve_commit(full_name, ref_);
        BlobAt::located(full_name.to_owned(), path.to_owned(), s, self)
    }
}

/// A content id that a tree carries asks for the very path at the very commit
/// that it was minted from. Commit hashes hold no colon.
pub proof fn content_ids_name_their_blobs(
    instance: Seq<char>,
    full_name: Seq<char>,
    commit: Seq<char>,
    path: Seq<char>,
)
    requires
        !commit.contains(':'),
    ensures
        fetch_start(instance, full_name, content_id(commit, path)) == StepView::<
            FetchView,
            Seq<u8>,
        >::More(
            FetchView {
                full_name,
                sha: content_id(commit, path),
                look: Some(AskView::Blob(blob_file(full_name, commit, path))),
                fetch: AskView::Bytes(full_url(instance, blob_path(full_name, commit, path))),
            },
        ),
{
    content_ids_round_trip(commit, path);
}

/// Bytes that were fetched are kept where the next request for the same id looks
/// for them, exactly as they are served; bytes over the cap are neither kept nor
/// served.
pub proof fn fetched_blobs_are_found_again(
    instance: Seq<char>,
    full_name: Seq<char>,
    sha: Seq<char>,
    bytes: Vec<u8>,
)
    ensures
        fetch_start(instance, full_name, sha) matches StepView::More(begun) ==> {
            let answer = Answer::Bytes(Ok(bytes));
            let missed = FetchView { look: None, ..begun };
            &&& fetch_fed(begun, Answer::Blob(None)) == StepView::<FetchView, Seq<u8>>::More(missed)
            &&& fetch_effects(begun, Answer::Blob(None)) == Seq::<EffectView>::empty()
            &&& begun.look matches Some(AskView::Blob(file))
            &&& if bytes@.len() <= BLOB_CAP {
                &&& fetch_effects(missed, answer) == seq![EffectView::StoreBlob(file, bytes@)]
                &&& fetch_fed(missed, answer) == StepView::<FetchView, Seq<u8>>::Done(bytes@)
                &&& fetch_fed(begun, Answer::Blob(Some(bytes))) == fetch_fed(missed, answer)
            } else {
                &&& fetch_effects(missed, answer) == Seq::<EffectView>::empty()
                &&& fetch_fed(missed, answer) == StepView::<FetchView, Seq<u8>>::Failed(
                    over_cap(bytes@.len()),
                )
            }
        },
{
}

/// `repo/blob_at` serves under the content id that the tree carries for the path
/// at the commit that was resolved, so that the id can be asked for again.
pub proof fn blob_at_serves_the_trees_id(
    b: BlobAtView,
    answer: Answer,
    instance: Seq<char>,
    e: SrcEntry,
)
    requires
        !e.names_dir(),
    ensures
        b matches BlobAtView::Resolve { full_name, path, pin } ==> path == e.path@ ==> (
        pin_fed(pin, answer) matches StepView::Done(at) ==> {
            &&& blob_at_fed(b, answer, instance) matches StepView::More(BlobAtView::Blob { fetch })
            &&& fetch.sha == pinned(at.commit, e).sha
            &&& fetch_start(instance, full_name, fetch.sha) == StepView::<FetchView, Seq<u8>>::More(
                fetch,
            )
        }),
        b matches BlobAtView::Blob { fetch } ==> match blob_at_fed(b, answer, instance) {
            StepView::More(after) => after matches BlobAtView::Blob { fetch: f } && f.sha
                == fetch.sha,
            StepView::Done(served) => served.sha == fetch.sha,
            StepView::Failed(_) => true,
        },
{
    if let BlobAtView::Resolve { full_name, path, pin } = b {
        if let StepView::Done(pinned) = pin_fed(pin, answer) {
            let sha = content_id(pinned.commit, path);
            assert(sha[pinned.commit.len() as int] == ':');
            assert(sha.contains(':'));
            text::before_first_is_first(sha, ':');
        }
    }
}

}
