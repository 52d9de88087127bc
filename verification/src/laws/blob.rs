//! Blobs: the bytes that are served are those that the cache or the forge has for
//! the content id.

use super::revision::{below, blob_resolving, paths_are_asked_for_below_the_instance};
use super::texts::splits_are_at_the_first;
use crate::api::{base64_of, ApiError};
use crate::cache::encoded;
use crate::exchange::{Answer, AskView, EffectView, StepView};
use crate::handlers::wire_error;
use crate::handlers::blob::{fetch_ask, fetch_start, BlobAtView, FetchView};
use crate::handlers::task::{task_effects, task_fed, TaskView, TurnView};
use crate::handlers::tree::{pin_fed, PinView, PinnedView};
use crate::json::text_member;
use crate::text::{decimal, in_quotes};
use vstd::prelude::*;

verus! {

/// Where a blob is kept.
pub open spec fn kept_at(full_name: Seq<char>, commit: Seq<char>, path: Seq<char>) -> Seq<
    Seq<char>,
> {
    seq!["blobs"@, encoded(full_name), encoded(commit), encoded(path)]
}

/// A blob on its way whose content id is that of a commit and a path: it is looked
/// for where it is kept, then asked for below the repository at the commit.
pub open spec fn sought(
    f: FetchView,
    instance: Seq<char>,
    full_name: Seq<char>,
    commit: Seq<char>,
    path: Seq<char>,
) -> bool {
    &&& f.full_name == full_name
    &&& f.sha == commit + seq![':'] + path
    &&& f.look matches Some(look) ==> look == AskView::Blob(kept_at(full_name, commit, path))
    &&& f.fetch == AskView::Bytes(
        below(instance, full_name, "/src/"@ + commit + "/"@ + path),
    )
}

/// A content id is a commit, a colon and a path; what stands before the first
/// colon is the commit. The blob is looked for in the cache first. A text without
/// a colon is no content id, and not found.
pub proof fn blobs_are_sought_by_commit_and_path(
    instance: Seq<char>,
    full_name: Seq<char>,
    commit: Seq<char>,
    path: Seq<char>,
    other: Seq<char>,
)
    requires
        !commit.contains(':'),
        !other.contains(':'),
    ensures
        ({
            let sha = commit + seq![':'] + path;
            &&& fetch_start(instance, full_name, sha) matches StepView::More(f)
            &&& sought(f, instance, full_name, commit, path)
            &&& f.look is Some
            &&& fetch_ask(f) == AskView::Blob(kept_at(full_name, commit, path))
        }),
        fetch_start(instance, full_name, other) matches StepView::Failed(e) && {
            let shown = wire_error(e);
            &&& shown.kind == "not_found"@
            &&& shown.message == "malformed content id "@ + in_quotes(other)
                + " — expected <commit>:<path>"@
            &&& shown.retry_after_s is None
        },
{
    splits_are_at_the_first(other, ':', commit, path);
    let rest = "/src/"@ + commit + "/"@ + path;
    paths_are_asked_for_below_the_instance(instance, rest, '/', full_name, rest);
    assert("/2.0/repositories/"@ + full_name + "/src/"@ + commit + "/"@ + path
        =~= "/2.0/repositories/"@ + full_name + rest);
}

/// A reply of bytes, in base64.
pub open spec fn shows_bytes(turn: TurnView, bytes: Seq<u8>) -> bool {
    turn matches TurnView::Reply(Ok(v)) && text_member(v, "bytes_b64"@) == Some(base64_of(bytes))
}

/// A reply of bytes, in base64, and of the content id that they go by.
pub open spec fn shows_named_bytes(turn: TurnView, bytes: Seq<u8>, sha: Seq<char>) -> bool {
    shows_bytes(turn, bytes) && (turn matches TurnView::Reply(Ok(v)) && text_member(v, "sha"@)
        == Some(sha))
}

/// A reply of this provider that a blob of so many bytes is over the cap.
pub open spec fn refuses_size(turn: TurnView, len: nat) -> bool {
    turn matches TurnView::Reply(Err(e)) && e.kind == "provider"@ && e.message
        == "blob over the 1 MiB preview cap ("@ + decimal(len) + " bytes)"@ && e.retry_after_s is None
}

/// The bytes that the cache has are served. Where it has none the forge is asked,
/// and its bytes are served and kept where they are looked for, unless they are
/// over 1 MiB: then they are refused and not kept. A failure is passed on.
pub proof fn bytes_are_served_as_they_came(
    f: FetchView,
    instance: Seq<char>,
    full_name: Seq<char>,
    commit: Seq<char>,
    path: Seq<char>,
    bytes: Vec<u8>,
    error: ApiError,
)
    requires
        !commit.contains(':'),
        sought(f, instance, full_name, commit, path),
    ensures
        ({
            let sha = commit + seq![':'] + path;
            let blob = TaskView::RepoBlob { fetch: f };
            let named = TaskView::BlobAt { blob: BlobAtView::Blob { fetch: f } };
            let next = FetchView { look: None, ..f };
            &&& f.look is Some ==> {
                &&& shows_bytes(task_fed(blob, Answer::Blob(Some(bytes)), instance), bytes@)
                &&& shows_named_bytes(
                    task_fed(named, Answer::Blob(Some(bytes)), instance),
                    bytes@,
                    sha,
                )
                &&& task_effects(blob, Answer::Blob(Some(bytes)), instance).len() == 0
                &&& task_effects(named, Answer::Blob(Some(bytes)), instance).len() == 0
                &&& task_fed(blob, Answer::Blob(None), instance) == TurnView::More(
                    TaskView::RepoBlob { fetch: next },
                )
                &&& task_fed(named, Answer::Blob(None), instance) == TurnView::More(
                    TaskView::BlobAt { blob: BlobAtView::Blob { fetch: next } },
                )
                &&& fetch_ask(next) == f.fetch
                &&& sought(next, instance, full_name, commit, path)
            }
            &&& f.look is None && bytes@.len() <= 1_048_576 ==> {
                let keeps = seq![EffectView::StoreBlob(kept_at(full_name, commit, path), bytes@)];
                &&& shows_bytes(task_fed(blob, Answer::Bytes(Ok(bytes)), instance), bytes@)
                &&& shows_named_bytes(
                    task_fed(named, Answer::Bytes(Ok(bytes)), instance),
                    bytes@,
                    sha,
                )
                &&& task_effects(blob, Answer::Bytes(Ok(bytes)), instance) == keeps
                &&& task_effects(named, Answer::Bytes(Ok(bytes)), instance) == keeps
            }
            &&& f.look is None && bytes@.len() > 1_048_576 ==> {
                &&& refuses_size(
                    task_fed(blob, Answer::Bytes(Ok(bytes)), instance),
                    bytes@.len(),
                )
                &&& refuses_size(
                    task_fed(named, Answer::Bytes(Ok(bytes)), instance),
                    bytes@.len(),
                )
                &&& task_effects(blob, Answer::Bytes(Ok(bytes)), instance).len() == 0
                &&& task_effects(named, Answer::Bytes(Ok(bytes)), instance).len() == 0
            }
            &&& f.look is None ==> {
                &&& task_fed(blob, Answer::Bytes(Err(error)), instance) == TurnView::Reply(
                    Err(wire_error(error@)),
                )
                &&& task_fed(named, Answer::Bytes(Err(error)), instance) == TurnView::Reply(
                    Err(wire_error(error@)),
                )
            }
        }),
{
    reveal_strlit("bytes_b64");
    reveal_strlit("sha");
    assert("bytes_b64"@.len() == 9 && "sha"@.len() == 3);
    splits_are_at_the_first(f.sha, ':', commit, path);
}

/// `repo/blob_at` seeks the blob of the path at the commit that the revision
/// resolved to. Commit hashes hold no colon.
pub proof fn paths_are_sought_at_the_commit(
    full_name: Seq<char>,
    path: Seq<char>,
    pin: PinView,
    pinned: PinnedView,
    answer: Answer,
    instance: Seq<char>,
)
    requires
        !pinned.commit.contains(':'),
        pin_fed(pin, answer) == StepView::<PinView, PinnedView>::Done(pinned),
    ensures
        ({
            let turn = task_fed(blob_resolving(full_name, path, pin), answer, instance);
            &&& turn matches TurnView::More(TaskView::BlobAt { blob: BlobAtView::Blob { fetch } })
            &&& sought(fetch, instance, full_name, pinned.commit, path)
            &&& fetch.look is Some
        }),
{
    blobs_are_sought_by_commit_and_path(
        instance,
        full_name,
        pinned.commit,
        path,
        Seq::empty(),
    );
}

}
