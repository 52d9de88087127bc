//! The walk over a repository's directories at a commit, one listing after
//! another.

use crate::api::{content_id, content_ids_differ, mint, Paged, SrcEntry, DIR_CAP, TREE_ENTRY_CAP};
use crate::cache::{entries_view, EntryView, TreeEntry};
use crate::exchange::{Step, StepView};
use crate::paging::{collection, gather, values_of, PageOf, Paging, PagingView};
use crate::text::{self, string_opt, without_trailing};
use std::collections::VecDeque;
use vstd::prelude::*;
use vstd::string::StringExecFns;

verus! {

/// The recursive listing that a walk arrives at.
#[derive(Debug)]
pub struct Listing {
    pub entries: Vec<TreeEntry>,
    pub truncated: bool,
}

/// A [`Listing`] over plain sequences.
pub struct ListingView {
    pub entries: Seq<EntryView>,
    pub truncated: bool,
}

impl View for Listing {
    type V = ListingView;

    open spec fn view(&self) -> ListingView {
        ListingView { entries: entries_view(self.entries@), truncated: self.truncated }
    }
}

/// A walk over a repository's directories at a commit: the entries so far, the
/// directories still to be listed, and the one that is being listed.
pub struct TreeWalk {
    pub full_name: String,
    pub commit: String,
    pub out: Vec<TreeEntry>,
    pub queue: VecDeque<String>,
    pub dir: Paging<SrcEntry>,
}

/// A [`TreeWalk`] over plain sequences.
pub struct WalkView {
    pub full_name: Seq<char>,
    pub commit: Seq<char>,
    pub out: Seq<EntryView>,
    pub queue: Seq<Seq<char>>,
    pub dir: PagingView<SrcEntry>,
}

impl View for TreeWalk {
    type V = WalkView;

    open spec fn view(&self) -> WalkView {
        WalkView {
            full_name: self.full_name@,
            commit: self.commit@,
            out: entries_view(self.out@),
            queue: text::texts(self.queue@),
            dir: self.dir@,
        }
    }
}

/// The first page of a directory's listing at a commit.
pub open spec fn dir_path(full_name: Seq<char>, commit: Seq<char>, dir: Seq<char>) -> Seq<char> {
    let suffix = if dir.len() == 0 {
        Seq::empty()
    } else {
        without_trailing(dir, '/') + "/"@
    };
    "/2.0/repositories/"@ + full_name + "/src/"@ + commit + "/"@ + suffix
        + "?format=entries&pagelen=100"@
}

/// A directory's listing at a commit.
pub open spec fn dir_listing(full_name: Seq<char>, commit: Seq<char>, dir: Seq<char>) -> PagingView<
    SrcEntry,
> {
    collection(dir_path(full_name, commit, dir), DIR_CAP as nat)
}

/// An entry of a directory as an entry of the tree at a commit. Files carry
/// their content id, directories the commit.
pub open spec fn pinned(commit: Seq<char>, e: SrcEntry) -> EntryView {
    if e.names_dir() {
        EntryView { path: e.path@, is_dir: true, sha: commit, size: None }
    } else {
        EntryView { path: e.path@, is_dir: false, sha: content_id(commit, e.path@), size: e.size }
    }
}

/// Entries of a directory as entries of the tree at a commit.
pub open spec fn all_pinned(commit: Seq<char>, entries: Seq<SrcEntry>) -> Seq<EntryView> {
    entries.map_values(|e: SrcEntry| pinned(commit, e))
}

/// The paths of the directories among entries, in order.
pub open spec fn dirs_of(entries: Seq<SrcEntry>) -> Seq<Seq<char>>
    decreases entries.len(),
{
    if entries.len() == 0 {
        Seq::empty()
    } else if entries.last().names_dir() {
        dirs_of(entries.drop_last()).push(entries.last().path@)
    } else {
        dirs_of(entries.drop_last())
    }
}

/// How many entries a walk that has `taken` so many still takes.
pub open spec fn room(taken: nat) -> int {
    if taken >= TREE_ENTRY_CAP {
        0
    } else {
        TREE_ENTRY_CAP - taken
    }
}

/// A walk begins at the root.
pub open spec fn walk_from_root(full_name: Seq<char>, commit: Seq<char>) -> WalkView {
    WalkView {
        full_name,
        commit,
        out: Seq::empty(),
        queue: Seq::empty(),
        dir: dir_listing(full_name, commit, Seq::empty()),
    }
}

/// A directory has been listed: its entries follow those before, and its
/// directories are listed after those found before. Where there is no room for
/// all of the entries, the walk ends.
pub open spec fn walk_listed(
    full_name: Seq<char>,
    commit: Seq<char>,
    out: Seq<EntryView>,
    queue: Seq<Seq<char>>,
    entries: Seq<SrcEntry>,
) -> StepView<WalkView, ListingView> {
    let room = room(out.len());
    if entries.len() > room {
        StepView::Done(
            ListingView {
                entries: out + all_pinned(commit, entries.take(room)),
                truncated: true,
            },
        )
    } else {
        let out = out + all_pinned(commit, entries);
        let queue = queue + dirs_of(entries);
        if queue.len() == 0 {
            StepView::Done(ListingView { entries: out, truncated: false })
        } else {
            StepView::More(
                WalkView {
                    full_name,
                    commit,
                    out,
                    queue: queue.drop_first(),
                    dir: dir_listing(full_name, commit, queue[0]),
                },
            )
        }
    }
}

/// A page of the directory that is being listed comes in.
pub open spec fn walk_fed(
    w: WalkView,
    values: Seq<SrcEntry>,
    next: Option<Seq<char>>,
) -> StepView<WalkView, ListingView> {
    match gather(w.dir, values, next) {
        StepView::More(dir) => StepView::More(WalkView { dir, ..w }),
        StepView::Done(all) => walk_listed(w.full_name, w.commit, w.out, w.queue, all.values),
        StepView::Failed(e) => StepView::Failed(e),
    }
}

fn src_dir(full_name: &str, commit: &str, path: &str) -> (r: Paging<SrcEntry>)
    ensures
        r@ == dir_listing(full_name@, commit@, path@),
{
    let suffix = if path.is_empty() {
        String::new()
    } else {
        text::trim_end(path, '/').concat("/")
    };
    let first = "/2.0/repositories/".to_owned().concat(full_name).concat("/src/").concat(
        commit,
    ).concat("/").concat(suffix.as_str()).concat("?format=entries&pagelen=100");
    Paging::new(first, DIR_CAP)
}

impl TreeWalk {
    /// Begins at the root.
    pub fn from_root(full_name: &str, commit: &str) -> (r: TreeWalk)
        ensures
            r@ == walk_from_root(full_name@, commit@),
    {
        let r = TreeWalk {
            full_name: full_name.to_owned(),
            commit: commit.to_owned(),
            out: Vec::new(),
            queue: VecDeque::new(),
            dir: src_dir(full_name, commit, String::new().as_str()),
        };
        assert(r@.out =~= Seq::empty());
        assert(r@.queue =~= Seq::empty());
        r
    }

    /// Takes the next page of the directory that is being listed.
    pub fn feed(self, page: Paged<SrcEntry>) -> (r: Step<TreeWalk, Listing>)
        ensures
            r@ == walk_fed(self@, page.values@, string_opt(page.next)),
    {
        match self.dir.feed(page) {
            Step::More(dir) => Step::More(
                TreeWalk {
                    full_name: self.full_name,
                    commit: self.commit,
                    out: self.out,
                    queue: self.queue,
                    dir,
                },
            ),
            Step::Done(all) => TreeWalk::take_listing(
                self.full_name,
                self.commit,
                self.out,
                self.queue,
                all.values,
            ),
            Step::Failed(e) => Step::Failed(e),
        }
    }

    fn take_listing(
        full_name: String,
        commit: String,
        taken: Vec<TreeEntry>,
        pending: VecDeque<String>,
        entries: Vec<SrcEntry>,
    ) -> (r: Step<TreeWalk, Listing>)
        ensures
            r@ == walk_listed(
                full_name@,
                commit@,
                entries_view(taken@),
                text::texts(pending@),
                entries@,
            ),
    {
        let mut out = taken;
        let mut queue = pending;
        let ghost out0 = entries_view(out@);
        let ghost queue0 = text::texts(queue@);
        let mut i: usize = 0;
        assert(out0 + all_pinned(commit@, entries@.take(0)) =~= out0);
        assert(queue0 + dirs_of(entries@.take(0)) =~= queue0);
        while i < entries.len()
            invariant
                i <= entries@.len(),
                i <= room(out0.len()),
                out0 == entries_view(taken@),
                queue0 == text::texts(pending@),
                entries_view(out@) == out0 + all_pinned(commit@, entries@.take(i as int)),
                text::texts(queue@) == queue0 + dirs_of(entries@.take(i as int)),
            decreases entries@.len() - i,
        {
            if out.len() >= TREE_ENTRY_CAP {
                assert(entries_view(out@).len() == out0.len() + i);
                assert(i == room(out0.len()));
                return Step::Done(Listing { entries: out, truncated: true });
            }
            assert(entries_view(out@).len() == out0.len() + i);
            let ghost out1 = entries_view(out@);
            let ghost queue1 = text::texts(queue@);
            let entry = &entries[i];
            let path = entry.path.clone();
            if entry.is_dir() {
                queue.push_back(path.clone());
                assert(text::texts(queue@) =~= queue1.push(path@));
                out.push(TreeEntry { path, is_dir: true, sha: commit.clone(), size: None });
            } else {
                let sha = mint(commit.as_str(), path.as_str());
                out.push(TreeEntry { path, is_dir: false, sha, size: entry.size });
            }
            proof {
                let done = entries@.take(i as int);
                let more = entries@.take(i + 1);
                assert(more.drop_last() =~= done);
                assert(more.last() == entries@[i as int]);
                assert(entries_view(out@) =~= out1.push(pinned(commit@, entries@[i as int])));
                assert(all_pinned(commit@, more) =~= all_pinned(commit@, done).push(
                    pinned(commit@, entries@[i as int]),
                ));
                assert(entries_view(out@) =~= out0 + all_pinned(commit@, more));
                assert(text::texts(queue@) =~= queue0 + dirs_of(more));
            }
            i += 1;
        }
        assert(entries@.take(i as int) =~= entries@);
        let ghost queue1 = text::texts(queue@);
        match queue.pop_front() {
            Some(dir) => {
                assert(text::texts(queue@) =~= queue1.drop_first());
                let dir = src_dir(full_name.as_str(), commit.as_str(), dir.as_str());
                Step::More(TreeWalk { full_name, commit, out, queue, dir })
            },
            None => Step::Done(Listing { entries: out, truncated: false }),
        }
    }
}

/// An entry is pinned to a commit: a file carries its content id, a directory
/// the commit itself.
pub open spec fn pinned_to(commit: Seq<char>, e: EntryView) -> bool {
    if e.is_dir {
        e.sha == commit && e.size is None
    } else {
        e.sha == content_id(commit, e.path)
    }
}

/// No more entries than the cap, all of them pinned to the commit.
pub open spec fn sound(commit: Seq<char>, entries: Seq<EntryView>) -> bool {
    &&& entries.len() <= TREE_ENTRY_CAP
    &&& forall|i: int| 0 <= i < entries.len() ==> pinned_to(commit, #[trigger] entries[i])
}

/// A walk begins with a sound listing.
pub proof fn walks_begin_sound(full_name: Seq<char>, commit: Seq<char>)
    ensures
        sound(commit, walk_from_root(full_name, commit).out),
{
}

/// Whatever pages come in, a walk's entries stay within the cap and pinned to
/// the commit that the walk is for. A listing is truncated only where the cap
/// is reached.
pub proof fn walks_stay_sound(w: WalkView, values: Seq<SrcEntry>, next: Option<Seq<char>>)
    requires
        sound(w.commit, w.out),
    ensures
        match walk_fed(w, values, next) {
            StepView::More(after) => after.commit == w.commit && after.full_name == w.full_name
                && sound(w.commit, after.out),
            StepView::Done(listing) => sound(w.commit, listing.entries) && (listing.truncated
                ==> listing.entries.len() == TREE_ENTRY_CAP),
            StepView::Failed(_) => false,
        },
{
    match gather(w.dir, values, next) {
        StepView::Done(all) => {
            let room = room(w.out.len());
            let taken = if all.values.len() > room {
                all.values.take(room)
            } else {
                all.values
            };
            let out = w.out + all_pinned(w.commit, taken);
            assert forall|i: int| 0 <= i < out.len() implies pinned_to(
                w.commit,
                #[trigger] out[i],
            ) by {
                if i < w.out.len() {
                    assert(out[i] == w.out[i]);
                } else {
                    assert(out[i] == pinned(w.commit, taken[i - w.out.len()]));
                }
            }
        },
        _ => {},
    }
}

/// Where the head has moved to another commit, every file's id has moved: no
/// content id of one commit is one of another. Commit hashes hold no colon.
pub proof fn ids_move_with_the_head(
    commit: Seq<char>,
    e: EntryView,
    other_commit: Seq<char>,
    other: EntryView,
)
    requires
        commit != other_commit,
        !commit.contains(':'),
        !other_commit.contains(':'),
        pinned_to(commit, e) && !e.is_dir,
        pinned_to(other_commit, other) && !other.is_dir,
    ensures
        e.sha != other.sha,
{
    if e.sha == other.sha {
        content_ids_differ(commit, e.path, other_commit, other.path);
    }
}

/// The paths of the directories among a tree's entries, in order.
pub open spec fn dirs_among(entries: Seq<EntryView>) -> Seq<Seq<char>>
    decreases entries.len(),
{
    if entries.len() == 0 {
        Seq::empty()
    } else if entries.last().is_dir {
        dirs_among(entries.drop_last()).push(entries.last().path)
    } else {
        dirs_among(entries.drop_last())
    }
}

proof fn dirs_follow(out: Seq<EntryView>, commit: Seq<char>, entries: Seq<SrcEntry>)
    ensures
        dirs_among(out + all_pinned(commit, entries)) == dirs_among(out) + dirs_of(entries),
    decreases entries.len(),
{
    let whole = out + all_pinned(commit, entries);
    if entries.len() == 0 {
        assert(whole =~= out);
        assert(dirs_among(out) + dirs_of(entries) =~= dirs_among(out));
    } else {
        let before = entries.drop_last();
        assert(whole.drop_last() =~= out + all_pinned(commit, before));
        assert(whole.last() == pinned(commit, entries.last()));
        dirs_follow(out, commit, before);
        if entries.last().names_dir() {
            assert(dirs_among(whole) =~= dirs_among(out) + dirs_of(entries));
        }
    }
}

/// The directories that were listed, the one that is being listed and those
/// still to be listed are the root and the directories found so far, each once
/// and in the order in which they were found.
pub open spec fn accounted(w: WalkView, listed: Seq<Seq<char>>, current: Seq<char>) -> bool {
    listed.push(current) + w.queue == seq![Seq::<char>::empty()] + dirs_among(w.out)
}

/// A walk begins with the root.
pub proof fn walks_begin_at_the_root(full_name: Seq<char>, commit: Seq<char>)
    ensures
        accounted(walk_from_root(full_name, commit), Seq::empty(), Seq::empty()),
        walk_from_root(full_name, commit).dir == dir_listing(full_name, commit, Seq::empty()),
{
    let w = walk_from_root(full_name, commit);
    assert(Seq::<Seq<char>>::empty().push(Seq::empty()) + w.queue =~= seq![Seq::<char>::empty()]
        + dirs_among(w.out));
}

/// Every directory that a walk takes into its listing is listed in turn, once
/// and in the order in which it was found: further pages are those of the current directory, after which
/// the next directory is listed, and a listing that is not truncated ends only
/// when all of its directories have been listed.
pub proof fn walks_list_every_directory(
    w: WalkView,
    listed: Seq<Seq<char>>,
    current: Seq<char>,
    values: Seq<SrcEntry>,
    next: Option<Seq<char>>,
)
    requires
        accounted(w, listed, current),
    ensures
        match walk_fed(w, values, next) {
            StepView::More(after) => {
                ||| accounted(after, listed, current) && next == Some(after.dir.next)
                ||| exists|dir: Seq<char>|
                    accounted(after, listed.push(current), dir) && after.dir == #[trigger] dir_listing(
                        w.full_name,
                        w.commit,
                        dir,
                    )
            },
            StepView::Done(listing) => !listing.truncated ==> listed.push(current) == seq![
                Seq::<char>::empty(),
            ] + dirs_among(listing.entries),
            StepView::Failed(_) => false,
        },
{
    match gather(w.dir, values, next) {
        StepView::Done(all) => {
            if all.values.len() <= room(w.out.len()) {
                let out = w.out + all_pinned(w.commit, all.values);
                let queue = w.queue + dirs_of(all.values);
                dirs_follow(w.out, w.commit, all.values);
                let root = seq![Seq::<char>::empty()];
                assert(listed.push(current) + queue =~= root + dirs_among(out)) by {
                    assert(listed.push(current) + queue =~= (listed.push(current) + w.queue)
                        + dirs_of(all.values));
                    assert(root + dirs_among(out) =~= (root + dirs_among(w.out)) + dirs_of(
                        all.values,
                    ));
                }
                if queue.len() == 0 {
                    assert(listed.push(current) + queue =~= listed.push(current));
                } else {
                    let dir = queue[0];
                    let after = walk_fed(w, values, next)->More_0;
                    assert(listed.push(current).push(dir) + queue.drop_first() =~= listed.push(
                        current,
                    ) + queue);
                    assert(accounted(after, listed.push(current), dir));
                    assert(after.dir == dir_listing(w.full_name, w.commit, dir));
                }
            }
        },
        _ => {},
    }
}

/// A walk lists a directory with the cap that directories have, within the bounds
/// of a listing.
pub open spec fn in_progress(w: WalkView) -> bool {
    w.dir.cap == DIR_CAP && sound(w.commit, w.out)
}

/// Directories are taken whole: as long as a walk goes on, and where it ends
/// untruncated, the entries of every page are in the listing, in order. Where
/// some had to be left out, the listing is truncated.
pub proof fn directories_are_taken_whole(
    w: WalkView,
    values: Seq<SrcEntry>,
    next: Option<Seq<char>>,
)
    requires
        in_progress(w),
    ensures
        match walk_fed(w, values, next) {
            StepView::More(after) => {
                &&& in_progress(after)
                &&& after.commit == w.commit
                &&& match next {
                    Some(_) => after.out == w.out && after.dir.out == w.dir.out + values,
                    None => after.out == w.out + all_pinned(w.commit, w.dir.out + values)
                        && after.dir.out == Seq::<SrcEntry>::empty(),
                }
            },
            StepView::Done(listing) => !listing.truncated ==> next is None && listing.entries
                == w.out + all_pinned(w.commit, w.dir.out + values),
            StepView::Failed(_) => false,
        },
{
    walks_stay_sound(w, values, next);
}

/// Page after page comes in, as long as another is asked for.
pub open spec fn walk_pages(w: WalkView, pages: Seq<PageOf<SrcEntry>>) -> StepView<
    WalkView,
    ListingView,
>
    decreases pages.len(),
{
    if pages.len() == 0 {
        StepView::More(w)
    } else {
        match walk_fed(w, pages[0].values, pages[0].next) {
            StepView::More(after) => walk_pages(after, pages.drop_first()),
            done => done,
        }
    }
}

proof fn pages_add_up(w: WalkView, pages: Seq<PageOf<SrcEntry>>)
    requires
        in_progress(w),
        pages.len() > 0,
        walk_pages(w, pages.drop_last()) is More,
    ensures
        walk_pages(w, pages) matches StepView::Done(listing) ==> !listing.truncated
            ==> listing.entries == w.out + all_pinned(w.commit, w.dir.out + values_of(pages)),
    decreases pages.len(),
{
    let rest = pages.drop_first();
    directories_are_taken_whole(w, pages[0].values, pages[0].next);
    if pages.len() == 1 {
        assert(rest =~= Seq::<PageOf<SrcEntry>>::empty());
        assert(values_of(rest) =~= Seq::<SrcEntry>::empty());
        assert(values_of(pages) =~= pages[0].values);
    } else {
        let first = pages.drop_last();
        assert(first[0] == pages[0]);
        assert(first.drop_first() =~= rest.drop_last());
        if let StepView::More(after) = walk_fed(w, pages[0].values, pages[0].next) {
            pages_add_up(after, rest);
            let sofar = w.dir.out + pages[0].values;
            let later = values_of(rest);
            assert(w.dir.out + values_of(pages) =~= sofar + later);
            assert(all_pinned(w.commit, sofar + later) =~= all_pinned(w.commit, sofar)
                + all_pinned(w.commit, later));
            if pages[0].next is None {
                assert(after.dir.out + later =~= later);
                assert(w.out + all_pinned(w.commit, sofar + later) =~= after.out + all_pinned(
                    w.commit,
                    later,
                ));
            }
        }
    }
}

/// A walk leaves nothing out unless it says so: where the last of these pages
/// ends it untruncated, the listing is the entries of all the pages, in order.
pub proof fn untruncated_walks_are_complete(
    full_name: Seq<char>,
    commit: Seq<char>,
    pages: Seq<PageOf<SrcEntry>>,
)
    requires
        pages.len() > 0,
        walk_pages(walk_from_root(full_name, commit), pages.drop_last()) is More,
    ensures
        walk_pages(walk_from_root(full_name, commit), pages) matches StepView::Done(listing)
            ==> !listing.truncated ==> listing.entries == all_pinned(commit, values_of(pages)),
{
    let w = walk_from_root(full_name, commit);
    walks_begin_sound(full_name, commit);
    pages_add_up(w, pages);
    assert(w.dir.out + values_of(pages) =~= values_of(pages));
    assert(w.out + all_pinned(commit, values_of(pages)) =~= all_pinned(commit, values_of(pages)));
}

}
