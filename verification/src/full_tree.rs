//! What a walk arrives at: unless its listing is truncated, it is the full
//! recursive tree. A forge is modelled by what each directory holds; the root is
//! the empty path.

use crate::api::SrcEntry;
use crate::exchange::StepView;
use crate::paging::PageOf;
use crate::walk::{
    all_pinned, dir_listing, directories_are_taken_whole, dirs_of, in_progress, walk_fed,
    walk_from_root, walk_pages, walks_begin_sound, ListingView, WalkView,
};
use vstd::prelude::*;

verus! {

/// The entries that each directory of a repository holds at a commit.
pub type Forge = spec_fn(Seq<char>) -> Seq<SrcEntry>;

/// The path of the root.
pub open spec fn root() -> Seq<char> {
    Seq::empty()
}

/// The directory that a walk lists once the current one ends with these values.
pub open spec fn next_dir(w: WalkView, values: Seq<SrcEntry>) -> Seq<char> {
    (w.queue + dirs_of(w.dir.out + values))[0]
}

/// That directory is the one whose first page is asked for next.
pub proof fn next_directories_are_asked_for(w: WalkView, values: Seq<SrcEntry>)
    requires
        in_progress(w),
    ensures
        walk_fed(w, values, None) matches StepView::More(after) ==> after.dir == dir_listing(
            w.full_name,
            w.commit,
            next_dir(w, values),
        ),
{
    directories_are_taken_whole(w, values, None);
}

/// The pages that answer a walk, which is listing `current`, are the forge's: the
/// pages of a directory, up to the one that leads to no other, hold what the
/// directory holds.
pub open spec fn faithful(
    forge: Forge,
    w: WalkView,
    current: Seq<char>,
    pages: Seq<PageOf<SrcEntry>>,
) -> bool
    decreases pages.len(),
{
    pages.len() > 0 ==> {
        let page = pages[0];
        &&& page.next is None ==> w.dir.out + page.values == forge(current)
        &&& walk_fed(w, page.values, page.next) matches StepView::More(after) ==> faithful(
            forge,
            after,
            if page.next is Some {
                current
            } else {
                next_dir(w, page.values)
            },
            pages.drop_first(),
        )
    }
}

/// What directories hold, one after another.
pub open spec fn contents(forge: Forge, dirs: Seq<Seq<char>>) -> Seq<SrcEntry>
    decreases dirs.len(),
{
    if dirs.len() == 0 {
        Seq::empty()
    } else {
        contents(forge, dirs.drop_last()) + forge(dirs.last())
    }
}

/// The directories begin with the root, and each further one was found in those
/// before it, in this order.
pub open spec fn founded(forge: Forge, dirs: Seq<Seq<char>>) -> bool {
    &&& dirs.len() > 0
    &&& dirs[0] == root()
    &&& forall|k: int|
        1 <= k < dirs.len() ==> {
            let found = dirs_of(contents(forge, #[trigger] dirs.take(k)));
            k <= found.len() && dirs[k] == found[k - 1]
        }
}

/// The root and all the directories that are found in it and in one another.
pub open spec fn all_dirs(forge: Forge, dirs: Seq<Seq<char>>) -> bool {
    founded(forge, dirs) && dirs == seq![root()] + dirs_of(contents(forge, dirs))
}

/// A directory's entry, and an entry that the directory holds.
pub open spec fn holds(forge: Forge, dir: SrcEntry, e: SrcEntry) -> bool {
    dir.names_dir() && forge(dir.path@).contains(e)
}

/// The chain begins in the root, and each of its entries holds the next.
pub open spec fn leads(forge: Forge, chain: Seq<SrcEntry>) -> bool
    decreases chain.len(),
{
    if chain.len() == 0 {
        false
    } else if chain.len() == 1 {
        forge(root()).contains(chain[0])
    } else {
        let before = chain.drop_last();
        leads(forge, before) && holds(forge, before.last(), chain.last())
    }
}

/// A file or directory that can be reached from the root.
pub open spec fn reachable(forge: Forge, e: SrcEntry) -> bool {
    exists|chain: Seq<SrcEntry>| #[trigger] leads(forge, chain) && chain.last() == e
}

/// Every path is listed once, in one directory, and none is the root's.
pub open spec fn lists_each_path_once(forge: Forge) -> bool {
    &&& forall|c: Seq<char>, i: int, d: Seq<char>, k: int|
        #![trigger forge(c)[i], forge(d)[k]]
        0 <= i < forge(c).len() && 0 <= k < forge(d).len() && forge(c)[i].path@ == forge(d)[k].path@
            ==> c == d && i == k
    &&& forall|d: Seq<char>, k: int|
        0 <= k < forge(d).len() ==> (#[trigger] forge(d)[k]).path@ != root()
}

proof fn dirs_of_both(a: Seq<SrcEntry>, b: Seq<SrcEntry>)
    ensures
        dirs_of(a + b) == dirs_of(a) + dirs_of(b),
    decreases b.len(),
{
    if b.len() == 0 {
        assert(a + b =~= a);
        assert(dirs_of(a) + dirs_of(b) =~= dirs_of(a));
    } else {
        assert((a + b).drop_last() =~= a + b.drop_last());
        dirs_of_both(a, b.drop_last());
        assert(dirs_of(a + b) =~= dirs_of(a) + dirs_of(b));
    }
}

/// A walk that has listed `listed` and is listing `current` of a forge.
spec fn underway(forge: Forge, w: WalkView, listed: Seq<Seq<char>>, current: Seq<char>) -> bool {
    &&& in_progress(w)
    &&& w.out == all_pinned(w.commit, contents(forge, listed))
    &&& listed.push(current) + w.queue == seq![root()] + dirs_of(contents(forge, listed))
    &&& founded(forge, listed.push(current))
}

proof fn directory_done(
    forge: Forge,
    w: WalkView,
    listed: Seq<Seq<char>>,
    current: Seq<char>,
    values: Seq<SrcEntry>,
)
    requires
        underway(forge, w, listed, current),
        w.dir.out + values == forge(current),
    ensures
        match walk_fed(w, values, None) {
            StepView::More(after) => after.commit == w.commit && underway(
                forge,
                after,
                listed.push(current),
                next_dir(w, values),
            ),
            StepView::Done(listing) => !listing.truncated ==> all_dirs(forge, listed.push(current))
                && listing.entries == all_pinned(
                w.commit,
                contents(forge, listed.push(current)),
            ),
            StepView::Failed(_) => false,
        },
{
    directories_are_taken_whole(w, values, None);
    let done = listed.push(current);
    let held = forge(current);
    let before = contents(forge, listed);
    let queue = w.queue + dirs_of(held);
    assert(done.drop_last() =~= listed);
    assert(contents(forge, done) == before + held);
    assert(all_pinned(w.commit, before + held) =~= all_pinned(w.commit, before) + all_pinned(
        w.commit,
        held,
    ));
    dirs_of_both(before, held);
    assert(done + queue =~= seq![root()] + dirs_of(contents(forge, done))) by {
        assert(done + queue =~= (done + w.queue) + dirs_of(held));
        assert(seq![root()] + dirs_of(contents(forge, done)) =~= (seq![root()] + dirs_of(before))
            + dirs_of(held));
    }
    match walk_fed(w, values, None) {
        StepView::More(after) => {
            let next = next_dir(w, values);
            let more = done.push(next);
            assert(more + queue.drop_first() =~= done + queue);
            assert forall|k: int| 1 <= k < more.len() implies {
                let found = dirs_of(contents(forge, #[trigger] more.take(k)));
                k <= found.len() && more[k] == found[k - 1]
            } by {
                if k < done.len() {
                    assert(more.take(k) =~= done.take(k));
                } else {
                    assert(more.take(k) =~= done);
                    let all = seq![root()] + dirs_of(contents(forge, done));
                    assert((done + queue)[k] == next);
                    assert(all[k] == dirs_of(contents(forge, done))[k - 1]);
                }
            }
        },
        StepView::Done(listing) => {
            if !listing.truncated {
                assert(done + queue =~= done);
            }
        },
        _ => {},
    }
}

proof fn walk_ends_full(
    forge: Forge,
    w: WalkView,
    listed: Seq<Seq<char>>,
    current: Seq<char>,
    pages: Seq<PageOf<SrcEntry>>,
) -> (dirs: Seq<Seq<char>>)
    requires
        underway(forge, w, listed, current),
        faithful(forge, w, current, pages),
    ensures
        walk_pages(w, pages) matches StepView::Done(listing) ==> !listing.truncated ==> all_dirs(
            forge,
            dirs,
        ) && listing.entries == all_pinned(w.commit, contents(forge, dirs)),
    decreases pages.len(),
{
    if pages.len() == 0 {
        listed
    } else {
        let page = pages[0];
        let rest = pages.drop_first();
        directories_are_taken_whole(w, page.values, page.next);
        if page.next is None {
            directory_done(forge, w, listed, current, page.values);
        }
        match walk_fed(w, page.values, page.next) {
            StepView::More(after) => if page.next is Some {
                walk_ends_full(forge, after, listed, current, rest)
            } else {
                walk_ends_full(forge, after, listed.push(current), next_dir(w, page.values), rest)
            },
            _ => listed.push(current),
        }
    }
}

/// Where the contents of the `k`th directory begin.
spec fn start(forge: Forge, dirs: Seq<Seq<char>>, k: int) -> int {
    contents(forge, dirs.take(k)).len() as int
}

proof fn contents_of_one(forge: Forge, dirs: Seq<Seq<char>>, k: int)
    requires
        0 <= k < dirs.len(),
    ensures
        start(forge, dirs, k) + forge(dirs[k]).len() <= contents(forge, dirs).len(),
        contents(forge, dirs).take(start(forge, dirs, k)) == contents(forge, dirs.take(k)),
        forall|i: int|
            0 <= i < forge(dirs[k]).len() ==> contents(forge, dirs)[start(forge, dirs, k) + i]
                == #[trigger] forge(dirs[k])[i],
    decreases dirs.len(),
{
    let before = dirs.drop_last();
    let n = start(forge, dirs, k);
    if k == dirs.len() - 1 {
        assert(dirs.take(k) =~= before);
        assert(contents(forge, dirs).take(n) =~= contents(forge, before));
    } else {
        assert(before.take(k) =~= dirs.take(k));
        contents_of_one(forge, before, k);
        assert(contents(forge, dirs).take(n) =~= contents(forge, before).take(n));
        assert forall|i: int| 0 <= i < forge(dirs[k]).len() implies contents(forge, dirs)[n + i]
            == #[trigger] forge(dirs[k])[i] by {
            assert(before[k] == dirs[k]);
            assert(contents(forge, before)[n + i] == forge(before[k])[i]);
        }
    }
}

proof fn holder_of(forge: Forge, dirs: Seq<Seq<char>>, i: int) -> (k: int)
    requires
        0 <= i < contents(forge, dirs).len(),
    ensures
        0 <= k < dirs.len(),
        start(forge, dirs, k) <= i < start(forge, dirs, k) + forge(dirs[k]).len(),
        contents(forge, dirs)[i] == forge(dirs[k])[i - start(forge, dirs, k)],
    decreases dirs.len(),
{
    let before = dirs.drop_last();
    let n = contents(forge, before).len();
    if i < n {
        let k = holder_of(forge, before, i);
        assert(before.take(k) =~= dirs.take(k));
        k
    } else {
        assert(dirs.take(dirs.len() - 1) =~= before);
        dirs.len() - 1
    }
}

proof fn entry_of_dir(entries: Seq<SrcEntry>, d: int) -> (j: int)
    requires
        0 <= d < dirs_of(entries).len(),
    ensures
        0 <= j < entries.len(),
        entries[j].names_dir(),
        entries[j].path@ == dirs_of(entries)[d],
        dirs_of(entries.take(j)).len() == d,
    decreases entries.len(),
{
    let before = entries.drop_last();
    if d < dirs_of(before).len() {
        let j = entry_of_dir(before, d);
        assert(before.take(j) =~= entries.take(j));
        j
    } else {
        assert(entries.take(entries.len() - 1) =~= before);
        entries.len() - 1
    }
}

proof fn dir_of_entry(entries: Seq<SrcEntry>, j: int) -> (d: int)
    requires
        0 <= j < entries.len(),
        entries[j].names_dir(),
    ensures
        0 <= d < dirs_of(entries).len(),
        dirs_of(entries)[d] == entries[j].path@,
    decreases entries.len(),
{
    if j < entries.len() - 1 {
        let before = entries.drop_last();
        assert(before[j] == entries[j]);
        dir_of_entry(before, j)
    } else {
        dirs_of(entries).len() - 1
    }
}

proof fn chains_end_inside(forge: Forge, dirs: Seq<Seq<char>>, chain: Seq<SrcEntry>)
    requires
        all_dirs(forge, dirs),
        leads(forge, chain),
    ensures
        contents(forge, dirs).contains(chain.last()),
    decreases chain.len(),
{
    let all = contents(forge, dirs);
    let e = chain.last();
    let k = if chain.len() == 1 {
        0
    } else {
        let before = chain.drop_last();
        let dir = before.last();
        chains_end_inside(forge, dirs, before);
        let j = choose|j: int| 0 <= j < all.len() && all[j] == dir;
        1 + dir_of_entry(all, j)
    };
    let held = forge(dirs[k]);
    assert(held.contains(e));
    let i = choose|i: int| 0 <= i < held.len() && held[i] == e;
    contents_of_one(forge, dirs, k);
    assert(forge(dirs[k])[i] == e);
    assert(all[start(forge, dirs, k) + i] == e);
}

/// An entry is held by the root, or by a directory whose own entry stands before
/// it.
pub open spec fn follows_its_dir(forge: Forge, entries: Seq<SrcEntry>, i: int) -> bool {
    ||| forge(root()).contains(entries[i])
    ||| exists|j: int|
        0 <= j < i && #[trigger] holds(forge, entries[j], entries[i])
}

proof fn entries_follow_their_dirs(forge: Forge, dirs: Seq<Seq<char>>, i: int)
    requires
        founded(forge, dirs),
        0 <= i < contents(forge, dirs).len(),
    ensures
        follows_its_dir(forge, contents(forge, dirs), i),
{
    let all = contents(forge, dirs);
    let k = holder_of(forge, dirs, i);
    assert(forge(dirs[k])[i - start(forge, dirs, k)] == all[i]);
    assert(forge(dirs[k]).contains(all[i]));
    if k > 0 {
        let before = contents(forge, dirs.take(k));
        let j = entry_of_dir(before, k - 1);
        contents_of_one(forge, dirs, k);
        assert(all.take(start(forge, dirs, k))[j] == all[j]);
        assert(before[j] == all[j]);
        assert(all[j].path@ == dirs[k]);
        assert(holds(forge, all[j], all[i]));
    }
}

proof fn entries_are_reachable(forge: Forge, dirs: Seq<Seq<char>>, i: int) -> (chain: Seq<SrcEntry>)
    requires
        founded(forge, dirs),
        0 <= i < contents(forge, dirs).len(),
    ensures
        leads(forge, chain),
        chain.last() == contents(forge, dirs)[i],
    decreases i,
{
    let all = contents(forge, dirs);
    entries_follow_their_dirs(forge, dirs, i);
    if forge(root()).contains(all[i]) {
        seq![all[i]]
    } else {
        let j = choose|j: int| 0 <= j < i && #[trigger] holds(forge, all[j], all[i]);
        let before = entries_are_reachable(forge, dirs, j);
        let chain = before.push(all[i]);
        assert(chain.drop_last() =~= before);
        chain
    }
}

/// No two entries have the same path.
pub open spec fn paths_differ(entries: Seq<SrcEntry>) -> bool {
    forall|i: int, j: int|
        0 <= i < j < entries.len() ==> (#[trigger] entries[i]).path@ != (
        #[trigger] entries[j]).path@
}

proof fn paths_stay_different(forge: Forge, dirs: Seq<Seq<char>>, n: int)
    requires
        founded(forge, dirs),
        lists_each_path_once(forge),
        0 <= n <= dirs.len(),
    ensures
        paths_differ(contents(forge, dirs.take(n))),
        forall|c: int, d: int| 0 <= c < d < n ==> #[trigger] dirs[c] != #[trigger] dirs[d],
    decreases n,
{
    if n > 0 {
        let k = n - 1;
        paths_stay_different(forge, dirs, k);
        let before = dirs.take(k);
        let old_all = contents(forge, before);
        assert forall|c: int| 0 <= c < k implies #[trigger] dirs[c] != dirs[k] by {
            let j = entry_of_dir(old_all, k - 1);
            let h = holder_of(forge, before, j);
            assert(forge(before[h])[j - start(forge, before, h)].path@ == dirs[k]);
            if c > 0 {
                assert(dirs.take(c) =~= before.take(c));
                contents_of_one(forge, before, c);
                let m = entry_of_dir(contents(forge, dirs.take(c)), c - 1);
                assert(old_all.take(start(forge, before, c))[m] == old_all[m]);
                let prefix = old_all.take(start(forge, before, c));
                assert(prefix == contents(forge, dirs.take(c)));
                assert(prefix.take(m) =~= old_all.take(m));
                assert(dirs_of(old_all.take(m)).len() == c - 1);
                assert(dirs_of(old_all.take(j)).len() == k - 1);
                assert(m != j);
                assert(old_all[m].path@ == dirs[c]);
                assert(old_all[j].path@ == dirs[k]);
            }
        }
        let all = contents(forge, dirs.take(n));
        assert(dirs.take(n).drop_last() =~= before);
        assert(dirs.take(n).last() == dirs[k]);
        assert(all == old_all + forge(dirs[k]));
        assert forall|i: int, j: int| 0 <= i < j < all.len() implies (#[trigger] all[i]).path@ != (
        #[trigger] all[j]).path@ by {
            let m = old_all.len();
            if j < m {
                assert(all[i] == old_all[i] && all[j] == old_all[j]);
            } else {
                assert(all[j] == forge(dirs[k])[j - m]);
                if i < m {
                    let h = holder_of(forge, before, i);
                    assert(all[i] == old_all[i]);
                    assert(all[i] == forge(before[h])[i - start(forge, before, h)]);
                    assert(before[h] == dirs[h]);
                    assert(dirs[h] != dirs[k]);
                } else {
                    assert(all[i] == forge(dirs[k])[i - m]);
                }
            }
        }
    }
}

/// A walk that a forge answers is the forge's full recursive tree, unless its
/// listing is truncated: `all` are the entries of the listing before they were
/// pinned to the commit. They are the files and directories that can be reached
/// from the root, all of them and no others, and every one follows the entry of
/// the directory that holds it. Where the forge lists each path once, each path
/// is that of one entry.
pub proof fn untruncated_listings_are_full_trees(
    forge: Forge,
    full_name: Seq<char>,
    commit: Seq<char>,
    pages: Seq<PageOf<SrcEntry>>,
    listing: ListingView,
) -> (all: Seq<SrcEntry>)
    requires
        faithful(forge, walk_from_root(full_name, commit), root(), pages),
        walk_pages(walk_from_root(full_name, commit), pages) == StepView::<
            WalkView,
            ListingView,
        >::Done(listing),
        !listing.truncated,
    ensures
        listing.entries == all_pinned(commit, all),
        forall|e: SrcEntry| #[trigger] reachable(forge, e) <==> all.contains(e),
        forall|i: int| 0 <= i < all.len() ==> #[trigger] follows_its_dir(forge, all, i),
        lists_each_path_once(forge) ==> paths_differ(all),
{
    let w = walk_from_root(full_name, commit);
    let none = Seq::<Seq<char>>::empty();
    walks_begin_sound(full_name, commit);
    assert(w.out =~= all_pinned(commit, contents(forge, none)));
    assert(none.push(root()) + w.queue =~= seq![root()] + dirs_of(contents(forge, none)));
    let dirs = walk_ends_full(forge, w, none, root(), pages);
    let all = contents(forge, dirs);
    assert forall|e: SrcEntry| #[trigger] reachable(forge, e) implies all.contains(e) by {
        let chain = choose|chain: Seq<SrcEntry>| #[trigger]
            leads(forge, chain) && chain.last() == e;
        chains_end_inside(forge, dirs, chain);
    }
    assert forall|e: SrcEntry| all.contains(e) implies #[trigger] reachable(forge, e) by {
        let i = choose|i: int| 0 <= i < all.len() && all[i] == e;
        let chain = entries_are_reachable(forge, dirs, i);
        assert(leads(forge, chain) && chain.last() == e);
    }
    assert forall|i: int| 0 <= i < all.len() implies #[trigger] follows_its_dir(forge, all, i) by {
        entries_follow_their_dirs(forge, dirs, i);
    }
    if lists_each_path_once(forge) {
        paths_stay_different(forge, dirs, dirs.len() as int);
        assert(dirs.take(dirs.len() as int) =~= dirs);
    }
    all
}

}
