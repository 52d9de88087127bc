//! `repo/tree`: the reply lists the tree, entry by entry.

use super::wire::array_member;
use crate::api::{Paged, SrcEntry};
use crate::cache::{EntryView, Tree};
use crate::exchange::{Answer, StepView};
use crate::full_tree::{
    faithful, lists_each_path_once, paths_differ, reachable, root,
    untruncated_listings_are_full_trees, Forge,
};
use crate::handlers::task::{task_fed, TaskView, TurnView};
use crate::handlers::tree::{
    entry_object, listed_tree, tree_object, PinnedView, RepoTreeView, ServedView, TreeAtView,
};
use crate::json::{bool_member, member, text_member, JsonView};
use crate::paging::{values_of, PageOf};
use crate::text::string_opt;
use crate::walk::{
    all_pinned, directories_are_taken_whole, in_progress, pinned, walk_fed, walk_from_root,
    walk_pages, walks_begin_sound, ListingView, WalkView,
};
use vstd::prelude::*;

verus! {

/// An item shows an entry: its path, whether it is a directory, its id and its
/// size, null where it has none.
pub open spec fn shows_entry(item: JsonView, e: EntryView) -> bool {
    &&& text_member(item, "path"@) == Some(e.path)
    &&& e.is_dir ==> text_member(item, "type"@) == Some("tree"@)
    &&& !e.is_dir ==> text_member(item, "type"@) == Some("blob"@)
    &&& text_member(item, "sha"@) == Some(e.sha)
    &&& e.size matches Some(n) ==> member(item, "size"@) == Some(JsonView::UInt(n))
    &&& e.size is None ==> member(item, "size"@) == Some(JsonView::Null)
}

/// A reply shows a tree: one item for each entry, in order, whether there is
/// more, and the branch or ref that it is of.
pub open spec fn shows_tree(
    v: JsonView,
    entries: Seq<EntryView>,
    truncated: bool,
    branch: Seq<char>,
) -> bool {
    &&& array_member(v, "entries"@) matches Some(items) && {
        &&& items.len() == entries.len()
        &&& forall|i: int| 0 <= i < entries.len() ==> shows_entry(#[trigger] items[i], entries[i])
    }
    &&& bool_member(v, "truncated"@) == Some(truncated)
    &&& text_member(v, "branch"@) == Some(branch)
}

proof fn trees_are_shown(served: ServedView)
    ensures
        shows_tree(
            tree_object(served),
            served.tree.entries,
            served.tree.truncated,
            served.label,
        ),
{
    reveal_strlit("entries");
    reveal_strlit("truncated");
    reveal_strlit("branch");
    assert("entries"@.len() == 7 && "truncated"@.len() == 9 && "branch"@.len() == 6);
    reveal_strlit("path");
    reveal_strlit("type");
    reveal_strlit("sha");
    reveal_strlit("size");
    assert("path"@.len() == 4 && "type"@.len() == 4 && "sha"@.len() == 3 && "size"@.len() == 4);
    assert("path"@[0] == 'p' && "type"@[0] == 't' && "size"@[0] == 's');
    let items = served.tree.entries.map_values(|e: EntryView| entry_object(e));
    assert forall|i: int| 0 <= i < served.tree.entries.len() implies shows_entry(
        #[trigger] items[i],
        served.tree.entries[i],
    ) by {
        assert(items[i] == entry_object(served.tree.entries[i]));
    }
}

/// `repo/tree` whose revision is resolved.
pub open spec fn at_commit(full_name: Seq<char>, retry: bool, pinned: PinnedView) -> TaskView {
    TaskView::RepoTree {
        tree: RepoTreeView::At { full_name, retry, at: TreeAtView::Cached { full_name, pinned } },
    }
}

/// A tree that was kept is shown whole, under the branch or ref that was asked
/// for.
pub proof fn kept_trees_are_shown(
    full_name: Seq<char>,
    retry: bool,
    pinned: PinnedView,
    tree: Tree,
    instance: Seq<char>,
)
    ensures
        ({
            let turn = task_fed(
                at_commit(full_name, retry, pinned),
                Answer::Tree(Some(tree)),
                instance,
            );
            turn matches TurnView::Reply(Ok(v)) && shows_tree(
                v,
                tree@.entries,
                tree.truncated,
                pinned.label,
            )
        }),
{
    trees_are_shown(ServedView { label: pinned.label, tree: tree@ });
}

/// Page after page of directory entries comes in, as long as the method waits.
pub open spec fn walked(turn: TurnView, pages: Seq<Paged<SrcEntry>>, instance: Seq<char>) -> TurnView
    decreases pages.len(),
{
    if pages.len() == 0 {
        turn
    } else {
        match turn {
            TurnView::More(t) => walked(
                task_fed(t, Answer::Entries(Ok(pages[0])), instance),
                pages.drop_first(),
                instance,
            ),
            reply => reply,
        }
    }
}

/// Pages over plain sequences.
pub open spec fn plain(pages: Seq<Paged<SrcEntry>>) -> Seq<PageOf<SrcEntry>> {
    pages.map_values(
        |p: Paged<SrcEntry>| PageOf { values: p.values@, next: string_opt(p.next) },
    )
}

/// `repo/tree` on its walk.
pub open spec fn on_walk(
    full_name: Seq<char>,
    retry: bool,
    pinned: PinnedView,
    walk: WalkView,
) -> TaskView {
    TaskView::RepoTree {
        tree: RepoTreeView::At { full_name, retry, at: TreeAtView::Walk { pinned, walk } },
    }
}

proof fn walks_run(
    full_name: Seq<char>,
    retry: bool,
    pinned: PinnedView,
    walk: WalkView,
    pages: Seq<Paged<SrcEntry>>,
    instance: Seq<char>,
)
    ensures
        ({
            let turn = walked(
                TurnView::More(on_walk(full_name, retry, pinned, walk)),
                pages,
                instance,
            );
            match walk_pages(walk, plain(pages)) {
                StepView::More(after) => turn == TurnView::More(
                    on_walk(full_name, retry, pinned, after),
                ),
                StepView::Done(listing) => turn == TurnView::Reply(
                    Ok(
                        tree_object(
                            ServedView { label: pinned.label, tree: listed_tree(pinned, listing) },
                        ),
                    ),
                ),
                StepView::Failed(_) => true,
            }
        }),
    decreases pages.len(),
{
    let views = plain(pages);
    if pages.len() > 0 {
        let rest = pages.drop_first();
        assert(views.drop_first() =~= plain(rest));
        let turn = task_fed(
            on_walk(full_name, retry, pinned, walk),
            Answer::Entries(Ok(pages[0])),
            instance,
        );
        assert(walked(
            TurnView::More(on_walk(full_name, retry, pinned, walk)),
            pages,
            instance,
        ) == walked(turn, rest, instance));
        match walk_fed(walk, views[0].values, views[0].next) {
            StepView::More(after) => {
                walks_run(full_name, retry, pinned, after, rest, instance);
            },
            StepView::Done(listing) => {
                assert(walked(turn, rest, instance) == turn);
            },
            StepView::Failed(_) => {},
        }
    }
}

/// An item shows what a directory lists at a commit: files are blobs with an id
/// of commit and path and their size, directories are trees with the commit for
/// an id and no size.
pub open spec fn shows_source(item: JsonView, commit: Seq<char>, e: SrcEntry) -> bool {
    &&& text_member(item, "path"@) == Some(e.path@)
    &&& e.kind@ == "commit_directory"@ ==> {
        &&& text_member(item, "type"@) == Some("tree"@)
        &&& text_member(item, "sha"@) == Some(commit)
        &&& member(item, "size"@) == Some(JsonView::Null)
    }
    &&& e.kind@ != "commit_directory"@ ==> {
        &&& text_member(item, "type"@) == Some("blob"@)
        &&& text_member(item, "sha"@) == Some(commit + seq![':'] + e.path@)
        &&& member(item, "size"@) == Some(
            match e.size {
                Some(n) => JsonView::UInt(n),
                None => JsonView::Null,
            },
        )
    }
}

/// A reply shows sources at a commit: one item for each of them, in order.
pub open spec fn shows_sources(
    v: JsonView,
    commit: Seq<char>,
    all: Seq<SrcEntry>,
    truncated: bool,
    branch: Seq<char>,
) -> bool {
    &&& array_member(v, "entries"@) matches Some(items) && {
        &&& items.len() == all.len()
        &&& forall|i: int| 0 <= i < all.len() ==> shows_source(#[trigger] items[i], commit, all[i])
    }
    &&& bool_member(v, "truncated"@) == Some(truncated)
    &&& text_member(v, "branch"@) == Some(branch)
}

proof fn listings_show_sources(at: PinnedView, commit: Seq<char>, all: Seq<SrcEntry>, truncated: bool)
    ensures
        shows_sources(
            tree_object(
                ServedView {
                    label: at.label,
                    tree: listed_tree(
                        at,
                        ListingView { entries: all_pinned(commit, all), truncated },
                    ),
                },
            ),
            commit,
            all,
            truncated,
            at.label,
        ),
{
    let entries = all_pinned(commit, all);
    let served = ServedView {
        label: at.label,
        tree: listed_tree(at, ListingView { entries, truncated }),
    };
    trees_are_shown(served);
    let items = array_member(tree_object(served), "entries"@)->0;
    assert forall|i: int| 0 <= i < all.len() implies shows_source(
        #[trigger] items[i],
        commit,
        all[i],
    ) by {
        assert(shows_entry(items[i], entries[i]));
        assert(entries[i] == pinned(commit, all[i]));
    }
}

/// Where no tree is kept at the commit, the directories are listed, and what a
/// forge answers is the forge's full recursive tree: a reply that is not
/// truncated has an item for every file and directory that can be reached from
/// the root, and no other item. `all` are the sources that its items show.
pub proof fn untruncated_replies_are_full_trees(
    forge: Forge,
    full_name: Seq<char>,
    retry: bool,
    at: PinnedView,
    pages: Seq<Paged<SrcEntry>>,
    v: JsonView,
    instance: Seq<char>,
) -> (all: Seq<SrcEntry>)
    requires
        faithful(forge, walk_from_root(full_name, at.commit), root(), plain(pages)),
        walked(
            task_fed(at_commit(full_name, retry, at), Answer::Tree(None), instance),
            pages,
            instance,
        ) == TurnView::Reply(Ok(v)),
        bool_member(v, "truncated"@) == Some(false),
    ensures
        shows_sources(v, at.commit, all, false, at.label),
        forall|e: SrcEntry| #[trigger] reachable(forge, e) <==> all.contains(e),
        forall|e: SrcEntry| #[trigger]
            reachable(forge, e) ==> exists|i: int|
                0 <= i < all.len() && shows_source(
                    #[trigger] array_member(v, "entries"@)->0[i],
                    at.commit,
                    e,
                ),
        lists_each_path_once(forge) ==> paths_differ(all),
{
    let w = walk_from_root(full_name, at.commit);
    walks_begin_sound(full_name, at.commit);
    walks_run(full_name, retry, at, w, pages, instance);
    walks_do_not_fail(w, plain(pages));
    let listing = walk_pages(w, plain(pages))->Done_0;
    trees_are_shown(ServedView { label: at.label, tree: listed_tree(at, listing) });
    let all = untruncated_listings_are_full_trees(
        forge,
        full_name,
        at.commit,
        plain(pages),
        listing,
    );
    listings_show_sources(at, at.commit, all, false);
    let items = array_member(v, "entries"@)->0;
    assert forall|e: SrcEntry| #[trigger] reachable(forge, e) implies exists|i: int|
        0 <= i < all.len() && shows_source(#[trigger] items[i], at.commit, e) by {
        let i = choose|i: int| 0 <= i < all.len() && all[i] == e;
        assert(shows_source(items[i], at.commit, all[i]));
    }
    all
}

proof fn walks_do_not_fail(w: WalkView, pages: Seq<PageOf<SrcEntry>>)
    requires
        in_progress(w),
    ensures
        !(walk_pages(w, pages) is Failed),
    decreases pages.len(),
{
    if pages.len() > 0 {
        directories_are_taken_whole(w, pages[0].values, pages[0].next);
        if let StepView::More(after) = walk_fed(w, pages[0].values, pages[0].next) {
            walks_do_not_fail(after, pages.drop_first());
        }
    }
}

/// At most 25 000 of them.
pub open spec fn bounded<T>(all: Seq<T>) -> Seq<T> {
    if all.len() > 25_000 {
        all.take(25_000)
    } else {
        all
    }
}

proof fn walks_end_bounded(w: WalkView, pages: Seq<PageOf<SrcEntry>>)
    requires
        in_progress(w),
        pages.len() > 0,
        walk_pages(w, pages.drop_last()) is More,
    ensures
        ({
            let all = w.out + all_pinned(w.commit, w.dir.out + values_of(pages));
            match walk_pages(w, pages) {
                StepView::More(_) => true,
                StepView::Done(listing) => {
                    &&& listing.entries == bounded(all)
                    &&& listing.truncated <==> all.len() > 25_000
                },
                StepView::Failed(_) => false,
            }
        }),
    decreases pages.len(),
{
    let rest = pages.drop_first();
    let page = pages[0];
    let sofar = w.dir.out + page.values;
    let later = values_of(rest);
    directories_are_taken_whole(w, page.values, page.next);
    assert(w.dir.out + values_of(pages) =~= sofar + later);
    assert(all_pinned(w.commit, sofar + later) =~= all_pinned(w.commit, sofar) + all_pinned(
        w.commit,
        later,
    ));
    if pages.len() == 1 {
        assert(rest =~= Seq::<PageOf<SrcEntry>>::empty());
        assert(later =~= Seq::<SrcEntry>::empty());
        assert(sofar + later =~= sofar);
        let all = w.out + all_pinned(w.commit, sofar);
        assert(walk_pages(w, pages) == match walk_fed(w, page.values, page.next) {
            StepView::More(after) => StepView::More(after),
            done => done,
        });
        let room = 25_000 - w.out.len();
        if sofar.len() >= 25_001 {
            assert(sofar.take(25_001).take(room) =~= sofar.take(room));
        }
        if sofar.len() > room {
            assert(w.out + all_pinned(w.commit, sofar.take(room)) =~= all.take(25_000));
        }
    } else {
        let first = pages.drop_last();
        assert(first[0] == page);
        assert(first.drop_first() =~= rest.drop_last());
        if let StepView::More(after) = walk_fed(w, page.values, page.next) {
            walks_end_bounded(after, rest);
            if page.next is None {
                assert(after.dir.out + later =~= later);
                assert(w.out + all_pinned(w.commit, sofar + later) =~= after.out + all_pinned(
                    w.commit,
                    later,
                ));
            }
        }
    }
}

/// Whatever the pages hold, a reply shows their entries in order, the first
/// 25 000 of them, and is truncated exactly where there are more.
pub proof fn replies_show_the_entries_of_all_pages(
    full_name: Seq<char>,
    retry: bool,
    at: PinnedView,
    pages: Seq<Paged<SrcEntry>>,
    v: JsonView,
    instance: Seq<char>,
)
    requires
        pages.len() > 0,
        walked(
            task_fed(at_commit(full_name, retry, at), Answer::Tree(None), instance),
            pages.drop_last(),
            instance,
        ) is More,
        walked(
            task_fed(at_commit(full_name, retry, at), Answer::Tree(None), instance),
            pages,
            instance,
        ) == TurnView::Reply(Ok(v)),
    ensures
        ({
            let all = values_of(plain(pages));
            shows_sources(v, at.commit, bounded(all), all.len() > 25_000, at.label)
        }),
{
    let w = walk_from_root(full_name, at.commit);
    let views = plain(pages);
    let all = values_of(views);
    walks_begin_sound(full_name, at.commit);
    walks_run(full_name, retry, at, w, pages, instance);
    walks_run(full_name, retry, at, w, pages.drop_last(), instance);
    assert(views.drop_last() =~= plain(pages.drop_last()));
    walks_do_not_fail(w, views);
    walks_do_not_fail(w, views.drop_last());
    walks_end_bounded(w, views);
    assert(w.dir.out + all =~= all);
    assert(w.out + all_pinned(at.commit, all) =~= all_pinned(at.commit, all));
    assert(bounded(all_pinned(at.commit, all)) =~= all_pinned(at.commit, bounded(all)));
    listings_show_sources(at, at.commit, bounded(all), all.len() > 25_000);
}

}
