//! Collections that come page by page: their values are aggregated up to a cap.

use crate::api::{Commit, Paged};
use crate::exchange::{Step, StepView};
use crate::text::string_opt;
use vstd::prelude::*;

verus! {

/// What of a collection has been gathered: the values so far and the page that
/// comes next.
pub struct Paging<T> {
    pub cap: usize,
    pub out: Vec<T>,
    pub next: String,
}

/// A [`Paging`] over plain sequences.
pub struct PagingView<T> {
    pub cap: nat,
    pub out: Seq<T>,
    pub next: Seq<char>,
}

impl<T> View for Paging<T> {
    type V = PagingView<T>;

    open spec fn view(&self) -> PagingView<T> {
        PagingView { cap: self.cap as nat, out: self.out@, next: self.next@ }
    }
}

/// The values of a collection, and whether some were left out.
#[derive(Debug)]
pub struct Gathered<T> {
    pub values: Vec<T>,
    pub truncated: bool,
}

/// A [`Gathered`] over plain sequences.
pub struct GatheredView<T> {
    pub values: Seq<T>,
    pub truncated: bool,
}

impl<T> View for Gathered<T> {
    type V = GatheredView<T>;

    open spec fn view(&self) -> GatheredView<T> {
        GatheredView { values: self.values@, truncated: self.truncated }
    }
}

/// A page comes in: the values end at the cap, and with the last page.
pub open spec fn gather<T>(p: PagingView<T>, values: Seq<T>, next: Option<Seq<char>>) -> StepView<
    PagingView<T>,
    GatheredView<T>,
> {
    let all = p.out + values;
    if all.len() >= p.cap {
        StepView::Done(GatheredView { values: all.take(p.cap as int), truncated: true })
    } else {
        match next {
            Some(next) => StepView::More(PagingView { out: all, next, ..p }),
            None => StepView::Done(GatheredView { values: all, truncated: false }),
        }
    }
}

/// The collection that begins at a page.
pub open spec fn collection<T>(first: Seq<char>, cap: nat) -> PagingView<T> {
    PagingView { cap, out: Seq::empty(), next: first }
}

impl<T> Paging<T> {
    /// Begins to aggregate the pages of a collection, up to `cap` values.
    pub fn new(first: String, cap: usize) -> (r: Paging<T>)
        ensures
            r@ == collection::<T>(first@, cap as nat),
    {
        Paging { cap, out: Vec::new(), next: first }
    }

    /// Takes the next page.
    pub fn feed(self, page: Paged<T>) -> (r: Step<Paging<T>, Gathered<T>>)
        ensures
            r@ == gather(self@, page.values@, string_opt(page.next)),
    {
        let mut out = self.out;
        let mut values = page.values;
        out.append(&mut values);
        if out.len() >= self.cap {
            out.truncate(self.cap);
            Step::Done(Gathered { values: out, truncated: true })
        } else {
            match page.next {
                Some(next) => Step::More(Paging { cap: self.cap, out, next }),
                None => Step::Done(Gathered { values: out, truncated: false }),
            }
        }
    }
}

/// A history that is being gathered, up to `limit` commits.
pub struct CommitLog {
    pub paging: Paging<Commit>,
}

impl View for CommitLog {
    type V = PagingView<Commit>;

    open spec fn view(&self) -> PagingView<Commit> {
        self.paging@
    }
}

/// A page of history comes in: the history is cut at the limit, and truncated
/// only where there provably is more of it.
pub open spec fn gather_log(
    p: PagingView<Commit>,
    values: Seq<Commit>,
    next: Option<Seq<char>>,
) -> StepView<PagingView<Commit>, GatheredView<Commit>> {
    let all = p.out + values;
    if all.len() > p.cap {
        StepView::Done(GatheredView { values: all.take(p.cap as int), truncated: true })
    } else {
        match next {
            Some(next) => if all.len() == p.cap {
                StepView::Done(GatheredView { values: all, truncated: true })
            } else {
                StepView::More(PagingView { out: all, next, ..p })
            },
            None => StepView::Done(GatheredView { values: all, truncated: false }),
        }
    }
}

impl CommitLog {
    /// Takes the next page of history.
    pub fn feed(self, page: Paged<Commit>) -> (r: Step<CommitLog, Gathered<Commit>>)
        ensures
            r@ == gather_log(self@, page.values@, string_opt(page.next)),
    {
        let cap: usize = self.paging.cap;
        let mut out = self.paging.out;
        let mut values = page.values;
        out.append(&mut values);
        if out.len() > cap {
            out.truncate(cap);
            return Step::Done(Gathered { values: out, truncated: true });
        }
        match page.next {
            Some(next) => if out.len() == cap {
                Step::Done(Gathered { values: out, truncated: true })
            } else {
                Step::More(CommitLog { paging: Paging { cap, out, next } })
            },
            None => Step::Done(Gathered { values: out, truncated: false }),
        }
    }
}

/// A page over plain sequences: its values, and where the next page is.
pub struct PageOf<T> {
    pub values: Seq<T>,
    pub next: Option<Seq<char>>,
}

/// Pages of one collection: each but the last leads to another.
pub open spec fn linked<T>(pages: Seq<PageOf<T>>) -> bool {
    &&& pages.len() > 0
    &&& pages.last().next is None
    &&& forall|i: int| 0 <= i < pages.len() - 1 ==> (#[trigger] pages[i]).next is Some
}

/// The values of pages, one after another.
pub open spec fn values_of<T>(pages: Seq<PageOf<T>>) -> Seq<T>
    decreases pages.len(),
{
    if pages.len() == 0 {
        Seq::empty()
    } else {
        pages[0].values + values_of(pages.drop_first())
    }
}

/// Page after page comes in, as long as another is asked for.
pub open spec fn gather_pages<T>(p: PagingView<T>, pages: Seq<PageOf<T>>) -> StepView<
    PagingView<T>,
    GatheredView<T>,
>
    decreases pages.len(),
{
    if pages.len() == 0 {
        StepView::More(p)
    } else {
        match gather(p, pages[0].values, pages[0].next) {
            StepView::More(p) => gather_pages(p, pages.drop_first()),
            done => done,
        }
    }
}

/// At most so many values.
pub open spec fn up_to<T>(values: Seq<T>, cap: nat) -> Seq<T> {
    if values.len() > cap {
        values.take(cap as int)
    } else {
        values
    }
}

proof fn pages_follow<T>(p: PagingView<T>, pages: Seq<PageOf<T>>)
    requires
        linked(pages),
        p.out.len() < p.cap || p.out.len() == 0,
    ensures
        ({
            let all = p.out + values_of(pages);
            gather_pages(p, pages) == StepView::<PagingView<T>, GatheredView<T>>::Done(
                GatheredView { values: up_to(all, p.cap), truncated: all.len() >= p.cap },
            )
        }),
    decreases pages.len(),
{
    let rest = pages.drop_first();
    let now = p.out + pages[0].values;
    let all = p.out + values_of(pages);
    assert(all =~= now + values_of(rest));
    if now.len() >= p.cap {
        assert(now.take(p.cap as int) =~= up_to(all, p.cap));
    } else if pages.len() == 1 {
        assert(pages.last() == pages[0]);
        assert(values_of(rest) =~= Seq::empty());
        assert(all =~= now);
    } else {
        assert(pages[0].next is Some);
        let q = PagingView { out: now, next: pages[0].next->0, ..p };
        assert(rest.last() == pages.last());
        assert forall|i: int| 0 <= i < rest.len() - 1 implies (#[trigger] rest[i]).next is Some by {
            assert(rest[i] == pages[i + 1]);
        }
        pages_follow(q, rest);
    }
}

/// The pages of a collection give its values in order, cut at the cap, and the
/// collection counts as truncated exactly where the cap is reached.
pub proof fn pages_aggregate<T>(first: Seq<char>, cap: nat, pages: Seq<PageOf<T>>)
    requires
        linked(pages),
    ensures
        gather_pages(collection::<T>(first, cap), pages) == StepView::<
            PagingView<T>,
            GatheredView<T>,
        >::Done(
            GatheredView {
                values: up_to(values_of(pages), cap),
                truncated: values_of(pages).len() >= cap,
            },
        ),
{
    pages_follow(collection::<T>(first, cap), pages);
    assert(Seq::<T>::empty() + values_of(pages) =~= values_of(pages));
}

/// Page after page of a history comes in, as long as another is asked for.
pub open spec fn log_pages(p: PagingView<Commit>, pages: Seq<PageOf<Commit>>) -> StepView<
    PagingView<Commit>,
    GatheredView<Commit>,
>
    decreases pages.len(),
{
    if pages.len() == 0 {
        StepView::More(p)
    } else {
        match gather_log(p, pages[0].values, pages[0].next) {
            StepView::More(p) => log_pages(p, pages.drop_first()),
            done => done,
        }
    }
}

/// No page but the first is empty.
pub open spec fn filled(pages: Seq<PageOf<Commit>>) -> bool {
    forall|i: int| 1 <= i < pages.len() ==> (#[trigger] pages[i]).values.len() > 0
}

proof fn history_follows(p: PagingView<Commit>, pages: Seq<PageOf<Commit>>)
    requires
        linked(pages),
        p.out.len() < p.cap || p.out.len() == 0,
    ensures
        ({
            let all = p.out + values_of(pages);
            &&& log_pages(p, pages) matches StepView::Done(log)
            &&& log.values == up_to(all, p.cap)
            &&& all.len() > p.cap ==> log.truncated
            &&& log.truncated ==> all.len() >= p.cap
            &&& log.truncated && filled(pages) ==> all.len() > p.cap
        }),
    decreases pages.len(),
{
    let rest = pages.drop_first();
    let now = p.out + pages[0].values;
    let all = p.out + values_of(pages);
    assert(all =~= now + values_of(rest));
    if now.len() > p.cap {
        assert(now.take(p.cap as int) =~= up_to(all, p.cap));
    } else if pages.len() == 1 {
        assert(pages.last() == pages[0]);
        assert(values_of(rest) =~= Seq::empty());
        assert(all =~= now);
    } else {
        assert(pages[0].next is Some);
        if now.len() == p.cap {
            assert(now =~= up_to(all, p.cap));
            if filled(pages) {
                assert(rest[0] == pages[1]);
                assert(values_of(rest).len() > 0);
            }
        } else {
            let q = PagingView { out: now, next: pages[0].next->0, ..p };
            assert(rest.last() == pages.last());
            assert forall|i: int| 0 <= i < rest.len() - 1 implies (
            #[trigger] rest[i]).next is Some by {
                assert(rest[i] == pages[i + 1]);
            }
            if filled(pages) {
                assert forall|i: int| 1 <= i < rest.len() implies (
                #[trigger] rest[i]).values.len() > 0 by {
                    assert(rest[i] == pages[i + 1]);
                }
            }
            history_follows(q, rest);
        }
    }
}

/// The pages of a history give its commits in order, cut at the limit. It
/// counts as truncated wherever commits were left out, and, unless a page that
/// is announced turns out to be empty, only there: a history that ends exactly
/// at the limit is complete.
pub proof fn history_is_bounded(first: Seq<char>, limit: nat, pages: Seq<PageOf<Commit>>)
    requires
        linked(pages),
    ensures
        log_pages(collection::<Commit>(first, limit), pages) matches StepView::Done(log) && {
            &&& log.values == up_to(values_of(pages), limit)
            &&& values_of(pages).len() > limit ==> log.truncated
            &&& log.truncated && filled(pages) ==> values_of(pages).len() > limit
        },
{
    history_follows(collection::<Commit>(first, limit), pages);
    assert(Seq::<Commit>::empty() + values_of(pages) =~= values_of(pages));
}

}
