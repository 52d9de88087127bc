//! `repo/log`: a history shows its commits.

use super::texts::{lines_end_at_line_feeds, splits_are_at_the_first};
use super::wire::array_member;
use crate::api::{Commit, Paged};
use crate::exchange::{Answer, StepView};
use crate::handlers::log::{commit_object, log_limit, log_object, LogView};
use crate::handlers::task::{task_fed, TaskView, TurnView};
use crate::json::{bool_member, text_member, JsonView};
use crate::paging::{gather_log, GatheredView, PagingView};
use crate::text::{split_first, string_opt};
use vstd::prelude::*;

verus! {

/// Two texts with a line feed between them.
pub open spec fn fed(s: Seq<char>, rest: Seq<char>) -> Seq<char> {
    s + seq!['\n'] + rest
}

/// Two texts with a carriage return and a line feed between them.
pub open spec fn returned(s: Seq<char>, rest: Seq<char>) -> Seq<char> {
    s + seq!['\r', '\n'] + rest
}

/// A text is the first line of a message: all of it, or what a line feed ends,
/// without the carriage return before the line feed.
pub open spec fn first_line(message: Seq<char>, s: Seq<char>) -> bool {
    &&& !s.contains('\n')
    &&& {
        ||| message == s
        ||| (s.len() == 0 || s.last() != '\r') && exists|rest: Seq<char>|
            message == #[trigger] fed(s, rest)
        ||| exists|rest: Seq<char>| message == #[trigger] returned(s, rest)
    }
}

/// The subject of a commit is the first line of its message, whatever follows
/// it: the whole message where it is one line.
pub proof fn subjects_are_first_lines(c: Commit, s: Seq<char>, rest: Seq<char>)
    requires
        !s.contains('\n'),
    ensures
        c.message@ == s ==> c.subject_line() == s,
        c.message@ == s + seq!['\n'] + rest && (s.len() == 0 || s.last() != '\r')
            ==> c.subject_line() == s,
        c.message@ == s + seq!['\r', '\n'] + rest ==> c.subject_line() == s,
        first_line(c.message@, c.subject_line()),
{
    lines_end_at_line_feeds(s, rest);
    let message = c.message@;
    splits_are_at_the_first(message, '\n', s, rest);
    if message.contains('\n') {
        let (x, y) = split_first(message, '\n')->0;
        lines_end_at_line_feeds(x, y);
        if x.len() > 0 && x.last() == '\r' {
            let z = x.drop_last();
            assert(message =~= z + seq!['\r', '\n'] + y);
            if z.contains('\n') {
                let k = choose|k: int| 0 <= k < z.len() && z[k] == '\n';
                assert(x[k] == '\n');
            }
            lines_end_at_line_feeds(z, y);
            assert(message == returned(z, y));
        } else {
            assert(message == fed(x, y));
        }
    } else {
        lines_end_at_line_feeds(message, rest);
        if message.len() == 0 {
            assert(message =~= Seq::<char>::empty());
        }
    }
}

/// An item shows a commit: its hash, the first line of its message, and author
/// and date as the forge has them, empty where it has none.
pub open spec fn shows_commit(item: JsonView, c: Commit) -> bool {
    &&& text_member(item, "sha"@) == Some(c.hash@)
    &&& text_member(item, "subject"@) matches Some(s) && first_line(c.message@, s)
    &&& text_member(item, "author"@) == Some(
        match c.author {
            Some(a) => a.raw@,
            None => Seq::empty(),
        },
    )
    &&& text_member(item, "date"@) == Some(
        match c.date {
            Some(d) => d@,
            None => Seq::empty(),
        },
    )
}

proof fn commits_are_shown(c: Commit)
    ensures
        shows_commit(commit_object(c), c),
{
    reveal_strlit("sha");
    reveal_strlit("subject");
    reveal_strlit("author");
    reveal_strlit("date");
    assert("sha"@.len() == 3 && "date"@.len() == 4 && "author"@.len() == 6 && "subject"@.len() == 7);
    subjects_are_first_lines(c, Seq::empty(), Seq::empty());
}

/// A reply shows commits, each of them in its place, and says whether there are
/// more.
pub open spec fn shows_commits(v: JsonView, commits: Seq<Commit>, truncated: bool) -> bool {
    &&& array_member(v, "items"@) matches Some(items) && {
        &&& items.len() == commits.len()
        &&& forall|i: int| 0 <= i < commits.len() ==> shows_commit(#[trigger] items[i], commits[i])
    }
    &&& bool_member(v, "truncated"@) == Some(truncated)
}

proof fn logs_show_commits(all: GatheredView<Commit>)
    ensures
        shows_commits(log_object(all), all.values, all.truncated),
{
    reveal_strlit("items");
    reveal_strlit("truncated");
    assert("items"@.len() == 5 && "truncated"@.len() == 9);
    let items = all.values.map_values(|c: Commit| commit_object(c));
    assert forall|i: int| 0 <= i < all.values.len() implies shows_commit(
        #[trigger] items[i],
        all.values[i],
    ) by {
        commits_are_shown(all.values[i]);
    }
}

/// The last page of a history ends it: where all commits are within the limit,
/// the reply shows each of them, in the order in which the pages had them, and
/// is not truncated; otherwise it shows as many as the limit allows and says
/// that there are more. A page that leads to another is followed as long as the
/// limit is not reached.
pub proof fn histories_show_their_commits(
    before: Seq<Commit>,
    limit: nat,
    here: Seq<char>,
    page: Paged<Commit>,
    instance: Seq<char>,
)
    requires
        before.len() <= limit,
    ensures
        ({
            let log = PagingView { cap: limit, out: before, next: here };
            let all = before + page.values@;
            let turn = task_fed(
                TaskView::RepoLog { log: LogView::List { log } },
                Answer::Commits(Ok(page)),
                instance,
            );
            if all.len() > limit {
                turn matches TurnView::Reply(Ok(v)) && shows_commits(v, all.take(limit as int), true)
            } else {
                match page.next {
                    None => turn matches TurnView::Reply(Ok(v)) && shows_commits(v, all, false),
                    Some(next) => if all.len() == limit {
                        turn matches TurnView::Reply(Ok(v)) && shows_commits(v, all, true)
                    } else {
                        turn == TurnView::More(
                            TaskView::RepoLog {
                                log: LogView::List {
                                    log: PagingView { cap: limit, out: all, next: next@ },
                                },
                            },
                        )
                    },
                }
            }
        }),
{
    let log = PagingView { cap: limit, out: before, next: here };
    if let StepView::Done(all) = gather_log(log, page.values@, string_opt(page.next)) {
        logs_show_commits(all);
    }
}

/// Without a limit a history is 200 commits deep; a limit below 1 is 1, and one
/// over 500 is 500.
pub proof fn limits_are_clamped(limit: Option<u64>)
    ensures
        limit is None ==> log_limit(limit) == 200,
        limit matches Some(n) ==> n == 0 ==> log_limit(limit) == 1,
        limit matches Some(n) ==> 1 <= n <= 500 ==> log_limit(limit) == n,
        limit matches Some(n) ==> n > 500 ==> log_limit(limit) == 500,
{
}

}
