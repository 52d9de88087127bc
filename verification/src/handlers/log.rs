//! `repo/log`: the history at a revision, newest first. Hash, subject line,
//! author and date come verbatim from the forge. A path filters to the commits
//! that touch it; the limit bounds the work, and `truncated` says that there is
//! more.

use super::Handler;
use super::tree::{pin_ask, pin_effects, pin_fed, pin_start, Pin, PinView, Pinned, PinnedView};
use crate::api::{commit_listing, full_url, Commit};
use crate::exchange::{effects, Answer, Ask, AskView, Effect, EffectView, Step, StepView};
use crate::json::{self, json, json_all, JsonView};
use crate::paging::{gather_log, CommitLog, Gathered, GatheredView, PagingView};
use crate::text::{self, string_opt};
use serde_json::Value;
use vstd::prelude::*;

verus! {

/// How deep a history goes where the client sets no limit.
pub const DEFAULT_LIMIT: u64 = 200;

/// How deep a history goes at most, whatever the client sets.
pub const HARD_CAP: u64 = 500;

/// The limit that a client's wish comes to.
pub open spec fn log_limit(limit: Option<u64>) -> nat {
    match limit {
        None => DEFAULT_LIMIT as nat,
        Some(n) => if n < 1 {
            1
        } else if n > HARD_CAP {
            HARD_CAP as nat
        } else {
            n as nat
        },
    }
}

fn limit_of(limit: Option<u64>) -> (r: usize)
    ensures
        r == log_limit(limit),
{
    match limit {
        None => DEFAULT_LIMIT as usize,
        Some(n) => if n < 1 {
            1
        } else if n > HARD_CAP {
            HARD_CAP as usize
        } else {
            n as usize
        },
    }
}

/// A history on its way: the revision is resolved first, so that the listing is
/// pinned to a commit.
pub enum LogAt {
    Resolve { full_name: String, path: Option<String>, limit: usize, pin: Pin },
    List { log: CommitLog },
}

/// A [`LogAt`] over plain sequences.
pub enum LogView {
    Resolve { full_name: Seq<char>, path: Option<Seq<char>>, limit: nat, pin: PinView },
    List { log: PagingView<Commit> },
}

impl View for LogAt {
    type V = LogView;

    open spec fn view(&self) -> LogView {
        match self {
            LogAt::Resolve { full_name, path, limit, pin } => LogView::Resolve {
                full_name: full_name@,
                path: string_opt(*path),
                limit: *limit as nat,
                pin: pin@,
            },
            LogAt::List { log } => LogView::List { log: log@ },
        }
    }
}

/// The revision is on its way, or resolved.
pub open spec fn log_resolved(
    full_name: Seq<char>,
    path: Option<Seq<char>>,
    limit: nat,
    s: StepView<PinView, PinnedView>,
) -> StepView<LogView, GatheredView<Commit>> {
    match s {
        StepView::More(pin) => StepView::More(LogView::Resolve { full_name, path, limit, pin }),
        StepView::Done(pinned) => StepView::More(
            LogView::List { log: commit_listing(full_name, pinned.commit, path, limit) },
        ),
        StepView::Failed(e) => StepView::Failed(e),
    }
}

/// `repo/log` begins.
pub open spec fn log_start(
    full_name: Seq<char>,
    path: Option<Seq<char>>,
    ref_: Option<Seq<char>>,
    limit: Option<u64>,
) -> StepView<LogView, GatheredView<Commit>> {
    log_resolved(full_name, path, log_limit(limit), pin_start(full_name, ref_))
}

/// What `repo/log` asks.
pub open spec fn log_ask(l: LogView, instance: Seq<char>) -> AskView {
    match l {
        LogView::Resolve { pin, .. } => pin_ask(pin, instance),
        LogView::List { log } => AskView::Commits(full_url(instance, log.next)),
    }
}

/// `repo/log` goes on with an answer. One that was not asked for changes
/// nothing.
pub open spec fn log_fed(l: LogView, answer: Answer) -> StepView<LogView, GatheredView<Commit>> {
    match (l, answer) {
        (LogView::Resolve { full_name, path, limit, pin }, _) => log_resolved(
            full_name,
            path,
            limit,
            pin_fed(pin, answer),
        ),
        (LogView::List { log }, Answer::Commits(Ok(page))) => match gather_log(
            log,
            page.values@,
            string_opt(page.next),
        ) {
            StepView::More(log) => StepView::More(LogView::List { log }),
            StepView::Done(all) => StepView::Done(all),
            StepView::Failed(e) => StepView::Failed(e),
        },
        (LogView::List { .. }, Answer::Commits(Err(e))) => StepView::Failed(e@),
        _ => StepView::More(l),
    }
}

/// What `repo/log` does with an answer.
pub open spec fn log_effects(l: LogView, answer: Answer) -> Seq<EffectView> {
    match l {
        LogView::Resolve { pin, .. } => pin_effects(pin, answer),
        LogView::List { .. } => Seq::empty(),
    }
}

impl LogAt {
    fn resolved(
        full_name: String,
        path: Option<String>,
        limit: usize,
        s: Step<Pin, Pinned>,
        handler: &Handler,
    ) -> (r: Step<LogAt, Gathered<Commit>>)
        ensures
            r@ == log_resolved(full_name@, string_opt(path), limit as nat, s@),
    {
        match s {
            Step::More(pin) => Step::More(LogAt::Resolve { full_name, path, limit, pin }),
            Step::Done(pinned) => {
                let path = match &path {
                    Some(p) => Some(p.as_str()),
                    None => None,
                };
                let log = handler.bb.commits(
                    full_name.as_str(),
                    pinned.commit.as_str(),
                    path,
                    limit,
                );
                Step::More(LogAt::List { log })
            },
            Step::Failed(e) => Step::Failed(e),
        }
    }

    /// What the method waits for.
    pub fn ask(&self, handler: &Handler) -> (r: Ask)
        ensures
            r@ == log_ask(self@, handler.bb.instance@),
    {
        match self {
            LogAt::Resolve { pin, .. } => pin.ask(&handler.bb, &handler.cache),
            LogAt::List { log } => Ask::Commits(handler.bb.url(log.paging.next.as_str())),
        }
    }

    /// Goes on with an answer.
    pub fn feed(self, answer: Answer, handler: &Handler, fx: &mut Vec<Effect>) -> (r: Step<
        LogAt,
        Gathered<Commit>,
    >)
        ensures
            r@ == log_fed(self@, answer),
            effects(final(fx)@) == effects(old(fx)@) + log_effects(self@, answer),
    {
        let ghost before = effects(fx@);
        assert(before + Seq::<EffectView>::empty() =~= before);
        match (self, answer) {
            (LogAt::Resolve { full_name, path, limit, pin }, answer) => {
                let s = pin.feed(answer, &handler.cache, fx);
                LogAt::resolved(full_name, path, limit, s, handler)
            },
            (LogAt::List { log }, Answer::Commits(Ok(page))) => match log.feed(page) {
                Step::More(log) => Step::More(LogAt::List { log }),
                Step::Done(all) => Step::Done(all),
                Step::Failed(e) => Step::Failed(e),
            },
            (LogAt::List { .. }, Answer::Commits(Err(e))) => Step::Failed(e),
            (log, _) => Step::More(log),
        }
    }
}

/// One commit on the wire. Where author or date are missing they are empty; the
/// commit stays.
pub open spec fn commit_object(c: Commit) -> JsonView {
    JsonView::Object(
        Map::empty().insert("sha"@, JsonView::Str(c.hash@)).insert(
            "subject"@,
            JsonView::Str(c.subject_line()),
        ).insert("author"@, JsonView::Str(c.author_text())).insert(
            "date"@,
            JsonView::Str(c.date_text()),
        ),
    )
}

/// A history on the wire.
pub open spec fn log_object(all: GatheredView<Commit>) -> JsonView {
    JsonView::Object(
        Map::empty().insert(
            "items"@,
            JsonView::Array(all.values.map_values(|c: Commit| commit_object(c))),
        ).insert("truncated"@, JsonView::Bool(all.truncated)),
    )
}

fn log_item(c: &Commit) -> (r: Value)
    ensures
        json(r) == commit_object(*c),
{
    let mut v = json::object();
    json::set(&mut v, "sha", json::string(c.hash.as_str()));
    json::set(&mut v, "subject", json::string(c.subject().as_str()));
    json::set(&mut v, "author", json::string(c.author_raw().as_str()));
    let date = match &c.date {
        Some(d) => d.clone(),
        None => String::new(),
    };
    json::set(&mut v, "date", json::string(date.as_str()));
    v
}

pub(crate) fn log_value(all: &Gathered<Commit>) -> (r: Value)
    ensures
        json(r) == log_object(all@),
{
    let ghost wire = all.values@.map_values(|c: Commit| commit_object(c));
    let mut items: Vec<Value> = Vec::new();
    let mut i: usize = 0;
    assert(json_all(items@) =~= wire.take(0));
    while i < all.values.len()
        invariant
            i <= all.values@.len(),
            wire == all.values@.map_values(|c: Commit| commit_object(c)),
            json_all(items@) == wire.take(i as int),
        decreases all.values@.len() - i,
    {
        let ghost before = json_all(items@);
        items.push(log_item(&all.values[i]));
        assert(json_all(items@) =~= before.push(wire[i as int]));
        assert(wire.take(i + 1) =~= before.push(wire[i as int]));
        i += 1;
    }
    assert(wire.take(i as int) =~= wire);
    let mut v = json::object();
    json::set(&mut v, "items", json::array(items));
    json::set(&mut v, "truncated", json::boolean(all.truncated));
    v
}

impl Handler {
    /// Begins `repo/log`.
    pub fn repo_log(
        &self,
        full_name: &str,
        path: Option<&str>,
        ref_: Option<&str>,
        limit: Option<u64>,
    ) -> (r: Step<LogAt, Gathered<Commit>>)
        ensures
            r@ == log_start(full_name@, text::str_opt(path), text::str_opt(ref_), limit),
    {
        let s = self.resolve_commit(full_name, ref_);
        let path = match path {
            Some(p) => Some(p.to_owned()),
            None => None,
        };
        LogAt::resolved(full_name.to_owned(), path, limit_of(limit), s, self)
    }
}

/// Whatever a client asks for, a history is at least one and at most
/// [`HARD_CAP`] commits deep.
pub proof fn limits_are_bounded(limit: Option<u64>)
    ensures
        1 <= log_limit(limit) <= HARD_CAP,
        limit matches Some(n) ==> 1 <= n <= HARD_CAP ==> log_limit(limit) == n,
{
}

}
