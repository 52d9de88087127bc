//! The Bitbucket Cloud provider for rootle.
//!
//! It speaks rootle's stdio provider protocol (JSON-RPC 2.0, one message a
//! line) over Bitbucket Cloud's REST 2.0 API. Bitbucket Cloud has no
//! code-search index: the handshake says so, and queries are answered from the
//! tree of a repository at a commit.
//!
//! The library holds what the provider decides and computes. It touches neither
//! network nor disk: a request begins with [`respond`], and as long as it is
//! [`Pending`] it names what it asks for, and goes on with the answer. What is
//! to be written, to the cache and to the client, it leaves as effects. Nothing
//! is looked up before it is needed, so a process can be started and killed at
//! any time; what is cached goes by commit, so a restart loses nothing.

pub mod api;
pub mod cache;
pub mod discovery;
pub mod exchange;
pub mod full_tree;
pub mod handlers;
pub mod json;
pub mod laws;
pub mod options;
pub mod paging;
pub mod text;
pub mod walk;

pub use handlers::{Handler, WireError};

use exchange::{effects, note, Answer, Ask, Effect, EffectView, Line};
use handlers::code::account_of;
use handlers::initialize::rooted;
use handlers::streaming::{only_batches, searches_say_only_batches};
use handlers::task::{task_ask, task_effects, task_fed, Task, TaskView, Turn, TurnView};
use handlers::{
    dispatched, error_object, opted_in, reply_view, PartialSink, ReplyView, WireResult,
};
use json::{json, json_of_text, json_text, member, text_member, JsonView};
use serde_json::Value;
use text::{string_opt, trimmed};
use vstd::prelude::*;

verus! {

/// A request that is answered.
pub struct Request {
    pub id: JsonView,
    pub method: Seq<char>,
    pub params: JsonView,
}

/// The request that a message is, if it is one: a message without an id is a
/// notification, and one without a method is none either.
pub open spec fn request_of(message: JsonView) -> Option<Request> {
    match (member(message, "id"@), text_member(message, "method"@)) {
        (Some(id), Some(method)) => Some(
            Request {
                id,
                method,
                params: match member(message, "params"@) {
                    Some(params) => params,
                    None => JsonView::Object(Map::empty()),
                },
            },
        ),
        _ => None,
    }
}

/// The reply to a request on the wire.
pub open spec fn reply_object(id: JsonView, reply: ReplyView) -> JsonView {
    let head = Map::empty().insert("jsonrpc"@, JsonView::Str("2.0"@)).insert("id"@, id);
    JsonView::Object(
        match reply {
            Ok(result) => head.insert("result"@, result),
            Err(e) => head.insert("error"@, error_object(e)),
        },
    )
}

/// The line that answers a request.
pub open spec fn reply_line(id: JsonView, reply: ReplyView) -> EffectView {
    EffectView::Emit(json_text(reply_object(id, reply)))
}

/// A request that waits for an answer.
pub struct Pending {
    pub id: Value,
    pub task: Task,
}

/// A [`Pending`] over plain values.
pub struct PendingView {
    pub id: JsonView,
    pub task: TaskView,
}

impl View for Pending {
    type V = PendingView;

    open spec fn view(&self) -> PendingView {
        PendingView { id: json(self.id), task: self.task@ }
    }
}

/// The view of a request that may wait for an answer.
pub open spec fn pending_opt(p: Option<Pending>) -> Option<PendingView> {
    match p {
        Some(p) => Some(p@),
        None => None,
    }
}

/// What remains of a request after a turn.
pub open spec fn remaining(id: JsonView, turn: TurnView) -> Option<PendingView> {
    match turn {
        TurnView::More(task) => Some(PendingView { id, task }),
        TurnView::Reply(_) => None,
    }
}

/// What a turn says to the client: the reply, once there is one.
pub open spec fn said(id: JsonView, turn: TurnView) -> Seq<EffectView> {
    match turn {
        TurnView::More(_) => Seq::empty(),
        TurnView::Reply(reply) => seq![reply_line(id, reply)],
    }
}

fn reply_value(id: Value, reply: WireResult) -> (r: Value)
    ensures
        json(r) == reply_object(json(id), reply_view(reply)),
{
    let mut v = json::object();
    json::set(&mut v, "jsonrpc", json::string("2.0"));
    json::set(&mut v, "id", id);
    match reply {
        Ok(result) => json::set(&mut v, "result", result),
        Err(e) => json::set(&mut v, "error", e.to_json()),
    }
    v
}

fn settle(id: Value, turn: Turn, fx: &mut Vec<Effect>) -> (r: Option<Pending>)
    ensures
        pending_opt(r) == remaining(json(id), turn@),
        effects(final(fx)@) == effects(old(fx)@) + said(json(id), turn@),
{
    let ghost before = effects(fx@);
    assert(before + Seq::<EffectView>::empty() =~= before);
    match turn {
        Turn::More(task) => Some(Pending { id, task }),
        Turn::Reply(reply) => {
            let ghost line = reply_line(json(id), reply_view(reply));
            note(fx, Effect::Emit(Line::of(&reply_value(id, reply))));
            assert(effects(fx@) =~= before + seq![line]);
            None
        },
    }
}

/// What a request begins with.
pub open spec fn begun(request: Request, instance: Seq<char>, workspaces: Seq<String>) -> TurnView {
    dispatched(
        request.method,
        request.params,
        request.id,
        opted_in(request.params),
        instance,
        workspaces,
    )
}

/// What a handler's cache is rooted at once a request has begun.
pub open spec fn root_after(request: Request, before: Option<Seq<char>>) -> Option<Seq<char>> {
    if request.method == "initialize"@ {
        rooted(before, request.params)
    } else {
        before
    }
}

/// A message comes in. A request is begun: it is answered at once, or waits for
/// an answer. Any other message is passed over.
pub fn respond_to(handler: &mut Handler, message: &Value, fx: &mut Vec<Effect>) -> (r: Option<
    Pending,
>)
    ensures
        match request_of(json(*message)) {
            Some(request) => {
                let turn = begun(request, old(handler).bb.instance@, old(handler).workspaces@);
                &&& pending_opt(r) == remaining(request.id, turn)
                &&& effects(final(fx)@) == effects(old(fx)@) + said(request.id, turn)
                &&& final(handler).bb == old(handler).bb
                &&& final(handler).workspaces == old(handler).workspaces
                &&& string_opt(final(handler).cache.root) == root_after(
                    request,
                    string_opt(old(handler).cache.root),
                )
            },
            None => r is None && *final(fx) == *old(fx) && *final(handler) == *old(handler),
        },
{
    let id = match json::get(message, "id") {
        Some(id) => json::copy(id),
        None => {
            return None;
        },
    };
    let method = match json::get_text(message, "method") {
        Some(method) => method,
        None => {
            return None;
        },
    };
    let params = match json::get(message, "params") {
        Some(params) => json::copy(params),
        None => json::object(),
    };
    let partials = PartialSink::new(&id, &params);
    let turn = handler.dispatch(method, &params, partials);
    settle(id, turn, fx)
}

/// A line comes in. One that is not JSON is passed over, as is white space
/// around it.
pub fn respond(handler: &mut Handler, line: &str, fx: &mut Vec<Effect>) -> (r: Option<Pending>)
    ensures
        match json_of_text(trimmed(line@)) {
            Some(message) => match request_of(message) {
                Some(request) => {
                    let turn = begun(request, old(handler).bb.instance@, old(handler).workspaces@);
                    &&& pending_opt(r) == remaining(request.id, turn)
                    &&& effects(final(fx)@) == effects(old(fx)@) + said(request.id, turn)
                    &&& final(handler).bb == old(handler).bb
                    &&& final(handler).workspaces == old(handler).workspaces
                    &&& string_opt(final(handler).cache.root) == root_after(
                        request,
                        string_opt(old(handler).cache.root),
                    )
                },
                None => r is None && *final(fx) == *old(fx) && *final(handler) == *old(handler),
            },
            None => r is None && *final(fx) == *old(fx) && *final(handler) == *old(handler),
        },
{
    match json::parse(text::trim(line).as_str()) {
        Some(message) => respond_to(handler, &message, fx),
        None => None,
    }
}

impl Pending {
    /// What the request waits for.
    pub fn ask(&self, handler: &Handler) -> (r: Ask)
        ensures
            r@ == task_ask(self@.task, handler.bb.instance@),
    {
        self.task.ask(handler)
    }

    /// Goes on with an answer: the request is answered, or waits for the next.
    pub fn resume(self, answer: Answer, handler: &Handler, fx: &mut Vec<Effect>) -> (r: Option<
        Pending,
    >)
        ensures
            ({
                let turn = task_fed(self@.task, answer, handler.bb.instance@);
                &&& pending_opt(r) == remaining(self@.id, turn)
                &&& effects(final(fx)@) == effects(old(fx)@) + task_effects(
                    self@.task,
                    answer,
                    handler.bb.instance@,
                ) + said(self@.id, turn)
            }),
    {
        let turn = self.task.feed(answer, handler, fx);
        settle(self.id, turn, fx)
    }
}

/// A request on its way through answers, one after another, as long as it waits
/// for one: what remains of it, and everything that is done for it.
pub open spec fn run(p: PendingView, answers: Seq<Answer>, instance: Seq<char>) -> (
    Option<PendingView>,
    Seq<EffectView>,
)
    decreases answers.len(),
{
    if answers.len() == 0 {
        (Some(p), Seq::empty())
    } else {
        let turn = task_fed(p.task, answers[0], instance);
        let now = task_effects(p.task, answers[0], instance) + said(p.id, turn);
        match remaining(p.id, turn) {
            Some(q) => {
                let later = run(q, answers.drop_first(), instance);
                (later.0, now + later.1)
            },
            None => (None, now),
        }
    }
}

/// A search sends its batches under this id, and only where the request opted
/// in.
pub open spec fn batches_go_to(t: TaskView, id: JsonView, streams: bool) -> bool {
    t matches TaskView::SearchCode { code } ==> account_of(code).id == id && account_of(
        code,
    ).streams == streams
}

/// A request begins with its batches going to its own id.
pub proof fn requests_begin_with_their_id(
    request: Request,
    instance: Seq<char>,
    workspaces: Seq<String>,
)
    ensures
        begun(request, instance, workspaces) matches TurnView::More(task) ==> batches_go_to(
            task,
            request.id,
            opted_in(request.params),
        ),
{
}

proof fn tasks_say_only_batches(
    t: TaskView,
    id: JsonView,
    streams: bool,
    answer: Answer,
    instance: Seq<char>,
)
    requires
        batches_go_to(t, id, streams),
    ensures
        only_batches(task_effects(t, answer, instance), id, streams),
        task_fed(t, answer, instance) matches TurnView::More(after) ==> batches_go_to(
            after,
            id,
            streams,
        ),
{
    if let TaskView::SearchCode { code } = t {
        searches_say_only_batches(code, answer, instance);
    }
}

/// Whatever answers come in, a request is answered at most once, under its own
/// id, and after everything else that is said for it: batches come first, and
/// only where the request opted in. As long as it waits, it has not been
/// answered.
pub proof fn requests_are_answered_once(
    p: PendingView,
    streams: bool,
    answers: Seq<Answer>,
    instance: Seq<char>,
)
    requires
        batches_go_to(p.task, p.id, streams),
    ensures
        match run(p, answers, instance) {
            (Some(q), fx) => q.id == p.id && only_batches(fx, p.id, streams),
            (None, fx) => {
                &&& fx.len() > 0
                &&& only_batches(fx.drop_last(), p.id, streams)
                &&& exists|reply: ReplyView| fx.last() == #[trigger] reply_line(p.id, reply)
            },
        },
    decreases answers.len(),
{
    if answers.len() > 0 {
        let answer = answers[0];
        let turn = task_fed(p.task, answer, instance);
        let work = task_effects(p.task, answer, instance);
        tasks_say_only_batches(p.task, p.id, streams, answer, instance);
        match turn {
            TurnView::More(task) => {
                let q = PendingView { id: p.id, task };
                requests_are_answered_once(q, streams, answers.drop_first(), instance);
                let later = run(q, answers.drop_first(), instance).1;
                let now = work + said(p.id, turn);
                assert(now =~= work);
                assert(run(p, answers, instance).1 == now + later);
                if run(q, answers.drop_first(), instance).0 is None {
                    assert((now + later).drop_last() =~= now + later.drop_last());
                    assert((now + later).last() == later.last());
                }
            },
            TurnView::Reply(reply) => {
                let fx = work + seq![reply_line(p.id, reply)];
                assert(fx.drop_last() =~= work);
                assert(fx.last() == reply_line(p.id, reply));
            },
        }
    }
}

/// A message without an id is a notification, and never answered.
pub proof fn notifications_are_not_answered(message: JsonView)
    requires
        member(message, "id"@) is None,
    ensures
        request_of(message) is None,
{
}

}
