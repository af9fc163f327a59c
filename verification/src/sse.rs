use vstd::prelude::*;
use crate::json::{Json, JsonV};
use crate::json_text::jv_text;
use crate::error::error_json;
use crate::procedure_error::{ProcedureError, answer_wire};
use crate::rpc::{envelope, encode_rpc_success, consume_single_value};
use crate::text::{owned, push_str, push_decimal, decimal};

verus! {

/// `true` when a stream with this size hint is a subscription: anything but
/// an upper bound of exactly one item.
pub open spec fn subscription_hint(hint: (usize, Option<usize>)) -> bool {
    hint.1 != Some(1usize)
}

/// Whether a procedure stream with size hint `hint` is a subscription
/// (multi-value) rather than a single value.
pub fn is_subscription(hint: (usize, Option<usize>)) -> (r: bool)
    ensures
        r == subscription_hint(hint),
{
    match hint.1 {
        Some(n) => n != 1,
        None => true,
    }
}

/// The text of one server-sent event: the `event:` line, an `id:` line when
/// there is an id, a `data:` line (bare when `data` is empty), and a blank
/// line.
pub open spec fn sse_event_text(event_type: Seq<char>, id: Option<u64>, data: Seq<char>) -> Seq<char> {
    let head = "event: "@ + event_type + "\n"@;
    let id_line = match id {
        Some(n) => "id: "@ + decimal(n as nat) + "\n"@,
        None => Seq::empty(),
    };
    let data_line = if data.len() == 0 {
        "data:\n"@
    } else {
        "data: "@ + data + "\n"@
    };
    head + id_line + data_line + "\n"@
}

/// Formats one server-sent event (see [`sse_event_text`]).
pub fn format_sse_event(event_type: &str, id: Option<u64>, data: &str) -> (r: String)
    ensures
        r@ == sse_event_text(event_type@, id, data@),
{
    let mut out = owned("event: ");
    push_str(&mut out, event_type);
    push_str(&mut out, "\n");
    match id {
        Some(n) => {
            push_str(&mut out, "id: ");
            push_decimal(&mut out, n);
            push_str(&mut out, "\n");
        },
        None => {},
    }
    if data.is_empty() {
        push_str(&mut out, "data:\n");
    } else {
        push_str(&mut out, "data: ");
        push_str(&mut out, data);
        push_str(&mut out, "\n");
    }
    push_str(&mut out, "\n");
    proof {
        let id_line = match id {
            Some(n) => "id: "@ + decimal(n as nat) + "\n"@,
            None => Seq::<char>::empty(),
        };
        let data_line = if data@.len() == 0 {
            "data:\n"@
        } else {
            "data: "@ + data@ + "\n"@
        };
        assert(out@ =~= "event: "@ + event_type@ + "\n"@ + id_line + data_line + "\n"@);
    }
    out
}

/// The data of a message event: the envelope around the value, as text.
pub open spec fn message_data(v: JsonV) -> Seq<char> {
    jv_text(envelope(v))
}

/// The data of the error event answering `e`: the envelope around the error,
/// as text.
pub open spec fn error_data(e: ProcedureError) -> Seq<char> {
    jv_text(envelope(answer_wire(e).1))
}

/// The text of the comment sent first, which makes the server flush the
/// response headers.
pub open spec fn flush_comment() -> Seq<char> {
    ": \n\n"@
}

/// State of the conversion of a procedure stream into server-sent events.
pub struct SseState {
    next_id: u64,
    done: bool,
    needs_flush: bool,
}

/// Model of an [`SseState`].
pub struct SseStateV {
    /// Id of the next message event.
    pub next_id: u64,
    /// The stream of events has ended.
    pub done: bool,
    /// The initial comment is still to be sent.
    pub needs_flush: bool,
}

impl View for SseState {
    type V = SseStateV;

    closed spec fn view(&self) -> SseStateV {
        SseStateV { next_id: self.next_id, done: self.done, needs_flush: self.needs_flush }
    }
}

/// What the event stream does on its next poll, before the procedure stream
/// is asked.
pub enum SseStep {
    /// The event stream has ended.
    Finished,
    /// Send this text without polling the procedure stream.
    Emit(String),
    /// Poll the procedure stream and pass its answer to [`SseState::on_item`].
    PollInner,
}

/// What the procedure stream answers a poll with, as a model: a value, a
/// failure, or `None` at its end.
pub open spec fn item_view(item: Option<Result<Json, ProcedureError>>) -> Option<Result<JsonV, ProcedureError>> {
    match item {
        None => None,
        Some(Ok(j)) => Some(Ok(j@)),
        Some(Err(e)) => Some(Err(e)),
    }
}

/// The text sent for the procedure stream's answer `item` in state `s`, and
/// the state after: its end gives the `done` event and ends the event stream;
/// a value gives a `message` event with the next id; a failure gives the
/// `error` event and ends the event stream.
pub open spec fn on_item_model(s: SseStateV, item: Option<Result<JsonV, ProcedureError>>) -> (SseStateV, Seq<char>) {
    match item {
        None => (SseStateV { done: true, ..s }, sse_event_text("done"@, None, Seq::empty())),
        Some(Ok(v)) => (
            SseStateV { next_id: (s.next_id + 1) as u64, ..s },
            sse_event_text("message"@, Some(s.next_id), message_data(v)),
        ),
        Some(Err(e)) => (SseStateV { done: true, ..s }, sse_event_text("error"@, None, error_data(e))),
    }
}

/// What `polls` successive polls of the event stream give, from state `s`,
/// when the procedure stream answers with `answers` in order: `None` once the
/// event stream has ended, the flushing comment first, then the text for
/// each answer. Polls past the last answer are not modelled.
pub open spec fn sse_polls(
    s: SseStateV,
    answers: Seq<Option<Result<JsonV, ProcedureError>>>,
    polls: nat,
) -> Seq<Option<Seq<char>>>
    decreases polls,
{
    if polls == 0 {
        Seq::empty()
    } else if s.done {
        seq![None::<Seq<char>>] + sse_polls(s, answers, (polls - 1) as nat)
    } else if s.needs_flush {
        seq![Some(flush_comment())] + sse_polls(SseStateV { needs_flush: false, ..s }, answers, (polls - 1) as nat)
    } else if answers.len() == 0 {
        Seq::empty()
    } else {
        let (s2, t) = on_item_model(s, answers[0]);
        seq![Some(t)] + sse_polls(s2, answers.drop_first(), (polls - 1) as nat)
    }
}

/// The event for the message with id `id` carrying `v`.
pub open spec fn message_event(id: int, v: JsonV) -> Seq<char> {
    sse_event_text("message"@, Some(id as u64), message_data(v))
}

/// The event that ends a stream: `done` at its end, the `error` event for a
/// failure.
pub open spec fn closing_event(last: Option<ProcedureError>) -> Seq<char> {
    match last {
        None => sse_event_text("done"@, None, Seq::empty()),
        Some(e) => sse_event_text("error"@, None, error_data(e)),
    }
}

/// The answers of a procedure stream that yields `vs` and then ends (`last`
/// is `None`) or fails with `last`.
pub open spec fn answers_of(vs: Seq<JsonV>, last: Option<ProcedureError>) -> Seq<Option<Result<JsonV, ProcedureError>>> {
    Seq::new(vs.len(), |i: int| Some(Ok::<JsonV, ProcedureError>(vs[i])))
        + seq![
        match last {
            None => None,
            Some(e) => Some(Err::<JsonV, ProcedureError>(e)),
        },
    ]
}

/// The message events for `vs`, with ids from `k` on.
pub open spec fn message_events(k: int, vs: Seq<JsonV>) -> Seq<Option<Seq<char>>> {
    Seq::new(vs.len(), |i: int| Some(message_event(k + i, vs[i])))
}

proof fn lemma_sse_messages(k: u64, vs: Seq<JsonV>, last: Option<ProcedureError>, extra: nat)
    requires
        k + vs.len() <= u64::MAX,
    ensures
        sse_polls(SseStateV { next_id: k, done: false, needs_flush: false }, answers_of(vs, last), vs.len() + 1 + extra)
            == message_events(k as int, vs) + seq![Some(closing_event(last))] + Seq::new(extra, |i: int| None::<Seq<char>>),
    decreases vs.len(),
{
    let s = SseStateV { next_id: k, done: false, needs_flush: false };
    let ans = answers_of(vs, last);
    if vs.len() == 0 {
        let (s2, t) = on_item_model(s, ans[0]);
        assert(s2.done);
        assert(t == closing_event(last));
        lemma_sse_ended(s2, ans.drop_first(), extra);
        assert(message_events(k as int, vs) =~= Seq::<Option<Seq<char>>>::empty());
        assert(sse_polls(s, ans, vs.len() + 1 + extra) =~= seq![Some(t)] + sse_polls(s2, ans.drop_first(), extra));
    } else {
        let (s2, t) = on_item_model(s, ans[0]);
        assert(ans[0] == Some(Ok::<JsonV, ProcedureError>(vs[0])));
        assert(s2 == SseStateV { next_id: (k + 1) as u64, done: false, needs_flush: false });
        assert(ans.drop_first() =~= answers_of(vs.drop_first(), last));
        lemma_sse_messages((k + 1) as u64, vs.drop_first(), last, extra);
        assert(message_events(k as int, vs) =~= seq![Some(message_event(k as int, vs[0]))] + message_events(
            k + 1,
            vs.drop_first(),
        ));
        assert(t == message_event(k as int, vs[0]));
        assert(sse_polls(s, ans, vs.len() + 1 + extra) == seq![Some(t)] + sse_polls(
            s2,
            ans.drop_first(),
            (vs.len() + extra) as nat,
        ));
        assert(sse_polls(s, ans, vs.len() + 1 + extra) =~= message_events(k as int, vs) + seq![
            Some(closing_event(last)),
        ] + Seq::new(extra, |i: int| None::<Seq<char>>));
    }
}

proof fn lemma_sse_ended(s: SseStateV, answers: Seq<Option<Result<JsonV, ProcedureError>>>, polls: nat)
    requires
        s.done,
    ensures
        sse_polls(s, answers, polls) == Seq::new(polls, |i: int| None::<Seq<char>>),
    decreases polls,
{
    if polls > 0 {
        lemma_sse_ended(s, answers, (polls - 1) as nat);
        assert(sse_polls(s, answers, polls) =~= Seq::new(polls, |i: int| None::<Seq<char>>));
    } else {
        assert(sse_polls(s, answers, polls) =~= Seq::new(polls, |i: int| None::<Seq<char>>));
    }
}

/// The whole event stream of a procedure stream: when it yields the values
/// `vs` and then ends (`last` is `None`) or fails with `last`, the event
/// stream started at id `k` sends the flushing comment, one `message` event
/// per value with ids `k`, `k + 1`, …, then `done` (or the `error` event for
/// the failure), and ends: every later poll gives nothing.
pub proof fn law_sse_stream(k: u64, vs: Seq<JsonV>, last: Option<ProcedureError>, extra: nat)
    requires
        k + vs.len() <= u64::MAX,
    ensures
        sse_polls(SseStateV { next_id: k, done: false, needs_flush: true }, answers_of(vs, last), vs.len() + 2 + extra)
            == seq![Some(flush_comment())] + message_events(k as int, vs) + seq![Some(closing_event(last))]
            + Seq::new(extra, |i: int| None::<Seq<char>>),
{
    let s = SseStateV { next_id: k, done: false, needs_flush: true };
    lemma_sse_messages(k, vs, last, extra);
    assert(sse_polls(s, answers_of(vs, last), vs.len() + 2 + extra) == seq![Some(flush_comment())] + sse_polls(
        SseStateV { next_id: k, done: false, needs_flush: false },
        answers_of(vs, last),
        (vs.len() + 1 + extra) as nat,
    ));
    assert(seq![Some(flush_comment())] + (message_events(k as int, vs) + seq![Some(closing_event(last))]
        + Seq::new(extra, |i: int| None::<Seq<char>>)) =~= seq![Some(flush_comment())] + message_events(k as int, vs)
        + seq![Some(closing_event(last))] + Seq::new(extra, |i: int| None::<Seq<char>>));
}

impl SseState {
    /// The state of a fresh event stream whose first message gets id
    /// `start_id`.
    pub fn new(start_id: u64) -> (s: SseState)
        ensures
            s@ == (SseStateV { next_id: start_id, done: false, needs_flush: true }),
    {
        SseState { next_id: start_id, done: false, needs_flush: true }
    }

    /// The id the next message event gets.
    pub fn next_id(&self) -> (r: u64)
        ensures
            r == self@.next_id,
    {
        self.next_id
    }

    /// Decides the start of a poll: an ended stream stays ended; the first
    /// poll sends the flushing comment; later polls ask the procedure stream.
    pub fn before_poll(&mut self) -> (r: SseStep)
        ensures
            old(self)@.done ==> r is Finished && final(self)@ == old(self)@,
            !old(self)@.done && old(self)@.needs_flush ==> (r matches SseStep::Emit(t) && t@ == flush_comment())
                && final(self)@ == (SseStateV { needs_flush: false, ..old(self)@ }),
            !old(self)@.done && !old(self)@.needs_flush ==> r is PollInner && final(self)@ == old(self)@,
    {
        if self.done {
            return SseStep::Finished;
        }
        if self.needs_flush {
            self.needs_flush = false;
            return SseStep::Emit(owned(": \n\n"));
        }
        SseStep::PollInner
    }

    /// The event for what the procedure stream answered: its end gives the
    /// `done` event; a value gives a `message` event with the next id; a
    /// failure gives the `error` event answering it. The end and a failure
    /// end the event stream.
    pub fn on_item(&mut self, item: Option<Result<Json, ProcedureError>>) -> (r: String)
        requires
            item matches Some(Ok(_)) ==> old(self)@.next_id < u64::MAX,
        ensures
            (final(self)@, r@) == on_item_model(old(self)@, item_view(item)),
            match item {
                None => r@ == sse_event_text("done"@, None, Seq::empty()) && final(self)@ == (SseStateV {
                    done: true,
                    ..old(self)@
                }),
                Some(Ok(v)) => r@ == sse_event_text("message"@, Some(old(self)@.next_id), message_data(v@))
                    && final(self)@ == (SseStateV { next_id: (old(self)@.next_id + 1) as u64, ..old(self)@ }),
                Some(Err(e)) => r@ == sse_event_text("error"@, None, error_data(e)) && final(self)@ == (
                SseStateV { done: true, ..old(self)@ }),
            },
    {
        match item {
            None => {
                self.done = true;
                proof {
                    reveal_strlit("");
                }
                format_sse_event("done", None, "")
            },
            Some(Ok(v)) => {
                let id = self.next_id;
                self.next_id = self.next_id + 1;
                let (_, data) = encode_rpc_success(v);
                format_sse_event("message", Some(id), data.as_str())
            },
            Some(Err(e)) => {
                self.done = true;
                let ghost pe = e;
                let (_, data) = consume_single_value(Some(Err(e)));
                format_sse_event("error", None, data.as_str())
            },
        }
    }
}

} // verus!
