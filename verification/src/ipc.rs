use vstd::prelude::*;
use crate::json::{Json, JsonV, JsonNumber, NumberV, members_view, lemma_object_view};
use crate::error::{ORPCError, error_json, code_name, ErrorCode};
use crate::procedure_error::{ProcedureError, procedure_error_to_orpc_error, answer_wire, lemma_answer_wire};
use crate::rpc::envelope;
use crate::router::{Router, lookup};
use crate::text::{owned, push_str};

verus! {

// Values exchanged with a desktop front end over an IPC channel instead of
// HTTP: responses are JSON values, and subscriptions push events one by one.

/// A JSON object from its members, in the order given.
fn object(members: Vec<(String, Json)>) -> (j: Json)
    ensures
        j@ == JsonV::Object(members_view(members@)),
{
    proof {
        lemma_object_view(members);
    }
    Json::Object(members)
}

/// A non-negative JSON integer.
pub open spec fn uint(n: u64) -> JsonV {
    JsonV::Number(NumberV::PosInt(n))
}

/// The response value `{"body": body, "status": status, "type": "response"}`.
pub open spec fn response_json(status: u16, body: JsonV) -> JsonV {
    JsonV::Object(
        seq![("body"@, body), ("status"@, uint(status as u64)), ("type"@, JsonV::Str("response"@))],
    )
}

/// The response value for status `status` and body `body`.
pub fn response_value(status: u16, body: Json) -> (j: Json)
    ensures
        j@ == response_json(status, body@),
{
    let mut ms: Vec<(String, Json)> = Vec::new();
    ms.push((owned("body"), body));
    ms.push((owned("status"), Json::Number(JsonNumber::PosInt(status as u64))));
    ms.push((owned("type"), Json::String(owned("response"))));
    proof {
        assert(members_view(ms@) =~= response_json(status, body@)->Object_0);
    }
    object(ms)
}

/// The error body the IPC handler builds itself: the envelope around
/// `{"code", "defined": false, "message", "status"}`.
pub open spec fn ipc_error_json(status: u16, code: Seq<char>, message: Seq<char>) -> JsonV {
    envelope(
        JsonV::Object(
            seq![
                ("code"@, JsonV::Str(code)),
                ("defined"@, JsonV::Bool(false)),
                ("message"@, JsonV::Str(message)),
                ("status"@, uint(status as u64)),
            ],
        ),
    )
}

/// The response value for an error raised by the IPC handler itself.
pub fn make_error_response(status: u16, code: &str, message: &str) -> (j: Json)
    ensures
        j@ == response_json(status, ipc_error_json(status, code@, message@)),
{
    let mut inner: Vec<(String, Json)> = Vec::new();
    inner.push((owned("code"), Json::String(owned(code))));
    inner.push((owned("defined"), Json::Bool(false)));
    inner.push((owned("message"), Json::String(owned(message))));
    inner.push((owned("status"), Json::Number(JsonNumber::PosInt(status as u64))));
    proof {
        assert(members_view(inner@) =~= ipc_error_json(status, code@, message@)->Object_0[0].1->Object_0);
    }
    let body = crate::rpc::envelope_value(object(inner));
    response_value(status, body)
}

/// The value answering a subscription request: `{"type": "subscription"}`.
pub fn subscription_value() -> (j: Json)
    ensures
        j@ == JsonV::Object(seq![("type"@, JsonV::Str("subscription"@))]),
{
    let mut ms: Vec<(String, Json)> = Vec::new();
    ms.push((owned("type"), Json::String(owned("subscription"))));
    proof {
        assert(members_view(ms@) =~= seq![("type"@, JsonV::Str("subscription"@))]);
    }
    object(ms)
}

/// The procedure an IPC request names, or the error response: a request that
/// is not `{"path", "input"}` is a `BAD_REQUEST`, an unknown path a
/// `NOT_FOUND`.
pub open spec fn ipc_target<P>(es: Seq<(Seq<char>, P)>, request: Result<Seq<char>, Seq<char>>) -> Result<P, JsonV> {
    match request {
        Err(m) => Err(response_json(400, ipc_error_json(400, "BAD_REQUEST"@, "Invalid request: "@ + m))),
        Ok(path) => match lookup(es, path) {
            Some(p) => Ok(p),
            None => Err(
                response_json(404, ipc_error_json(404, "NOT_FOUND"@, "Procedure not found: "@ + path)),
            ),
        },
    }
}

/// Finds the procedure an IPC request names (see [`ipc_target`]). `path` is
/// the request's `path` member, or the parser's message when the request has
/// not the expected shape.
pub fn resolve_ipc_request<'a, P>(router: &'a Router<P>, path: Result<String, String>) -> (r: Result<&'a P, Json>)
    ensures
        match ipc_target(router@, match path {
            Ok(p) => Ok(p@),
            Err(m) => Err(m@),
        }) {
            Ok(p) => r matches Ok(q) && *q == p,
            Err(j) => r matches Err(k) && k@ == j,
        },
{
    match path {
        Err(m) => {
            let mut msg = owned("Invalid request: ");
            push_str(&mut msg, m.as_str());
            Err(make_error_response(400, "BAD_REQUEST", msg.as_str()))
        },
        Ok(p) => match router.get(p.as_str()) {
            Some(proc) => Ok(proc),
            None => {
                let mut msg = owned("Procedure not found: ");
                push_str(&mut msg, p.as_str());
                Err(make_error_response(404, "NOT_FOUND", msg.as_str()))
            },
        },
    }
}

/// A `message` event of a subscription channel:
/// `{"data": {"json": v}, "event": "message", "id": id}`.
pub open spec fn channel_message_json(id: u64, v: JsonV) -> JsonV {
    JsonV::Object(seq![("data"@, envelope(v)), ("event"@, JsonV::Str("message"@)), ("id"@, uint(id))])
}

/// The `error` event of a subscription channel:
/// `{"data": {"json": error}, "event": "error"}`.
pub open spec fn channel_error_json(e: JsonV) -> JsonV {
    JsonV::Object(seq![("data"@, envelope(e)), ("event"@, JsonV::Str("error"@))])
}

/// The `done` event of a subscription channel: `{"event": "done"}`.
pub open spec fn channel_done_json() -> JsonV {
    JsonV::Object(seq![("event"@, JsonV::Str("done"@))])
}

/// State of a subscription pushed over a channel: the id of the next
/// message.
pub struct ChannelState {
    next_id: u64,
}

impl View for ChannelState {
    type V = u64;

    closed spec fn view(&self) -> u64 {
        self.next_id
    }
}

impl ChannelState {
    /// A fresh channel; the first message gets id 0.
    pub fn new() -> (s: ChannelState)
        ensures
            s@ == 0,
    {
        ChannelState { next_id: 0 }
    }

    /// The event for what the procedure stream answered, and whether the
    /// subscription goes on: a value gives a `message` event with the next id,
    /// a failure the `error` event answering it (and the end), the end of the
    /// stream the `done` event.
    pub fn on_item(&mut self, item: Option<Result<Json, ProcedureError>>) -> (r: (Json, bool))
        requires
            item matches Some(Ok(_)) ==> old(self)@ < u64::MAX,
        ensures
            match item {
                Some(Ok(v)) => r.0@ == channel_message_json(old(self)@, v@) && r.1 && final(self)@ == old(self)@ + 1,
                Some(Err(e)) => r.0@ == channel_error_json(answer_wire(e).1) && !r.1 && final(self)@ == old(self)@,
                None => r.0@ == channel_done_json() && !r.1 && final(self)@ == old(self)@,
            },
    {
        match item {
            Some(Ok(v)) => {
                let id = self.next_id;
                self.next_id = self.next_id + 1;
                let mut ms: Vec<(String, Json)> = Vec::new();
                let ghost vv = v@;
                ms.push((owned("data"), crate::rpc::envelope_value(v)));
                ms.push((owned("event"), Json::String(owned("message"))));
                ms.push((owned("id"), Json::Number(JsonNumber::PosInt(id))));
                proof {
                    assert(members_view(ms@) =~= channel_message_json(id, vv)->Object_0);
                }
                (object(ms), true)
            },
            Some(Err(e)) => {
                let ghost pe = e;
                let err = procedure_error_to_orpc_error(e);
                proof {
                    lemma_answer_wire(pe, err);
                }
                let mut ms: Vec<(String, Json)> = Vec::new();
                ms.push((owned("data"), crate::rpc::envelope_value(err.to_value())));
                ms.push((owned("event"), Json::String(owned("error"))));
                proof {
                    assert(members_view(ms@) =~= channel_error_json(answer_wire(pe).1)->Object_0);
                }
                (object(ms), false)
            },
            None => {
                let mut ms: Vec<(String, Json)> = Vec::new();
                ms.push((owned("event"), Json::String(owned("done"))));
                proof {
                    assert(members_view(ms@) =~= channel_done_json()->Object_0);
                }
                (object(ms), false)
            },
        }
    }
}

} // verus!
