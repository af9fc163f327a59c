use vstd::prelude::*;
use crate::error::{ORPCError, ErrorCode, error_text, fresh_error, error_json, fresh_error_json, code_status};
use crate::json::JsonV;
use crate::text::{owned, push_str};

verus! {

/// Input deserialization failed; carries the decoder's message.
#[derive(Debug, Clone)]
pub struct DeserializeError(pub String);

/// Output serialization failed; carries the encoder's message.
#[derive(Debug, Clone)]
pub struct SerializeError(pub String);

/// The application-level error a handler or middleware raised: either an
/// [`ORPCError`] or any other error, known by its message.
#[derive(Debug)]
pub enum ResolverError {
    Orpc(ORPCError),
    Other(String),
}

/// Every error of the type-erased execution layer.
#[derive(Debug)]
pub enum ProcedureError {
    /// Input deserialization failed (malformed JSON, type mismatch, ...).
    Deserialize(DeserializeError),
    /// Output serialization failed.
    Serialize(SerializeError),
    /// The handler panicked; carries the panic message.
    Unwind(String),
    /// Application-level error from a handler or middleware.
    Resolver(ResolverError),
}

/// The text shown for a resolver error.
pub open spec fn resolver_text(e: ResolverError) -> Seq<char> {
    match e {
        ResolverError::Orpc(o) => error_text(o),
        ResolverError::Other(m) => m@,
    }
}

/// The text shown for a procedure error.
pub open spec fn procedure_error_text(e: ProcedureError) -> Seq<char> {
    match e {
        ProcedureError::Deserialize(d) => "deserialization error: "@ + d.0@,
        ProcedureError::Serialize(s) => "serialization error: "@ + s.0@,
        ProcedureError::Unwind(_) => "handler panicked"@,
        ProcedureError::Resolver(r) => resolver_text(r),
    }
}

/// The text of the underlying error, for the variants that wrap one.
pub open spec fn procedure_error_source(e: ProcedureError) -> Option<Seq<char>> {
    match e {
        ProcedureError::Deserialize(d) => Some(d.0@),
        ProcedureError::Serialize(s) => Some(s.0@),
        ProcedureError::Unwind(_) => None,
        ProcedureError::Resolver(r) => Some(resolver_text(r)),
    }
}

impl DeserializeError {
    /// The decoder's message.
    pub fn to_string(&self) -> (r: String)
        ensures
            r@ == self.0@,
    {
        self.0.clone()
    }
}

impl SerializeError {
    /// The encoder's message.
    pub fn to_string(&self) -> (r: String)
        ensures
            r@ == self.0@,
    {
        self.0.clone()
    }
}

impl ResolverError {
    /// The text shown for this error.
    pub fn to_string(&self) -> (r: String)
        ensures
            r@ == resolver_text(*self),
    {
        match self {
            ResolverError::Orpc(o) => o.to_string(),
            ResolverError::Other(m) => m.clone(),
        }
    }
}

impl ProcedureError {
    /// The text shown for this error.
    pub fn to_string(&self) -> (r: String)
        ensures
            r@ == procedure_error_text(*self),
    {
        match self {
            ProcedureError::Deserialize(d) => {
                let mut r = owned("deserialization error: ");
                push_str(&mut r, d.0.as_str());
                r
            },
            ProcedureError::Serialize(s) => {
                let mut r = owned("serialization error: ");
                push_str(&mut r, s.0.as_str());
                r
            },
            ProcedureError::Unwind(_) => owned("handler panicked"),
            ProcedureError::Resolver(e) => e.to_string(),
        }
    }

    /// The text of the wrapped error; `None` for a panic.
    pub fn source(&self) -> (r: Option<String>)
        ensures
            match procedure_error_source(*self) {
                Some(t) => r matches Some(s) && s@ == t,
                None => r is None,
            },
    {
        match self {
            ProcedureError::Deserialize(d) => Some(d.0.clone()),
            ProcedureError::Serialize(s) => Some(s.0.clone()),
            ProcedureError::Unwind(_) => None,
            ProcedureError::Resolver(e) => Some(e.to_string()),
        }
    }
}

impl From<DeserializeError> for ProcedureError {
    fn from(err: DeserializeError) -> (r: ProcedureError)
        ensures
            r == ProcedureError::Deserialize(err),
    {
        ProcedureError::Deserialize(err)
    }
}

impl vstd::std_specs::convert::FromSpecImpl<DeserializeError> for ProcedureError {
    open spec fn obeys_from_spec() -> bool {
        true
    }

    open spec fn from_spec(err: DeserializeError) -> ProcedureError {
        ProcedureError::Deserialize(err)
    }
}

impl From<SerializeError> for ProcedureError {
    fn from(err: SerializeError) -> (r: ProcedureError)
        ensures
            r == ProcedureError::Serialize(err),
    {
        ProcedureError::Serialize(err)
    }
}

impl vstd::std_specs::convert::FromSpecImpl<SerializeError> for ProcedureError {
    open spec fn obeys_from_spec() -> bool {
        true
    }

    open spec fn from_spec(err: SerializeError) -> ProcedureError {
        ProcedureError::Serialize(err)
    }
}

impl From<ORPCError> for ProcedureError {
    fn from(err: ORPCError) -> (r: ProcedureError)
        ensures
            r == ProcedureError::Resolver(ResolverError::Orpc(err)),
    {
        ProcedureError::Resolver(ResolverError::Orpc(err))
    }
}

impl vstd::std_specs::convert::FromSpecImpl<ORPCError> for ProcedureError {
    open spec fn obeys_from_spec() -> bool {
        true
    }

    open spec fn from_spec(err: ORPCError) -> ProcedureError {
        ProcedureError::Resolver(ResolverError::Orpc(err))
    }
}

/// The wire error that answers a procedure error, as a spec.
///
/// An [`ORPCError`] raised by a handler is answered as it is; any other
/// resolver error and a panic become `INTERNAL_SERVER_ERROR` with a generic
/// message; a decoding failure becomes `BAD_REQUEST` with the decoder's
/// message; an encoding failure becomes `INTERNAL_SERVER_ERROR`.
pub open spec fn answers(err: ProcedureError, e: ORPCError) -> bool {
    match err {
        ProcedureError::Resolver(ResolverError::Orpc(o)) => e == o,
        ProcedureError::Resolver(ResolverError::Other(_)) => fresh_error(
            e,
            ErrorCode::InternalServerError,
            "Internal server error"@,
        ),
        ProcedureError::Deserialize(d) => fresh_error(
            e,
            ErrorCode::BadRequest,
            "Bad request: "@ + d.0@,
        ),
        ProcedureError::Serialize(_) => fresh_error(
            e,
            ErrorCode::InternalServerError,
            "Response serialization failed"@,
        ),
        ProcedureError::Unwind(_) => fresh_error(
            e,
            ErrorCode::InternalServerError,
            "Internal server error"@,
        ),
    }
}

/// The status and JSON value of the wire error that answers `err` (see
/// [`answers`]).
pub open spec fn answer_wire(err: ProcedureError) -> (u16, JsonV) {
    match err {
        ProcedureError::Resolver(ResolverError::Orpc(o)) => (o.status, error_json(o)),
        ProcedureError::Resolver(ResolverError::Other(_)) => (
            code_status(ErrorCode::InternalServerError),
            fresh_error_json(ErrorCode::InternalServerError, "Internal server error"@),
        ),
        ProcedureError::Deserialize(d) => (
            code_status(ErrorCode::BadRequest),
            fresh_error_json(ErrorCode::BadRequest, "Bad request: "@ + d.0@),
        ),
        ProcedureError::Serialize(_) => (
            code_status(ErrorCode::InternalServerError),
            fresh_error_json(ErrorCode::InternalServerError, "Response serialization failed"@),
        ),
        ProcedureError::Unwind(_) => (
            code_status(ErrorCode::InternalServerError),
            fresh_error_json(ErrorCode::InternalServerError, "Internal server error"@),
        ),
    }
}

/// An error that answers `err` has the status and JSON value of
/// [`answer_wire`].
pub proof fn lemma_answer_wire(err: ProcedureError, e: ORPCError)
    requires
        answers(err, e),
    ensures
        (e.status, error_json(e)) == answer_wire(err),
{
    match err {
        ProcedureError::Resolver(ResolverError::Orpc(o)) => {},
        _ => {
            assert(error_json(e)->Object_0 =~= fresh_error_json(e.code, e.message@)->Object_0);
        },
    }
}

/// Converts a procedure error into the [`ORPCError`] sent on the wire.
pub fn procedure_error_to_orpc_error(err: ProcedureError) -> (e: ORPCError)
    ensures
        answers(err, e),
{
    match err {
        ProcedureError::Resolver(ResolverError::Orpc(o)) => o,
        ProcedureError::Resolver(ResolverError::Other(_)) => ORPCError::internal_server_error(
            "Internal server error",
        ),
        ProcedureError::Deserialize(d) => {
            let mut m = owned("Bad request: ");
            push_str(&mut m, d.0.as_str());
            ORPCError::from_message(ErrorCode::BadRequest, m)
        },
        ProcedureError::Serialize(_) => ORPCError::internal_server_error(
            "Response serialization failed",
        ),
        ProcedureError::Unwind(_) => ORPCError::internal_server_error("Internal server error"),
    }
}

/// An [`ORPCError`] raised by a handler reaches the wire unchanged: the error
/// that answers it has the raised error's code, message, status, data and
/// `defined` flag, and the wire answer is the raised status with the raised
/// error's JSON, its `data` included.
pub proof fn law_raised_error_unchanged(o: ORPCError, e: ORPCError)
    requires
        answers(ProcedureError::Resolver(ResolverError::Orpc(o)), e),
    ensures
        e.code == o.code,
        e.message@ == o.message@,
        e.status == o.status,
        e.data == o.data,
        e.defined == o.defined,
        answer_wire(ProcedureError::Resolver(ResolverError::Orpc(o))).0 == o.status,
        answer_wire(ProcedureError::Resolver(ResolverError::Orpc(o))).1 == error_json(o),
        answer_wire(ProcedureError::Resolver(ResolverError::Orpc(o))).1 matches JsonV::Object(ms) && (match o.data {
            Some(d) => exists|i: int| 0 <= i < ms.len() && #[trigger] ms[i] == ("data"@, d@),
            None => forall|i: int| 0 <= i < ms.len() ==> (#[trigger] ms[i]).0 != "data"@,
        }),
{
    reveal_strlit("data");
    reveal_strlit("code");
    reveal_strlit("defined");
    reveal_strlit("message");
    reveal_strlit("status");
    let w = answer_wire(ProcedureError::Resolver(ResolverError::Orpc(o))).1;
    match o.data {
        Some(d) => {
            assert(w->Object_0[1] == ("data"@, d@));
        },
        None => {
            assert forall|i: int| 0 <= i < w->Object_0.len() implies (#[trigger] w->Object_0[i]).0 != "data"@ by {
                if i == 0 {
                    assert("code"@[0] != "data"@[0]);
                } else if i == 1 {
                    assert("defined"@[1] != "data"@[1]);
                } else if i == 2 {
                    assert("message"@[0] != "data"@[0]);
                } else {
                    assert("status"@[0] != "data"@[0]);
                }
            }
        },
    }
}

} // verus!
