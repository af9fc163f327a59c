use vstd::prelude::*;
use crate::json::{Json, JsonV, JsonNumber, NumberV, members_view};
use crate::text::{str_eq, owned, push_str, push_decimal, decimal};

verus! {

/// Error codes of the oRPC wire protocol. Every code travels as a plain
/// string; `Custom` carries a user-defined code verbatim.
#[derive(Debug, Clone, PartialEq, Eq)]
pub enum ErrorCode {
    BadRequest,
    Unauthorized,
    Forbidden,
    NotFound,
    MethodNotAllowed,
    NotAcceptable,
    Timeout,
    Conflict,
    PreconditionFailed,
    PayloadTooLarge,
    UnsupportedMediaType,
    UnprocessableContent,
    TooManyRequests,
    ClientClosedRequest,
    InternalServerError,
    NotImplemented,
    BadGateway,
    ServiceUnavailable,
    GatewayTimeout,
    Custom(String),
}

/// The wire name of a code.
pub open spec fn code_name(c: ErrorCode) -> Seq<char> {
    match c {
        ErrorCode::BadRequest => "BAD_REQUEST"@,
        ErrorCode::Unauthorized => "UNAUTHORIZED"@,
        ErrorCode::Forbidden => "FORBIDDEN"@,
        ErrorCode::NotFound => "NOT_FOUND"@,
        ErrorCode::MethodNotAllowed => "METHOD_NOT_ALLOWED"@,
        ErrorCode::NotAcceptable => "NOT_ACCEPTABLE"@,
        ErrorCode::Timeout => "TIMEOUT"@,
        ErrorCode::Conflict => "CONFLICT"@,
        ErrorCode::PreconditionFailed => "PRECONDITION_FAILED"@,
        ErrorCode::PayloadTooLarge => "PAYLOAD_TOO_LARGE"@,
        ErrorCode::UnsupportedMediaType => "UNSUPPORTED_MEDIA_TYPE"@,
        ErrorCode::UnprocessableContent => "UNPROCESSABLE_CONTENT"@,
        ErrorCode::TooManyRequests => "TOO_MANY_REQUESTS"@,
        ErrorCode::ClientClosedRequest => "CLIENT_CLOSED_REQUEST"@,
        ErrorCode::InternalServerError => "INTERNAL_SERVER_ERROR"@,
        ErrorCode::NotImplemented => "NOT_IMPLEMENTED"@,
        ErrorCode::BadGateway => "BAD_GATEWAY"@,
        ErrorCode::ServiceUnavailable => "SERVICE_UNAVAILABLE"@,
        ErrorCode::GatewayTimeout => "GATEWAY_TIMEOUT"@,
        ErrorCode::Custom(s) => s@,
    }
}

/// `true` when `s` is the wire name of one of the predefined codes.
pub open spec fn is_standard_name(s: Seq<char>) -> bool {
    ||| s == "BAD_REQUEST"@
    ||| s == "UNAUTHORIZED"@
    ||| s == "FORBIDDEN"@
    ||| s == "NOT_FOUND"@
    ||| s == "METHOD_NOT_ALLOWED"@
    ||| s == "NOT_ACCEPTABLE"@
    ||| s == "TIMEOUT"@
    ||| s == "CONFLICT"@
    ||| s == "PRECONDITION_FAILED"@
    ||| s == "PAYLOAD_TOO_LARGE"@
    ||| s == "UNSUPPORTED_MEDIA_TYPE"@
    ||| s == "UNPROCESSABLE_CONTENT"@
    ||| s == "TOO_MANY_REQUESTS"@
    ||| s == "CLIENT_CLOSED_REQUEST"@
    ||| s == "INTERNAL_SERVER_ERROR"@
    ||| s == "NOT_IMPLEMENTED"@
    ||| s == "BAD_GATEWAY"@
    ||| s == "SERVICE_UNAVAILABLE"@
    ||| s == "GATEWAY_TIMEOUT"@
}

/// The predefined code whose wire name is `s`, if there is one.
pub open spec fn standard_code(s: Seq<char>) -> Option<ErrorCode> {
    if s == "BAD_REQUEST"@ {
        Some(ErrorCode::BadRequest)
    } else if s == "UNAUTHORIZED"@ {
        Some(ErrorCode::Unauthorized)
    } else if s == "FORBIDDEN"@ {
        Some(ErrorCode::Forbidden)
    } else if s == "NOT_FOUND"@ {
        Some(ErrorCode::NotFound)
    } else if s == "METHOD_NOT_ALLOWED"@ {
        Some(ErrorCode::MethodNotAllowed)
    } else if s == "NOT_ACCEPTABLE"@ {
        Some(ErrorCode::NotAcceptable)
    } else if s == "TIMEOUT"@ {
        Some(ErrorCode::Timeout)
    } else if s == "CONFLICT"@ {
        Some(ErrorCode::Conflict)
    } else if s == "PRECONDITION_FAILED"@ {
        Some(ErrorCode::PreconditionFailed)
    } else if s == "PAYLOAD_TOO_LARGE"@ {
        Some(ErrorCode::PayloadTooLarge)
    } else if s == "UNSUPPORTED_MEDIA_TYPE"@ {
        Some(ErrorCode::UnsupportedMediaType)
    } else if s == "UNPROCESSABLE_CONTENT"@ {
        Some(ErrorCode::UnprocessableContent)
    } else if s == "TOO_MANY_REQUESTS"@ {
        Some(ErrorCode::TooManyRequests)
    } else if s == "CLIENT_CLOSED_REQUEST"@ {
        Some(ErrorCode::ClientClosedRequest)
    } else if s == "INTERNAL_SERVER_ERROR"@ {
        Some(ErrorCode::InternalServerError)
    } else if s == "NOT_IMPLEMENTED"@ {
        Some(ErrorCode::NotImplemented)
    } else if s == "BAD_GATEWAY"@ {
        Some(ErrorCode::BadGateway)
    } else if s == "SERVICE_UNAVAILABLE"@ {
        Some(ErrorCode::ServiceUnavailable)
    } else if s == "GATEWAY_TIMEOUT"@ {
        Some(ErrorCode::GatewayTimeout)
    } else {
        None
    }
}

/// The default HTTP status of a code.
pub open spec fn code_status(c: ErrorCode) -> u16 {
    match c {
        ErrorCode::BadRequest => 400,
        ErrorCode::Unauthorized => 401,
        ErrorCode::Forbidden => 403,
        ErrorCode::NotFound => 404,
        ErrorCode::MethodNotAllowed => 405,
        ErrorCode::NotAcceptable => 406,
        ErrorCode::Timeout => 408,
        ErrorCode::Conflict => 409,
        ErrorCode::PreconditionFailed => 412,
        ErrorCode::PayloadTooLarge => 413,
        ErrorCode::UnsupportedMediaType => 415,
        ErrorCode::UnprocessableContent => 422,
        ErrorCode::TooManyRequests => 429,
        ErrorCode::ClientClosedRequest => 499,
        ErrorCode::InternalServerError => 500,
        ErrorCode::NotImplemented => 501,
        ErrorCode::BadGateway => 502,
        ErrorCode::ServiceUnavailable => 503,
        ErrorCode::GatewayTimeout => 504,
        ErrorCode::Custom(_) => 500,
    }
}

impl ErrorCode {
    /// The wire name of this code.
    pub fn as_str(&self) -> (r: &str)
        ensures
            r@ == code_name(*self),
    {
        match self {
            ErrorCode::BadRequest => "BAD_REQUEST",
            ErrorCode::Unauthorized => "UNAUTHORIZED",
            ErrorCode::Forbidden => "FORBIDDEN",
            ErrorCode::NotFound => "NOT_FOUND",
            ErrorCode::MethodNotAllowed => "METHOD_NOT_ALLOWED",
            ErrorCode::NotAcceptable => "NOT_ACCEPTABLE",
            ErrorCode::Timeout => "TIMEOUT",
            ErrorCode::Conflict => "CONFLICT",
            ErrorCode::PreconditionFailed => "PRECONDITION_FAILED",
            ErrorCode::PayloadTooLarge => "PAYLOAD_TOO_LARGE",
            ErrorCode::UnsupportedMediaType => "UNSUPPORTED_MEDIA_TYPE",
            ErrorCode::UnprocessableContent => "UNPROCESSABLE_CONTENT",
            ErrorCode::TooManyRequests => "TOO_MANY_REQUESTS",
            ErrorCode::ClientClosedRequest => "CLIENT_CLOSED_REQUEST",
            ErrorCode::InternalServerError => "INTERNAL_SERVER_ERROR",
            ErrorCode::NotImplemented => "NOT_IMPLEMENTED",
            ErrorCode::BadGateway => "BAD_GATEWAY",
            ErrorCode::ServiceUnavailable => "SERVICE_UNAVAILABLE",
            ErrorCode::GatewayTimeout => "GATEWAY_TIMEOUT",
            ErrorCode::Custom(code) => code.as_str(),
        }
    }

    /// The code whose wire name is `s`; an unknown name becomes `Custom(s)`.
    pub fn from_str(s: &str) -> (r: ErrorCode)
        ensures
            match standard_code(s@) {
                Some(c) => r == c,
                None => r matches ErrorCode::Custom(t) && t@ == s@,
            },
    {
        if str_eq(s, "BAD_REQUEST") {
            ErrorCode::BadRequest
        } else if str_eq(s, "UNAUTHORIZED") {
            ErrorCode::Unauthorized
        } else if str_eq(s, "FORBIDDEN") {
            ErrorCode::Forbidden
        } else if str_eq(s, "NOT_FOUND") {
            ErrorCode::NotFound
        } else if str_eq(s, "METHOD_NOT_ALLOWED") {
            ErrorCode::MethodNotAllowed
        } else if str_eq(s, "NOT_ACCEPTABLE") {
            ErrorCode::NotAcceptable
        } else if str_eq(s, "TIMEOUT") {
            ErrorCode::Timeout
        } else if str_eq(s, "CONFLICT") {
            ErrorCode::Conflict
        } else if str_eq(s, "PRECONDITION_FAILED") {
            ErrorCode::PreconditionFailed
        } else if str_eq(s, "PAYLOAD_TOO_LARGE") {
            ErrorCode::PayloadTooLarge
        } else if str_eq(s, "UNSUPPORTED_MEDIA_TYPE") {
            ErrorCode::UnsupportedMediaType
        } else if str_eq(s, "UNPROCESSABLE_CONTENT") {
            ErrorCode::UnprocessableContent
        } else if str_eq(s, "TOO_MANY_REQUESTS") {
            ErrorCode::TooManyRequests
        } else if str_eq(s, "CLIENT_CLOSED_REQUEST") {
            ErrorCode::ClientClosedRequest
        } else if str_eq(s, "INTERNAL_SERVER_ERROR") {
            ErrorCode::InternalServerError
        } else if str_eq(s, "NOT_IMPLEMENTED") {
            ErrorCode::NotImplemented
        } else if str_eq(s, "BAD_GATEWAY") {
            ErrorCode::BadGateway
        } else if str_eq(s, "SERVICE_UNAVAILABLE") {
            ErrorCode::ServiceUnavailable
        } else if str_eq(s, "GATEWAY_TIMEOUT") {
            ErrorCode::GatewayTimeout
        } else {
            ErrorCode::Custom(owned(s))
        }
    }

    /// Default HTTP status for this code (custom codes map to 500).
    pub fn status(&self) -> (r: u16)
        ensures
            r == code_status(*self),
    {
        match self {
            ErrorCode::BadRequest => 400,
            ErrorCode::Unauthorized => 401,
            ErrorCode::Forbidden => 403,
            ErrorCode::NotFound => 404,
            ErrorCode::MethodNotAllowed => 405,
            ErrorCode::NotAcceptable => 406,
            ErrorCode::Timeout => 408,
            ErrorCode::Conflict => 409,
            ErrorCode::PreconditionFailed => 412,
            ErrorCode::PayloadTooLarge => 413,
            ErrorCode::UnsupportedMediaType => 415,
            ErrorCode::UnprocessableContent => 422,
            ErrorCode::TooManyRequests => 429,
            ErrorCode::ClientClosedRequest => 499,
            ErrorCode::InternalServerError => 500,
            ErrorCode::NotImplemented => 501,
            ErrorCode::BadGateway => 502,
            ErrorCode::ServiceUnavailable => 503,
            ErrorCode::GatewayTimeout => 504,
            ErrorCode::Custom(_) => 500,
        }
    }

    /// The text shown for this code (its wire name).
    pub fn to_string(&self) -> (r: String)
        ensures
            r@ == code_name(*self),
    {
        owned(self.as_str())
    }
}

/// Application-level RPC error, in the shape `@orpc/client` expects:
/// `{ "code": ..., "message": ..., "status": ..., "data"?: ..., "defined": ... }`.
#[derive(Debug)]
pub struct ORPCError {
    pub code: ErrorCode,
    pub message: String,
    pub status: u16,
    pub data: Option<Json>,
    pub defined: bool,
}

/// `e` is a fresh error with code `code`, message `message`, the code's
/// default status, no data, and not marked as defined.
pub open spec fn fresh_error(e: ORPCError, code: ErrorCode, message: Seq<char>) -> bool {
    &&& e.code == code
    &&& e.message@ == message
    &&& e.status == code_status(code)
    &&& e.data is None
    &&& !e.defined
}

/// The model of the JSON value that represents `e` on the wire: an object
/// whose members come in key order (`code`, `data` when present, `defined`,
/// `message`, `status`), as the JSON value model lays out its maps.
pub open spec fn error_json(e: ORPCError) -> JsonV {
    let data = match e.data {
        Some(d) => seq![("data"@, d@)],
        None => Seq::empty(),
    };
    JsonV::Object(
        seq![("code"@, JsonV::Str(code_name(e.code)))] + data + seq![
            ("defined"@, JsonV::Bool(e.defined)),
            ("message"@, JsonV::Str(e.message@)),
            ("status"@, JsonV::Number(NumberV::PosInt(e.status as u64))),
        ],
    )
}

/// The JSON value of a fresh error with code `code` and message `message`
/// (see [`fresh_error`]).
pub open spec fn fresh_error_json(code: ErrorCode, message: Seq<char>) -> JsonV {
    JsonV::Object(
        seq![
            ("code"@, JsonV::Str(code_name(code))),
            ("defined"@, JsonV::Bool(false)),
            ("message"@, JsonV::Str(message)),
            ("status"@, JsonV::Number(NumberV::PosInt(code_status(code) as u64))),
        ],
    )
}

/// The text shown for `e`: `[CODE] message`.
pub open spec fn error_text(e: ORPCError) -> Seq<char> {
    "["@ + code_name(e.code) + "] "@ + e.message@
}

impl ORPCError {
    /// An error with the given code and message and the code's default status.
    pub fn new(code: ErrorCode, message: &str) -> (e: ORPCError)
        ensures
            fresh_error(e, code, message@),
    {
        ORPCError::from_message(code, owned(message))
    }

    /// Like [`ORPCError::new`], taking an owned message.
    pub fn from_message(code: ErrorCode, message: String) -> (e: ORPCError)
        ensures
            fresh_error(e, code, message@),
    {
        let status = code.status();
        ORPCError { code, message, status, data: None, defined: false }
    }

    /// Attaches data; every other field is kept.
    pub fn with_data(self, data: Json) -> (e: ORPCError)
        ensures
            e.data == Some(data),
            e.code == self.code,
            e.message == self.message,
            e.status == self.status,
            e.defined == self.defined,
    {
        let mut e = self;
        e.data = Some(data);
        e
    }

    /// Overrides the status; every other field is kept.
    pub fn with_status(self, status: u16) -> (e: ORPCError)
        ensures
            e.status == status,
            e.code == self.code,
            e.message == self.message,
            e.data == self.data,
            e.defined == self.defined,
    {
        let mut e = self;
        e.status = status;
        e
    }

    /// `BAD_REQUEST` (400).
    pub fn bad_request(message: &str) -> (e: ORPCError)
        ensures
            fresh_error(e, ErrorCode::BadRequest, message@),
            e.status == 400,
    {
        ORPCError::new(ErrorCode::BadRequest, message)
    }

    /// `UNAUTHORIZED` (401).
    pub fn unauthorized(message: &str) -> (e: ORPCError)
        ensures
            fresh_error(e, ErrorCode::Unauthorized, message@),
            e.status == 401,
    {
        ORPCError::new(ErrorCode::Unauthorized, message)
    }

    /// `FORBIDDEN` (403).
    pub fn forbidden(message: &str) -> (e: ORPCError)
        ensures
            fresh_error(e, ErrorCode::Forbidden, message@),
            e.status == 403,
    {
        ORPCError::new(ErrorCode::Forbidden, message)
    }

    /// `NOT_FOUND` (404).
    pub fn not_found(message: &str) -> (e: ORPCError)
        ensures
            fresh_error(e, ErrorCode::NotFound, message@),
            e.status == 404,
    {
        ORPCError::new(ErrorCode::NotFound, message)
    }

    /// `INTERNAL_SERVER_ERROR` (500).
    pub fn internal_server_error(message: &str) -> (e: ORPCError)
        ensures
            fresh_error(e, ErrorCode::InternalServerError, message@),
            e.status == 500,
    {
        ORPCError::new(ErrorCode::InternalServerError, message)
    }

    /// The text shown for this error: `[CODE] message`.
    pub fn to_string(&self) -> (r: String)
        ensures
            r@ == error_text(*self),
    {
        let mut r = owned("[");
        push_str(&mut r, self.code.as_str());
        push_str(&mut r, "] ");
        push_str(&mut r, self.message.as_str());
        r
    }

    /// The JSON value that represents this error on the wire (see
    /// [`error_json`]).
    pub fn to_value(&self) -> (j: Json)
        ensures
            j@ == error_json(*self),
    {
        let mut members: Vec<(String, Json)> = Vec::new();
        members.push((owned("code"), Json::String(owned(self.code.as_str()))));
        match &self.data {
            Some(d) => {
                members.push((owned("data"), d.copy()));
            },
            None => {},
        }
        members.push((owned("defined"), Json::Bool(self.defined)));
        members.push((owned("message"), Json::String(self.message.clone())));
        members.push((owned("status"), Json::Number(JsonNumber::PosInt(self.status as u64))));
        proof {
            crate::json::lemma_object_view(members);
            assert(members_view(members@) =~= match error_json(*self) {
                JsonV::Object(m) => m,
                _ => Seq::empty(),
            });
        }
        Json::Object(members)
    }
}

/// Reading a wire name and writing it back gives the same name: for every
/// string `s`, the code read from `s` has `s` as its name.
pub proof fn law_code_name_roundtrip(s: Seq<char>)
    ensures
        standard_code(s) matches Some(c) ==> code_name(c) == s,
        standard_code(s) is None <==> !is_standard_name(s),
{
}

/// Writing a code and reading its name back gives the same code, for every
/// code except a custom code that borrows a predefined name.
pub proof fn law_code_roundtrip(c: ErrorCode)
    requires
        !(c is Custom && is_standard_name(code_name(c))),
    ensures
        match standard_code(code_name(c)) {
            Some(d) => d == c,
            None => c is Custom,
        },
{
    match c {
        ErrorCode::Custom(_) => {},
        ErrorCode::BadRequest => {
            reveal_strlit("BAD_REQUEST");
        },
        ErrorCode::Unauthorized => {
            reveal_strlit("UNAUTHORIZED");
            reveal_strlit("BAD_REQUEST");
            assert("UNAUTHORIZED"@.len() == 12 && "BAD_REQUEST"@.len() == 11);
            assert("UNAUTHORIZED"@ != "BAD_REQUEST"@);
        },
        ErrorCode::Forbidden => {
            reveal_strlit("FORBIDDEN");
            reveal_strlit("BAD_REQUEST");
            assert("FORBIDDEN"@.len() == 9 && "BAD_REQUEST"@.len() == 11);
            assert("FORBIDDEN"@ != "BAD_REQUEST"@);
            reveal_strlit("UNAUTHORIZED");
            assert("FORBIDDEN"@.len() == 9 && "UNAUTHORIZED"@.len() == 12);
            assert("FORBIDDEN"@ != "UNAUTHORIZED"@);
        },
        ErrorCode::NotFound => {
            reveal_strlit("NOT_FOUND");
            reveal_strlit("BAD_REQUEST");
            assert("NOT_FOUND"@.len() == 9 && "BAD_REQUEST"@.len() == 11);
            assert("NOT_FOUND"@ != "BAD_REQUEST"@);
            reveal_strlit("UNAUTHORIZED");
            assert("NOT_FOUND"@.len() == 9 && "UNAUTHORIZED"@.len() == 12);
            assert("NOT_FOUND"@ != "UNAUTHORIZED"@);
            reveal_strlit("FORBIDDEN");
            assert("NOT_FOUND"@ != "FORBIDDEN"@) by { assert("NOT_FOUND"@[0] != "FORBIDDEN"@[0]); }
        },
        ErrorCode::MethodNotAllowed => {
            reveal_strlit("METHOD_NOT_ALLOWED");
            reveal_strlit("BAD_REQUEST");
            assert("METHOD_NOT_ALLOWED"@.len() == 18 && "BAD_REQUEST"@.len() == 11);
            assert("METHOD_NOT_ALLOWED"@ != "BAD_REQUEST"@);
            reveal_strlit("UNAUTHORIZED");
            assert("METHOD_NOT_ALLOWED"@.len() == 18 && "UNAUTHORIZED"@.len() == 12);
            assert("METHOD_NOT_ALLOWED"@ != "UNAUTHORIZED"@);
            reveal_strlit("FORBIDDEN");
            assert("METHOD_NOT_ALLOWED"@.len() == 18 && "FORBIDDEN"@.len() == 9);
            assert("METHOD_NOT_ALLOWED"@ != "FORBIDDEN"@);
            reveal_strlit("NOT_FOUND");
            assert("METHOD_NOT_ALLOWED"@.len() == 18 && "NOT_FOUND"@.len() == 9);
            assert("METHOD_NOT_ALLOWED"@ != "NOT_FOUND"@);
        },
        ErrorCode::NotAcceptable => {
            reveal_strlit("NOT_ACCEPTABLE");
            reveal_strlit("BAD_REQUEST");
            assert("NOT_ACCEPTABLE"@.len() == 14 && "BAD_REQUEST"@.len() == 11);
            assert("NOT_ACCEPTABLE"@ != "BAD_REQUEST"@);
            reveal_strlit("UNAUTHORIZED");
            assert("NOT_ACCEPTABLE"@.len() == 14 && "UNAUTHORIZED"@.len() == 12);
            assert("NOT_ACCEPTABLE"@ != "UNAUTHORIZED"@);
            reveal_strlit("FORBIDDEN");
            assert("NOT_ACCEPTABLE"@.len() == 14 && "FORBIDDEN"@.len() == 9);
            assert("NOT_ACCEPTABLE"@ != "FORBIDDEN"@);
            reveal_strlit("NOT_FOUND");
            assert("NOT_ACCEPTABLE"@.len() == 14 && "NOT_FOUND"@.len() == 9);
            assert("NOT_ACCEPTABLE"@ != "NOT_FOUND"@);
            reveal_strlit("METHOD_NOT_ALLOWED");
            assert("NOT_ACCEPTABLE"@.len() == 14 && "METHOD_NOT_ALLOWED"@.len() == 18);
            assert("NOT_ACCEPTABLE"@ != "METHOD_NOT_ALLOWED"@);
        },
        ErrorCode::Timeout => {
            reveal_strlit("TIMEOUT");
            reveal_strlit("BAD_REQUEST");
            assert("TIMEOUT"@.len() == 7 && "BAD_REQUEST"@.len() == 11);
            assert("TIMEOUT"@ != "BAD_REQUEST"@);
            reveal_strlit("UNAUTHORIZED");
            assert("TIMEOUT"@.len() == 7 && "UNAUTHORIZED"@.len() == 12);
            assert("TIMEOUT"@ != "UNAUTHORIZED"@);
            reveal_strlit("FORBIDDEN");
            assert("TIMEOUT"@.len() == 7 && "FORBIDDEN"@.len() == 9);
            assert("TIMEOUT"@ != "FORBIDDEN"@);
            reveal_strlit("NOT_FOUND");
            assert("TIMEOUT"@.len() == 7 && "NOT_FOUND"@.len() == 9);
            assert("TIMEOUT"@ != "NOT_FOUND"@);
            reveal_strlit("METHOD_NOT_ALLOWED");
            assert("TIMEOUT"@.len() == 7 && "METHOD_NOT_ALLOWED"@.len() == 18);
            assert("TIMEOUT"@ != "METHOD_NOT_ALLOWED"@);
            reveal_strlit("NOT_ACCEPTABLE");
            assert("TIMEOUT"@.len() == 7 && "NOT_ACCEPTABLE"@.len() == 14);
            assert("TIMEOUT"@ != "NOT_ACCEPTABLE"@);
        },
        ErrorCode::Conflict => {
            reveal_strlit("CONFLICT");
            reveal_strlit("BAD_REQUEST");
            assert("CONFLICT"@.len() == 8 && "BAD_REQUEST"@.len() == 11);
            assert("CONFLICT"@ != "BAD_REQUEST"@);
            reveal_strlit("UNAUTHORIZED");
            assert("CONFLICT"@.len() == 8 && "UNAUTHORIZED"@.len() == 12);
            assert("CONFLICT"@ != "UNAUTHORIZED"@);
            reveal_strlit("FORBIDDEN");
            assert("CONFLICT"@.len() == 8 && "FORBIDDEN"@.len() == 9);
            assert("CONFLICT"@ != "FORBIDDEN"@);
            reveal_strlit("NOT_FOUND");
            assert("CONFLICT"@.len() == 8 && "NOT_FOUND"@.len() == 9);
            assert("CONFLICT"@ != "NOT_FOUND"@);
            reveal_strlit("METHOD_NOT_ALLOWED");
            assert("CONFLICT"@.len() == 8 && "METHOD_NOT_ALLOWED"@.len() == 18);
            assert("CONFLICT"@ != "METHOD_NOT_ALLOWED"@);
            reveal_strlit("NOT_ACCEPTABLE");
            assert("CONFLICT"@.len() == 8 && "NOT_ACCEPTABLE"@.len() == 14);
            assert("CONFLICT"@ != "NOT_ACCEPTABLE"@);
            reveal_strlit("TIMEOUT");
            assert("CONFLICT"@.len() == 8 && "TIMEOUT"@.len() == 7);
            assert("CONFLICT"@ != "TIMEOUT"@);
        },
        ErrorCode::PreconditionFailed => {
            reveal_strlit("PRECONDITION_FAILED");
            reveal_strlit("BAD_REQUEST");
            assert("PRECONDITION_FAILED"@.len() == 19 && "BAD_REQUEST"@.len() == 11);
            assert("PRECONDITION_FAILED"@ != "BAD_REQUEST"@);
            reveal_strlit("UNAUTHORIZED");
            assert("PRECONDITION_FAILED"@.len() == 19 && "UNAUTHORIZED"@.len() == 12);
            assert("PRECONDITION_FAILED"@ != "UNAUTHORIZED"@);
            reveal_strlit("FORBIDDEN");
            assert("PRECONDITION_FAILED"@.len() == 19 && "FORBIDDEN"@.len() == 9);
            assert("PRECONDITION_FAILED"@ != "FORBIDDEN"@);
            reveal_strlit("NOT_FOUND");
            assert("PRECONDITION_FAILED"@.len() == 19 && "NOT_FOUND"@.len() == 9);
            assert("PRECONDITION_FAILED"@ != "NOT_FOUND"@);
            reveal_strlit("METHOD_NOT_ALLOWED");
            assert("PRECONDITION_FAILED"@.len() == 19 && "METHOD_NOT_ALLOWED"@.len() == 18);
            assert("PRECONDITION_FAILED"@ != "METHOD_NOT_ALLOWED"@);
            reveal_strlit("NOT_ACCEPTABLE");
            assert("PRECONDITION_FAILED"@.len() == 19 && "NOT_ACCEPTABLE"@.len() == 14);
            assert("PRECONDITION_FAILED"@ != "NOT_ACCEPTABLE"@);
            reveal_strlit("TIMEOUT");
            assert("PRECONDITION_FAILED"@.len() == 19 && "TIMEOUT"@.len() == 7);
            assert("PRECONDITION_FAILED"@ != "TIMEOUT"@);
            reveal_strlit("CONFLICT");
            assert("PRECONDITION_FAILED"@.len() == 19 && "CONFLICT"@.len() == 8);
            assert("PRECONDITION_FAILED"@ != "CONFLICT"@);
        },
        ErrorCode::PayloadTooLarge => {
            reveal_strlit("PAYLOAD_TOO_LARGE");
            reveal_strlit("BAD_REQUEST");
            assert("PAYLOAD_TOO_LARGE"@.len() == 17 && "BAD_REQUEST"@.len() == 11);
            assert("PAYLOAD_TOO_LARGE"@ != "BAD_REQUEST"@);
            reveal_strlit("UNAUTHORIZED");
            assert("PAYLOAD_TOO_LARGE"@.len() == 17 && "UNAUTHORIZED"@.len() == 12);
            assert("PAYLOAD_TOO_LARGE"@ != "UNAUTHORIZED"@);
            reveal_strlit("FORBIDDEN");
            assert("PAYLOAD_TOO_LARGE"@.len() == 17 && "FORBIDDEN"@.len() == 9);
            assert("PAYLOAD_TOO_LARGE"@ != "FORBIDDEN"@);
            reveal_strlit("NOT_FOUND");
            assert("PAYLOAD_TOO_LARGE"@.len() == 17 && "NOT_FOUND"@.len() == 9);
            assert("PAYLOAD_TOO_LARGE"@ != "NOT_FOUND"@);
            reveal_strlit("METHOD_NOT_ALLOWED");
            assert("PAYLOAD_TOO_LARGE"@.len() == 17 && "METHOD_NOT_ALLOWED"@.len() == 18);
            assert("PAYLOAD_TOO_LARGE"@ != "METHOD_NOT_ALLOWED"@);
            reveal_strlit("NOT_ACCEPTABLE");
            assert("PAYLOAD_TOO_LARGE"@.len() == 17 && "NOT_ACCEPTABLE"@.len() == 14);
            assert("PAYLOAD_TOO_LARGE"@ != "NOT_ACCEPTABLE"@);
            reveal_strlit("TIMEOUT");
            assert("PAYLOAD_TOO_LARGE"@.len() == 17 && "TIMEOUT"@.len() == 7);
            assert("PAYLOAD_TOO_LARGE"@ != "TIMEOUT"@);
            reveal_strlit("CONFLICT");
            assert("PAYLOAD_TOO_LARGE"@.len() == 17 && "CONFLICT"@.len() == 8);
            assert("PAYLOAD_TOO_LARGE"@ != "CONFLICT"@);
            reveal_strlit("PRECONDITION_FAILED");
            assert("PAYLOAD_TOO_LARGE"@.len() == 17 && "PRECONDITION_FAILED"@.len() == 19);
            assert("PAYLOAD_TOO_LARGE"@ != "PRECONDITION_FAILED"@);
        },
        ErrorCode::UnsupportedMediaType => {
            reveal_strlit("UNSUPPORTED_MEDIA_TYPE");
            reveal_strlit("BAD_REQUEST");
            assert("UNSUPPORTED_MEDIA_TYPE"@.len() == 22 && "BAD_REQUEST"@.len() == 11);
            assert("UNSUPPORTED_MEDIA_TYPE"@ != "BAD_REQUEST"@);
            reveal_strlit("UNAUTHORIZED");
            assert("UNSUPPORTED_MEDIA_TYPE"@.len() == 22 && "UNAUTHORIZED"@.len() == 12);
            assert("UNSUPPORTED_MEDIA_TYPE"@ != "UNAUTHORIZED"@);
            reveal_strlit("FORBIDDEN");
            assert("UNSUPPORTED_MEDIA_TYPE"@.len() == 22 && "FORBIDDEN"@.len() == 9);
            assert("UNSUPPORTED_MEDIA_TYPE"@ != "FORBIDDEN"@);
            reveal_strlit("NOT_FOUND");
            assert("UNSUPPORTED_MEDIA_TYPE"@.len() == 22 && "NOT_FOUND"@.len() == 9);
            assert("UNSUPPORTED_MEDIA_TYPE"@ != "NOT_FOUND"@);
            reveal_strlit("METHOD_NOT_ALLOWED");
            assert("UNSUPPORTED_MEDIA_TYPE"@.len() == 22 && "METHOD_NOT_ALLOWED"@.len() == 18);
            assert("UNSUPPORTED_MEDIA_TYPE"@ != "METHOD_NOT_ALLOWED"@);
            reveal_strlit("NOT_ACCEPTABLE");
            assert("UNSUPPORTED_MEDIA_TYPE"@.len() == 22 && "NOT_ACCEPTABLE"@.len() == 14);
            assert("UNSUPPORTED_MEDIA_TYPE"@ != "NOT_ACCEPTABLE"@);
            reveal_strlit("TIMEOUT");
            assert("UNSUPPORTED_MEDIA_TYPE"@.len() == 22 && "TIMEOUT"@.len() == 7);
            assert("UNSUPPORTED_MEDIA_TYPE"@ != "TIMEOUT"@);
            reveal_strlit("CONFLICT");
            assert("UNSUPPORTED_MEDIA_TYPE"@.len() == 22 && "CONFLICT"@.len() == 8);
            assert("UNSUPPORTED_MEDIA_TYPE"@ != "CONFLICT"@);
            reveal_strlit("PRECONDITION_FAILED");
            assert("UNSUPPORTED_MEDIA_TYPE"@.len() == 22 && "PRECONDITION_FAILED"@.len() == 19);
            assert("UNSUPPORTED_MEDIA_TYPE"@ != "PRECONDITION_FAILED"@);
            reveal_strlit("PAYLOAD_TOO_LARGE");
            assert("UNSUPPORTED_MEDIA_TYPE"@.len() == 22 && "PAYLOAD_TOO_LARGE"@.len() == 17);
            assert("UNSUPPORTED_MEDIA_TYPE"@ != "PAYLOAD_TOO_LARGE"@);
        },
        ErrorCode::UnprocessableContent => {
            reveal_strlit("UNPROCESSABLE_CONTENT");
            reveal_strlit("BAD_REQUEST");
            assert("UNPROCESSABLE_CONTENT"@.len() == 21 && "BAD_REQUEST"@.len() == 11);
            assert("UNPROCESSABLE_CONTENT"@ != "BAD_REQUEST"@);
            reveal_strlit("UNAUTHORIZED");
            assert("UNPROCESSABLE_CONTENT"@.len() == 21 && "UNAUTHORIZED"@.len() == 12);
            assert("UNPROCESSABLE_CONTENT"@ != "UNAUTHORIZED"@);
            reveal_strlit("FORBIDDEN");
            assert("UNPROCESSABLE_CONTENT"@.len() == 21 && "FORBIDDEN"@.len() == 9);
            assert("UNPROCESSABLE_CONTENT"@ != "FORBIDDEN"@);
            reveal_strlit("NOT_FOUND");
            assert("UNPROCESSABLE_CONTENT"@.len() == 21 && "NOT_FOUND"@.len() == 9);
            assert("UNPROCESSABLE_CONTENT"@ != "NOT_FOUND"@);
            reveal_strlit("METHOD_NOT_ALLOWED");
            assert("UNPROCESSABLE_CONTENT"@.len() == 21 && "METHOD_NOT_ALLOWED"@.len() == 18);
            assert("UNPROCESSABLE_CONTENT"@ != "METHOD_NOT_ALLOWED"@);
            reveal_strlit("NOT_ACCEPTABLE");
            assert("UNPROCESSABLE_CONTENT"@.len() == 21 && "NOT_ACCEPTABLE"@.len() == 14);
            assert("UNPROCESSABLE_CONTENT"@ != "NOT_ACCEPTABLE"@);
            reveal_strlit("TIMEOUT");
            assert("UNPROCESSABLE_CONTENT"@.len() == 21 && "TIMEOUT"@.len() == 7);
            assert("UNPROCESSABLE_CONTENT"@ != "TIMEOUT"@);
            reveal_strlit("CONFLICT");
            assert("UNPROCESSABLE_CONTENT"@.len() == 21 && "CONFLICT"@.len() == 8);
            assert("UNPROCESSABLE_CONTENT"@ != "CONFLICT"@);
            reveal_strlit("PRECONDITION_FAILED");
            assert("UNPROCESSABLE_CONTENT"@.len() == 21 && "PRECONDITION_FAILED"@.len() == 19);
            assert("UNPROCESSABLE_CONTENT"@ != "PRECONDITION_FAILED"@);
            reveal_strlit("PAYLOAD_TOO_LARGE");
            assert("UNPROCESSABLE_CONTENT"@.len() == 21 && "PAYLOAD_TOO_LARGE"@.len() == 17);
            assert("UNPROCESSABLE_CONTENT"@ != "PAYLOAD_TOO_LARGE"@);
            reveal_strlit("UNSUPPORTED_MEDIA_TYPE");
            assert("UNPROCESSABLE_CONTENT"@.len() == 21 && "UNSUPPORTED_MEDIA_TYPE"@.len() == 22);
            assert("UNPROCESSABLE_CONTENT"@ != "UNSUPPORTED_MEDIA_TYPE"@);
        },
        ErrorCode::TooManyRequests => {
            reveal_strlit("TOO_MANY_REQUESTS");
            reveal_strlit("BAD_REQUEST");
            assert("TOO_MANY_REQUESTS"@.len() == 17 && "BAD_REQUEST"@.len() == 11);
            assert("TOO_MANY_REQUESTS"@ != "BAD_REQUEST"@);
            reveal_strlit("UNAUTHORIZED");
            assert("TOO_MANY_REQUESTS"@.len() == 17 && "UNAUTHORIZED"@.len() == 12);
            assert("TOO_MANY_REQUESTS"@ != "UNAUTHORIZED"@);
            reveal_strlit("FORBIDDEN");
            assert("TOO_MANY_REQUESTS"@.len() == 17 && "FORBIDDEN"@.len() == 9);
            assert("TOO_MANY_REQUESTS"@ != "FORBIDDEN"@);
            reveal_strlit("NOT_FOUND");
            assert("TOO_MANY_REQUESTS"@.len() == 17 && "NOT_FOUND"@.len() == 9);
            assert("TOO_MANY_REQUESTS"@ != "NOT_FOUND"@);
            reveal_strlit("METHOD_NOT_ALLOWED");
            assert("TOO_MANY_REQUESTS"@.len() == 17 && "METHOD_NOT_ALLOWED"@.len() == 18);
            assert("TOO_MANY_REQUESTS"@ != "METHOD_NOT_ALLOWED"@);
            reveal_strlit("NOT_ACCEPTABLE");
            assert("TOO_MANY_REQUESTS"@.len() == 17 && "NOT_ACCEPTABLE"@.len() == 14);
            assert("TOO_MANY_REQUESTS"@ != "NOT_ACCEPTABLE"@);
            reveal_strlit("TIMEOUT");
            assert("TOO_MANY_REQUESTS"@.len() == 17 && "TIMEOUT"@.len() == 7);
            assert("TOO_MANY_REQUESTS"@ != "TIMEOUT"@);
            reveal_strlit("CONFLICT");
            assert("TOO_MANY_REQUESTS"@.len() == 17 && "CONFLICT"@.len() == 8);
            assert("TOO_MANY_REQUESTS"@ != "CONFLICT"@);
            reveal_strlit("PRECONDITION_FAILED");
            assert("TOO_MANY_REQUESTS"@.len() == 17 && "PRECONDITION_FAILED"@.len() == 19);
            assert("TOO_MANY_REQUESTS"@ != "PRECONDITION_FAILED"@);
            reveal_strlit("PAYLOAD_TOO_LARGE");
            assert("TOO_MANY_REQUESTS"@ != "PAYLOAD_TOO_LARGE"@) by { assert("TOO_MANY_REQUESTS"@[0] != "PAYLOAD_TOO_LARGE"@[0]); }
            reveal_strlit("UNSUPPORTED_MEDIA_TYPE");
            assert("TOO_MANY_REQUESTS"@.len() == 17 && "UNSUPPORTED_MEDIA_TYPE"@.len() == 22);
            assert("TOO_MANY_REQUESTS"@ != "UNSUPPORTED_MEDIA_TYPE"@);
            reveal_strlit("UNPROCESSABLE_CONTENT");
            assert("TOO_MANY_REQUESTS"@.len() == 17 && "UNPROCESSABLE_CONTENT"@.len() == 21);
            assert("TOO_MANY_REQUESTS"@ != "UNPROCESSABLE_CONTENT"@);
        },
        ErrorCode::ClientClosedRequest => {
            reveal_strlit("CLIENT_CLOSED_REQUEST");
            reveal_strlit("BAD_REQUEST");
            assert("CLIENT_CLOSED_REQUEST"@.len() == 21 && "BAD_REQUEST"@.len() == 11);
            assert("CLIENT_CLOSED_REQUEST"@ != "BAD_REQUEST"@);
            reveal_strlit("UNAUTHORIZED");
            assert("CLIENT_CLOSED_REQUEST"@.len() == 21 && "UNAUTHORIZED"@.len() == 12);
            assert("CLIENT_CLOSED_REQUEST"@ != "UNAUTHORIZED"@);
            reveal_strlit("FORBIDDEN");
            assert("CLIENT_CLOSED_REQUEST"@.len() == 21 && "FORBIDDEN"@.len() == 9);
            assert("CLIENT_CLOSED_REQUEST"@ != "FORBIDDEN"@);
            reveal_strlit("NOT_FOUND");
            assert("CLIENT_CLOSED_REQUEST"@.len() == 21 && "NOT_FOUND"@.len() == 9);
            assert("CLIENT_CLOSED_REQUEST"@ != "NOT_FOUND"@);
            reveal_strlit("METHOD_NOT_ALLOWED");
            assert("CLIENT_CLOSED_REQUEST"@.len() == 21 && "METHOD_NOT_ALLOWED"@.len() == 18);
            assert("CLIENT_CLOSED_REQUEST"@ != "METHOD_NOT_ALLOWED"@);
            reveal_strlit("NOT_ACCEPTABLE");
            assert("CLIENT_CLOSED_REQUEST"@.len() == 21 && "NOT_ACCEPTABLE"@.len() == 14);
            assert("CLIENT_CLOSED_REQUEST"@ != "NOT_ACCEPTABLE"@);
            reveal_strlit("TIMEOUT");
            assert("CLIENT_CLOSED_REQUEST"@.len() == 21 && "TIMEOUT"@.len() == 7);
            assert("CLIENT_CLOSED_REQUEST"@ != "TIMEOUT"@);
            reveal_strlit("CONFLICT");
            assert("CLIENT_CLOSED_REQUEST"@.len() == 21 && "CONFLICT"@.len() == 8);
            assert("CLIENT_CLOSED_REQUEST"@ != "CONFLICT"@);
            reveal_strlit("PRECONDITION_FAILED");
            assert("CLIENT_CLOSED_REQUEST"@.len() == 21 && "PRECONDITION_FAILED"@.len() == 19);
            assert("CLIENT_CLOSED_REQUEST"@ != "PRECONDITION_FAILED"@);
            reveal_strlit("PAYLOAD_TOO_LARGE");
            assert("CLIENT_CLOSED_REQUEST"@.len() == 21 && "PAYLOAD_TOO_LARGE"@.len() == 17);
            assert("CLIENT_CLOSED_REQUEST"@ != "PAYLOAD_TOO_LARGE"@);
            reveal_strlit("UNSUPPORTED_MEDIA_TYPE");
            assert("CLIENT_CLOSED_REQUEST"@.len() == 21 && "UNSUPPORTED_MEDIA_TYPE"@.len() == 22);
            assert("CLIENT_CLOSED_REQUEST"@ != "UNSUPPORTED_MEDIA_TYPE"@);
            reveal_strlit("UNPROCESSABLE_CONTENT");
            assert("CLIENT_CLOSED_REQUEST"@ != "UNPROCESSABLE_CONTENT"@) by { assert("CLIENT_CLOSED_REQUEST"@[0] != "UNPROCESSABLE_CONTENT"@[0]); }
            reveal_strlit("TOO_MANY_REQUESTS");
            assert("CLIENT_CLOSED_REQUEST"@.len() == 21 && "TOO_MANY_REQUESTS"@.len() == 17);
            assert("CLIENT_CLOSED_REQUEST"@ != "TOO_MANY_REQUESTS"@);
        },
        ErrorCode::InternalServerError => {
            reveal_strlit("INTERNAL_SERVER_ERROR");
            reveal_strlit("BAD_REQUEST");
            assert("INTERNAL_SERVER_ERROR"@.len() == 21 && "BAD_REQUEST"@.len() == 11);
            assert("INTERNAL_SERVER_ERROR"@ != "BAD_REQUEST"@);
            reveal_strlit("UNAUTHORIZED");
            assert("INTERNAL_SERVER_ERROR"@.len() == 21 && "UNAUTHORIZED"@.len() == 12);
            assert("INTERNAL_SERVER_ERROR"@ != "UNAUTHORIZED"@);
            reveal_strlit("FORBIDDEN");
            assert("INTERNAL_SERVER_ERROR"@.len() == 21 && "FORBIDDEN"@.len() == 9);
            assert("INTERNAL_SERVER_ERROR"@ != "FORBIDDEN"@);
            reveal_strlit("NOT_FOUND");
            assert("INTERNAL_SERVER_ERROR"@.len() == 21 && "NOT_FOUND"@.len() == 9);
            assert("INTERNAL_SERVER_ERROR"@ != "NOT_FOUND"@);
            reveal_strlit("METHOD_NOT_ALLOWED");
            assert("INTERNAL_SERVER_ERROR"@.len() == 21 && "METHOD_NOT_ALLOWED"@.len() == 18);
            assert("INTERNAL_SERVER_ERROR"@ != "METHOD_NOT_ALLOWED"@);
            reveal_strlit("NOT_ACCEPTABLE");
            assert("INTERNAL_SERVER_ERROR"@.len() == 21 && "NOT_ACCEPTABLE"@.len() == 14);
            assert("INTERNAL_SERVER_ERROR"@ != "NOT_ACCEPTABLE"@);
            reveal_strlit("TIMEOUT");
            assert("INTERNAL_SERVER_ERROR"@.len() == 21 && "TIMEOUT"@.len() == 7);
            assert("INTERNAL_SERVER_ERROR"@ != "TIMEOUT"@);
            reveal_strlit("CONFLICT");
            assert("INTERNAL_SERVER_ERROR"@.len() == 21 && "CONFLICT"@.len() == 8);
            assert("INTERNAL_SERVER_ERROR"@ != "CONFLICT"@);
            reveal_strlit("PRECONDITION_FAILED");
            assert("INTERNAL_SERVER_ERROR"@.len() == 21 && "PRECONDITION_FAILED"@.len() == 19);
            assert("INTERNAL_SERVER_ERROR"@ != "PRECONDITION_FAILED"@);
            reveal_strlit("PAYLOAD_TOO_LARGE");
            assert("INTERNAL_SERVER_ERROR"@.len() == 21 && "PAYLOAD_TOO_LARGE"@.len() == 17);
            assert("INTERNAL_SERVER_ERROR"@ != "PAYLOAD_TOO_LARGE"@);
            reveal_strlit("UNSUPPORTED_MEDIA_TYPE");
            assert("INTERNAL_SERVER_ERROR"@.len() == 21 && "UNSUPPORTED_MEDIA_TYPE"@.len() == 22);
            assert("INTERNAL_SERVER_ERROR"@ != "UNSUPPORTED_MEDIA_TYPE"@);
            reveal_strlit("UNPROCESSABLE_CONTENT");
            assert("INTERNAL_SERVER_ERROR"@ != "UNPROCESSABLE_CONTENT"@) by { assert("INTERNAL_SERVER_ERROR"@[0] != "UNPROCESSABLE_CONTENT"@[0]); }
            reveal_strlit("TOO_MANY_REQUESTS");
            assert("INTERNAL_SERVER_ERROR"@.len() == 21 && "TOO_MANY_REQUESTS"@.len() == 17);
            assert("INTERNAL_SERVER_ERROR"@ != "TOO_MANY_REQUESTS"@);
            reveal_strlit("CLIENT_CLOSED_REQUEST");
            assert("INTERNAL_SERVER_ERROR"@ != "CLIENT_CLOSED_REQUEST"@) by { assert("INTERNAL_SERVER_ERROR"@[0] != "CLIENT_CLOSED_REQUEST"@[0]); }
        },
        ErrorCode::NotImplemented => {
            reveal_strlit("NOT_IMPLEMENTED");
            reveal_strlit("BAD_REQUEST");
            assert("NOT_IMPLEMENTED"@.len() == 15 && "BAD_REQUEST"@.len() == 11);
            assert("NOT_IMPLEMENTED"@ != "BAD_REQUEST"@);
            reveal_strlit("UNAUTHORIZED");
            assert("NOT_IMPLEMENTED"@.len() == 15 && "UNAUTHORIZED"@.len() == 12);
            assert("NOT_IMPLEMENTED"@ != "UNAUTHORIZED"@);
            reveal_strlit("FORBIDDEN");
            assert("NOT_IMPLEMENTED"@.len() == 15 && "FORBIDDEN"@.len() == 9);
            assert("NOT_IMPLEMENTED"@ != "FORBIDDEN"@);
            reveal_strlit("NOT_FOUND");
            assert("NOT_IMPLEMENTED"@.len() == 15 && "NOT_FOUND"@.len() == 9);
            assert("NOT_IMPLEMENTED"@ != "NOT_FOUND"@);
            reveal_strlit("METHOD_NOT_ALLOWED");
            assert("NOT_IMPLEMENTED"@.len() == 15 && "METHOD_NOT_ALLOWED"@.len() == 18);
            assert("NOT_IMPLEMENTED"@ != "METHOD_NOT_ALLOWED"@);
            reveal_strlit("NOT_ACCEPTABLE");
            assert("NOT_IMPLEMENTED"@.len() == 15 && "NOT_ACCEPTABLE"@.len() == 14);
            assert("NOT_IMPLEMENTED"@ != "NOT_ACCEPTABLE"@);
            reveal_strlit("TIMEOUT");
            assert("NOT_IMPLEMENTED"@.len() == 15 && "TIMEOUT"@.len() == 7);
            assert("NOT_IMPLEMENTED"@ != "TIMEOUT"@);
            reveal_strlit("CONFLICT");
            assert("NOT_IMPLEMENTED"@.len() == 15 && "CONFLICT"@.len() == 8);
            assert("NOT_IMPLEMENTED"@ != "CONFLICT"@);
            reveal_strlit("PRECONDITION_FAILED");
            assert("NOT_IMPLEMENTED"@.len() == 15 && "PRECONDITION_FAILED"@.len() == 19);
            assert("NOT_IMPLEMENTED"@ != "PRECONDITION_FAILED"@);
            reveal_strlit("PAYLOAD_TOO_LARGE");
            assert("NOT_IMPLEMENTED"@.len() == 15 && "PAYLOAD_TOO_LARGE"@.len() == 17);
            assert("NOT_IMPLEMENTED"@ != "PAYLOAD_TOO_LARGE"@);
            reveal_strlit("UNSUPPORTED_MEDIA_TYPE");
            assert("NOT_IMPLEMENTED"@.len() == 15 && "UNSUPPORTED_MEDIA_TYPE"@.len() == 22);
            assert("NOT_IMPLEMENTED"@ != "UNSUPPORTED_MEDIA_TYPE"@);
            reveal_strlit("UNPROCESSABLE_CONTENT");
            assert("NOT_IMPLEMENTED"@.len() == 15 && "UNPROCESSABLE_CONTENT"@.len() == 21);
            assert("NOT_IMPLEMENTED"@ != "UNPROCESSABLE_CONTENT"@);
            reveal_strlit("TOO_MANY_REQUESTS");
            assert("NOT_IMPLEMENTED"@.len() == 15 && "TOO_MANY_REQUESTS"@.len() == 17);
            assert("NOT_IMPLEMENTED"@ != "TOO_MANY_REQUESTS"@);
            reveal_strlit("CLIENT_CLOSED_REQUEST");
            assert("NOT_IMPLEMENTED"@.len() == 15 && "CLIENT_CLOSED_REQUEST"@.len() == 21);
            assert("NOT_IMPLEMENTED"@ != "CLIENT_CLOSED_REQUEST"@);
            reveal_strlit("INTERNAL_SERVER_ERROR");
            assert("NOT_IMPLEMENTED"@.len() == 15 && "INTERNAL_SERVER_ERROR"@.len() == 21);
            assert("NOT_IMPLEMENTED"@ != "INTERNAL_SERVER_ERROR"@);
        },
        ErrorCode::BadGateway => {
            reveal_strlit("BAD_GATEWAY");
            reveal_strlit("BAD_REQUEST");
            assert("BAD_GATEWAY"@ != "BAD_REQUEST"@) by { assert("BAD_GATEWAY"@[4] != "BAD_REQUEST"@[4]); }
            reveal_strlit("UNAUTHORIZED");
            assert("BAD_GATEWAY"@.len() == 11 && "UNAUTHORIZED"@.len() == 12);
            assert("BAD_GATEWAY"@ != "UNAUTHORIZED"@);
            reveal_strlit("FORBIDDEN");
            assert("BAD_GATEWAY"@.len() == 11 && "FORBIDDEN"@.len() == 9);
            assert("BAD_GATEWAY"@ != "FORBIDDEN"@);
            reveal_strlit("NOT_FOUND");
            assert("BAD_GATEWAY"@.len() == 11 && "NOT_FOUND"@.len() == 9);
            assert("BAD_GATEWAY"@ != "NOT_FOUND"@);
            reveal_strlit("METHOD_NOT_ALLOWED");
            assert("BAD_GATEWAY"@.len() == 11 && "METHOD_NOT_ALLOWED"@.len() == 18);
            assert("BAD_GATEWAY"@ != "METHOD_NOT_ALLOWED"@);
            reveal_strlit("NOT_ACCEPTABLE");
            assert("BAD_GATEWAY"@.len() == 11 && "NOT_ACCEPTABLE"@.len() == 14);
            assert("BAD_GATEWAY"@ != "NOT_ACCEPTABLE"@);
            reveal_strlit("TIMEOUT");
            assert("BAD_GATEWAY"@.len() == 11 && "TIMEOUT"@.len() == 7);
            assert("BAD_GATEWAY"@ != "TIMEOUT"@);
            reveal_strlit("CONFLICT");
            assert("BAD_GATEWAY"@.len() == 11 && "CONFLICT"@.len() == 8);
            assert("BAD_GATEWAY"@ != "CONFLICT"@);
            reveal_strlit("PRECONDITION_FAILED");
            assert("BAD_GATEWAY"@.len() == 11 && "PRECONDITION_FAILED"@.len() == 19);
            assert("BAD_GATEWAY"@ != "PRECONDITION_FAILED"@);
            reveal_strlit("PAYLOAD_TOO_LARGE");
            assert("BAD_GATEWAY"@.len() == 11 && "PAYLOAD_TOO_LARGE"@.len() == 17);
            assert("BAD_GATEWAY"@ != "PAYLOAD_TOO_LARGE"@);
            reveal_strlit("UNSUPPORTED_MEDIA_TYPE");
            assert("BAD_GATEWAY"@.len() == 11 && "UNSUPPORTED_MEDIA_TYPE"@.len() == 22);
            assert("BAD_GATEWAY"@ != "UNSUPPORTED_MEDIA_TYPE"@);
            reveal_strlit("UNPROCESSABLE_CONTENT");
            assert("BAD_GATEWAY"@.len() == 11 && "UNPROCESSABLE_CONTENT"@.len() == 21);
            assert("BAD_GATEWAY"@ != "UNPROCESSABLE_CONTENT"@);
            reveal_strlit("TOO_MANY_REQUESTS");
            assert("BAD_GATEWAY"@.len() == 11 && "TOO_MANY_REQUESTS"@.len() == 17);
            assert("BAD_GATEWAY"@ != "TOO_MANY_REQUESTS"@);
            reveal_strlit("CLIENT_CLOSED_REQUEST");
            assert("BAD_GATEWAY"@.len() == 11 && "CLIENT_CLOSED_REQUEST"@.len() == 21);
            assert("BAD_GATEWAY"@ != "CLIENT_CLOSED_REQUEST"@);
            reveal_strlit("INTERNAL_SERVER_ERROR");
            assert("BAD_GATEWAY"@.len() == 11 && "INTERNAL_SERVER_ERROR"@.len() == 21);
            assert("BAD_GATEWAY"@ != "INTERNAL_SERVER_ERROR"@);
            reveal_strlit("NOT_IMPLEMENTED");
            assert("BAD_GATEWAY"@.len() == 11 && "NOT_IMPLEMENTED"@.len() == 15);
            assert("BAD_GATEWAY"@ != "NOT_IMPLEMENTED"@);
        },
        ErrorCode::ServiceUnavailable => {
            reveal_strlit("SERVICE_UNAVAILABLE");
            reveal_strlit("BAD_REQUEST");
            assert("SERVICE_UNAVAILABLE"@.len() == 19 && "BAD_REQUEST"@.len() == 11);
            assert("SERVICE_UNAVAILABLE"@ != "BAD_REQUEST"@);
            reveal_strlit("UNAUTHORIZED");
            assert("SERVICE_UNAVAILABLE"@.len() == 19 && "UNAUTHORIZED"@.len() == 12);
            assert("SERVICE_UNAVAILABLE"@ != "UNAUTHORIZED"@);
            reveal_strlit("FORBIDDEN");
            assert("SERVICE_UNAVAILABLE"@.len() == 19 && "FORBIDDEN"@.len() == 9);
            assert("SERVICE_UNAVAILABLE"@ != "FORBIDDEN"@);
            reveal_strlit("NOT_FOUND");
            assert("SERVICE_UNAVAILABLE"@.len() == 19 && "NOT_FOUND"@.len() == 9);
            assert("SERVICE_UNAVAILABLE"@ != "NOT_FOUND"@);
            reveal_strlit("METHOD_NOT_ALLOWED");
            assert("SERVICE_UNAVAILABLE"@.len() == 19 && "METHOD_NOT_ALLOWED"@.len() == 18);
            assert("SERVICE_UNAVAILABLE"@ != "METHOD_NOT_ALLOWED"@);
            reveal_strlit("NOT_ACCEPTABLE");
            assert("SERVICE_UNAVAILABLE"@.len() == 19 && "NOT_ACCEPTABLE"@.len() == 14);
            assert("SERVICE_UNAVAILABLE"@ != "NOT_ACCEPTABLE"@);
            reveal_strlit("TIMEOUT");
            assert("SERVICE_UNAVAILABLE"@.len() == 19 && "TIMEOUT"@.len() == 7);
            assert("SERVICE_UNAVAILABLE"@ != "TIMEOUT"@);
            reveal_strlit("CONFLICT");
            assert("SERVICE_UNAVAILABLE"@.len() == 19 && "CONFLICT"@.len() == 8);
            assert("SERVICE_UNAVAILABLE"@ != "CONFLICT"@);
            reveal_strlit("PRECONDITION_FAILED");
            assert("SERVICE_UNAVAILABLE"@ != "PRECONDITION_FAILED"@) by { assert("SERVICE_UNAVAILABLE"@[0] != "PRECONDITION_FAILED"@[0]); }
            reveal_strlit("PAYLOAD_TOO_LARGE");
            assert("SERVICE_UNAVAILABLE"@.len() == 19 && "PAYLOAD_TOO_LARGE"@.len() == 17);
            assert("SERVICE_UNAVAILABLE"@ != "PAYLOAD_TOO_LARGE"@);
            reveal_strlit("UNSUPPORTED_MEDIA_TYPE");
            assert("SERVICE_UNAVAILABLE"@.len() == 19 && "UNSUPPORTED_MEDIA_TYPE"@.len() == 22);
            assert("SERVICE_UNAVAILABLE"@ != "UNSUPPORTED_MEDIA_TYPE"@);
            reveal_strlit("UNPROCESSABLE_CONTENT");
            assert("SERVICE_UNAVAILABLE"@.len() == 19 && "UNPROCESSABLE_CONTENT"@.len() == 21);
            assert("SERVICE_UNAVAILABLE"@ != "UNPROCESSABLE_CONTENT"@);
            reveal_strlit("TOO_MANY_REQUESTS");
            assert("SERVICE_UNAVAILABLE"@.len() == 19 && "TOO_MANY_REQUESTS"@.len() == 17);
            assert("SERVICE_UNAVAILABLE"@ != "TOO_MANY_REQUESTS"@);
            reveal_strlit("CLIENT_CLOSED_REQUEST");
            assert("SERVICE_UNAVAILABLE"@.len() == 19 && "CLIENT_CLOSED_REQUEST"@.len() == 21);
            assert("SERVICE_UNAVAILABLE"@ != "CLIENT_CLOSED_REQUEST"@);
            reveal_strlit("INTERNAL_SERVER_ERROR");
            assert("SERVICE_UNAVAILABLE"@.len() == 19 && "INTERNAL_SERVER_ERROR"@.len() == 21);
            assert("SERVICE_UNAVAILABLE"@ != "INTERNAL_SERVER_ERROR"@);
            reveal_strlit("NOT_IMPLEMENTED");
            assert("SERVICE_UNAVAILABLE"@.len() == 19 && "NOT_IMPLEMENTED"@.len() == 15);
            assert("SERVICE_UNAVAILABLE"@ != "NOT_IMPLEMENTED"@);
            reveal_strlit("BAD_GATEWAY");
            assert("SERVICE_UNAVAILABLE"@.len() == 19 && "BAD_GATEWAY"@.len() == 11);
            assert("SERVICE_UNAVAILABLE"@ != "BAD_GATEWAY"@);
        },
        ErrorCode::GatewayTimeout => {
            reveal_strlit("GATEWAY_TIMEOUT");
            reveal_strlit("BAD_REQUEST");
            assert("GATEWAY_TIMEOUT"@.len() == 15 && "BAD_REQUEST"@.len() == 11);
            assert("GATEWAY_TIMEOUT"@ != "BAD_REQUEST"@);
            reveal_strlit("UNAUTHORIZED");
            assert("GATEWAY_TIMEOUT"@.len() == 15 && "UNAUTHORIZED"@.len() == 12);
            assert("GATEWAY_TIMEOUT"@ != "UNAUTHORIZED"@);
            reveal_strlit("FORBIDDEN");
            assert("GATEWAY_TIMEOUT"@.len() == 15 && "FORBIDDEN"@.len() == 9);
            assert("GATEWAY_TIMEOUT"@ != "FORBIDDEN"@);
            reveal_strlit("NOT_FOUND");
            assert("GATEWAY_TIMEOUT"@.len() == 15 && "NOT_FOUND"@.len() == 9);
            assert("GATEWAY_TIMEOUT"@ != "NOT_FOUND"@);
            reveal_strlit("METHOD_NOT_ALLOWED");
            assert("GATEWAY_TIMEOUT"@.len() == 15 && "METHOD_NOT_ALLOWED"@.len() == 18);
            assert("GATEWAY_TIMEOUT"@ != "METHOD_NOT_ALLOWED"@);
            reveal_strlit("NOT_ACCEPTABLE");
            assert("GATEWAY_TIMEOUT"@.len() == 15 && "NOT_ACCEPTABLE"@.len() == 14);
            assert("GATEWAY_TIMEOUT"@ != "NOT_ACCEPTABLE"@);
            reveal_strlit("TIMEOUT");
            assert("GATEWAY_TIMEOUT"@.len() == 15 && "TIMEOUT"@.len() == 7);
            assert("GATEWAY_TIMEOUT"@ != "TIMEOUT"@);
            reveal_strlit("CONFLICT");
            assert("GATEWAY_TIMEOUT"@.len() == 15 && "CONFLICT"@.len() == 8);
            assert("GATEWAY_TIMEOUT"@ != "CONFLICT"@);
            reveal_strlit("PRECONDITION_FAILED");
            assert("GATEWAY_TIMEOUT"@.len() == 15 && "PRECONDITION_FAILED"@.len() == 19);
            assert("GATEWAY_TIMEOUT"@ != "PRECONDITION_FAILED"@);
            reveal_strlit("PAYLOAD_TOO_LARGE");
            assert("GATEWAY_TIMEOUT"@.len() == 15 && "PAYLOAD_TOO_LARGE"@.len() == 17);
            assert("GATEWAY_TIMEOUT"@ != "PAYLOAD_TOO_LARGE"@);
            reveal_strlit("UNSUPPORTED_MEDIA_TYPE");
            assert("GATEWAY_TIMEOUT"@.len() == 15 && "UNSUPPORTED_MEDIA_TYPE"@.len() == 22);
            assert("GATEWAY_TIMEOUT"@ != "UNSUPPORTED_MEDIA_TYPE"@);
            reveal_strlit("UNPROCESSABLE_CONTENT");
            assert("GATEWAY_TIMEOUT"@.len() == 15 && "UNPROCESSABLE_CONTENT"@.len() == 21);
            assert("GATEWAY_TIMEOUT"@ != "UNPROCESSABLE_CONTENT"@);
            reveal_strlit("TOO_MANY_REQUESTS");
            assert("GATEWAY_TIMEOUT"@.len() == 15 && "TOO_MANY_REQUESTS"@.len() == 17);
            assert("GATEWAY_TIMEOUT"@ != "TOO_MANY_REQUESTS"@);
            reveal_strlit("CLIENT_CLOSED_REQUEST");
            assert("GATEWAY_TIMEOUT"@.len() == 15 && "CLIENT_CLOSED_REQUEST"@.len() == 21);
            assert("GATEWAY_TIMEOUT"@ != "CLIENT_CLOSED_REQUEST"@);
            reveal_strlit("INTERNAL_SERVER_ERROR");
            assert("GATEWAY_TIMEOUT"@.len() == 15 && "INTERNAL_SERVER_ERROR"@.len() == 21);
            assert("GATEWAY_TIMEOUT"@ != "INTERNAL_SERVER_ERROR"@);
            reveal_strlit("NOT_IMPLEMENTED");
            assert("GATEWAY_TIMEOUT"@ != "NOT_IMPLEMENTED"@) by { assert("GATEWAY_TIMEOUT"@[0] != "NOT_IMPLEMENTED"@[0]); }
            reveal_strlit("BAD_GATEWAY");
            assert("GATEWAY_TIMEOUT"@.len() == 15 && "BAD_GATEWAY"@.len() == 11);
            assert("GATEWAY_TIMEOUT"@ != "BAD_GATEWAY"@);
            reveal_strlit("SERVICE_UNAVAILABLE");
            assert("GATEWAY_TIMEOUT"@.len() == 15 && "SERVICE_UNAVAILABLE"@.len() == 19);
            assert("GATEWAY_TIMEOUT"@ != "SERVICE_UNAVAILABLE"@);
        },
    }
}

/// The default HTTP status of each predefined error code, as the oRPC error
/// table fixes it; a custom code defaults to 500. Every default status is an
/// HTTP error status (400 to 599).
pub proof fn law_default_statuses(c: ErrorCode)
    ensures
        code_status(ErrorCode::BadRequest) == 400,
        code_status(ErrorCode::Unauthorized) == 401,
        code_status(ErrorCode::Forbidden) == 403,
        code_status(ErrorCode::NotFound) == 404,
        code_status(ErrorCode::MethodNotAllowed) == 405,
        code_status(ErrorCode::NotAcceptable) == 406,
        code_status(ErrorCode::Timeout) == 408,
        code_status(ErrorCode::Conflict) == 409,
        code_status(ErrorCode::PreconditionFailed) == 412,
        code_status(ErrorCode::PayloadTooLarge) == 413,
        code_status(ErrorCode::UnsupportedMediaType) == 415,
        code_status(ErrorCode::UnprocessableContent) == 422,
        code_status(ErrorCode::TooManyRequests) == 429,
        code_status(ErrorCode::ClientClosedRequest) == 499,
        code_status(ErrorCode::InternalServerError) == 500,
        code_status(ErrorCode::NotImplemented) == 501,
        code_status(ErrorCode::BadGateway) == 502,
        code_status(ErrorCode::ServiceUnavailable) == 503,
        code_status(ErrorCode::GatewayTimeout) == 504,
        c is Custom ==> code_status(c) == 500,
        400 <= code_status(c) <= 599,
{
}

} // verus!
