use orpc::error::{ErrorCode, ORPCError};
use orpc::json::{Json, JsonNumber};
use orpc::json_text::to_text;

#[test]
fn error_code_custom() {
    let code = ErrorCode::Custom("USER_BANNED".into());
    assert_eq!(code.status(), 500);
    assert_eq!(code.to_string(), "USER_BANNED");
}

#[test]
fn error_code_status_mapping() {
    assert_eq!(ErrorCode::BadRequest.status(), 400);
    assert_eq!(ErrorCode::NotFound.status(), 404);
    assert_eq!(ErrorCode::TooManyRequests.status(), 429);
    assert_eq!(ErrorCode::GatewayTimeout.status(), 504);
}

#[test]
fn error_code_serialization() {
    assert_eq!(to_text(&Json::String(ErrorCode::BadRequest.as_str().to_string())), "\"BAD_REQUEST\"");
    assert_eq!(to_text(&Json::String(ErrorCode::NotFound.as_str().to_string())), "\"NOT_FOUND\"");
    assert_eq!(
        to_text(&Json::String(ErrorCode::InternalServerError.as_str().to_string())),
        "\"INTERNAL_SERVER_ERROR\""
    );
}

#[test]
fn error_code_deserialization() {
    let code = ErrorCode::from_str("UNAUTHORIZED");
    assert_eq!(code, ErrorCode::Unauthorized);
}

#[test]
fn error_code_unknown_name_is_custom() {
    assert_eq!(ErrorCode::from_str("USER_BANNED"), ErrorCode::Custom("USER_BANNED".into()));
    assert_eq!(ErrorCode::from_str("bad_request"), ErrorCode::Custom("bad_request".into()));
}

#[test]
fn error_code_name_roundtrip() {
    let codes = vec![
        ErrorCode::BadRequest,
        ErrorCode::Unauthorized,
        ErrorCode::Forbidden,
        ErrorCode::NotFound,
        ErrorCode::MethodNotAllowed,
        ErrorCode::NotAcceptable,
        ErrorCode::Timeout,
        ErrorCode::Conflict,
        ErrorCode::PreconditionFailed,
        ErrorCode::PayloadTooLarge,
        ErrorCode::UnsupportedMediaType,
        ErrorCode::UnprocessableContent,
        ErrorCode::TooManyRequests,
        ErrorCode::ClientClosedRequest,
        ErrorCode::InternalServerError,
        ErrorCode::NotImplemented,
        ErrorCode::BadGateway,
        ErrorCode::ServiceUnavailable,
        ErrorCode::GatewayTimeout,
        ErrorCode::Custom("TEAPOT".into()),
    ];
    for code in codes {
        assert_eq!(ErrorCode::from_str(code.as_str()), code);
    }
}

#[test]
fn orpc_error_serialization() {
    let data = Json::Object(vec![("userId".to_string(), Json::String("123".to_string()))]);
    let err = ORPCError::not_found("User not found").with_data(data);
    let json = err.to_value();
    assert_eq!(
        to_text(&json),
        "{\"code\":\"NOT_FOUND\",\"data\":{\"userId\":\"123\"},\"defined\":false,\"message\":\"User not found\",\"status\":404}"
    );
}

#[test]
fn orpc_error_without_data_omits_it() {
    let err = ORPCError::bad_request("x");
    assert_eq!(
        to_text(&err.to_value()),
        "{\"code\":\"BAD_REQUEST\",\"defined\":false,\"message\":\"x\",\"status\":400}"
    );
}

#[test]
fn orpc_error_display() {
    let err = ORPCError::unauthorized("Missing token");
    assert_eq!(err.to_string(), "[UNAUTHORIZED] Missing token");
}

#[test]
fn orpc_error_constructors() {
    let e = ORPCError::new(ErrorCode::Conflict, "dup");
    assert_eq!(e.status, 409);
    assert!(e.data.is_none());
    assert!(!e.defined);
    let f = ORPCError::forbidden("no").with_status(451);
    assert_eq!(f.code, ErrorCode::Forbidden);
    assert_eq!(f.status, 451);
    assert_eq!(f.message, "no");
    let g = ORPCError::internal_server_error("boom").with_data(Json::Number(JsonNumber::PosInt(7)));
    assert_eq!(g.status, 500);
    assert_eq!(g.data, Some(Json::Number(JsonNumber::PosInt(7))));
}
