use orpc::error::ORPCError;
use orpc::ipc::{make_error_response, resolve_ipc_request, response_value, subscription_value, ChannelState};
use orpc::json::{Json, JsonNumber};
use orpc::json_text::to_text;
use orpc::procedure_error::{ProcedureError, ResolverError};
use orpc::router::Router;

#[test]
fn error_response_value() {
    let v = make_error_response(404, "NOT_FOUND", "Procedure not found: x");
    assert_eq!(
        to_text(&v),
        "{\"body\":{\"json\":{\"code\":\"NOT_FOUND\",\"defined\":false,\"message\":\"Procedure not found: x\",\"status\":404}},\"status\":404,\"type\":\"response\"}"
    );
    assert_eq!(to_text(&subscription_value()), "{\"type\":\"subscription\"}");
    assert_eq!(to_text(&response_value(200, Json::Null)), "{\"body\":null,\"status\":200,\"type\":\"response\"}");
}

#[test]
fn ipc_request_resolution() {
    let router = Router::new().procedure("ping", 7u8);
    assert_eq!(resolve_ipc_request(&router, Ok("ping".to_string())).unwrap(), &7);
    let err = resolve_ipc_request(&router, Ok("nope".to_string())).unwrap_err();
    assert!(to_text(&err).contains("Procedure not found: nope"));
    let err = resolve_ipc_request(&router, Err("missing field `path`".to_string())).unwrap_err();
    assert!(to_text(&err).contains("\"status\":400"));
    assert!(to_text(&err).contains("Invalid request: missing field `path`"));
}

#[test]
fn channel_events() {
    let mut ch = ChannelState::new();
    let (e0, go0) = ch.on_item(Some(Ok(Json::Number(JsonNumber::PosInt(1)))));
    let (e1, go1) = ch.on_item(Some(Ok(Json::Number(JsonNumber::PosInt(2)))));
    assert!(go0 && go1);
    assert_eq!(to_text(&e0), "{\"data\":{\"json\":1},\"event\":\"message\",\"id\":0}");
    assert_eq!(to_text(&e1), "{\"data\":{\"json\":2},\"event\":\"message\",\"id\":1}");
    let (done, go) = ch.on_item(None);
    assert!(!go);
    assert_eq!(to_text(&done), "{\"event\":\"done\"}");
    let mut ch = ChannelState::new();
    let (err, go) =
        ch.on_item(Some(Err(ProcedureError::Resolver(ResolverError::Orpc(ORPCError::not_found("gone"))))));
    assert!(!go);
    assert!(to_text(&err).starts_with("{\"data\":{\"json\":{\"code\":\"NOT_FOUND\""));
}
