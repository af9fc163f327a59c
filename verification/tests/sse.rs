use orpc::error::ORPCError;
use orpc::json::{Json, JsonNumber};
use orpc::procedure_error::{ProcedureError, ResolverError, SerializeError};
use orpc::sse::{format_sse_event, is_subscription, SseState, SseStep};

#[test]
fn format_message_event() {
    let event = format_sse_event("message", Some(0), r#"{"json":"hello"}"#);
    assert_eq!(event, "event: message\nid: 0\ndata: {\"json\":\"hello\"}\n\n");
}

#[test]
fn format_done_event() {
    let event = format_sse_event("done", None, "");
    assert_eq!(event, "event: done\ndata:\n\n");
}

#[test]
fn format_error_event() {
    let event = format_sse_event("error", None, r#"{"json":{"code":"ERR"}}"#);
    assert_eq!(event, "event: error\ndata: {\"json\":{\"code\":\"ERR\"}}\n\n");
}

#[test]
fn format_large_id() {
    let event = format_sse_event("message", Some(18446744073709551615), "1");
    assert_eq!(event, "event: message\nid: 18446744073709551615\ndata: 1\n\n");
}

#[test]
fn is_subscription_from_future() {
    // A single-value stream reports exactly one item.
    assert!(!is_subscription((1, Some(1))));
}

#[test]
fn is_subscription_from_stream() {
    assert!(is_subscription((0, None)));
    assert!(is_subscription((0, Some(0))));
    assert!(is_subscription((2, Some(5))));
}

/// Drives the event state machine over the given procedure items, as the
/// transport does, and collects the emitted chunks.
fn run(start_id: u64, items: Vec<Result<Json, ProcedureError>>) -> Vec<String> {
    let mut state = SseState::new(start_id);
    let mut items = items.into_iter();
    let mut out = Vec::new();
    loop {
        match state.before_poll() {
            SseStep::Finished => return out,
            SseStep::Emit(text) => out.push(text),
            SseStep::PollInner => out.push(state.on_item(items.next())),
        }
    }
}

#[test]
fn sse_stream_single_item() {
    let events = run(0, vec![Ok(Json::String("hello".into()))]);
    assert_eq!(events.len(), 3);
    assert_eq!(events[0], ": \n\n");
    assert!(events[1].starts_with("event: message\n"));
    assert!(events[1].contains("id: 0\n"));
    assert!(events[1].contains("\"hello\""));
    assert!(events[2].starts_with("event: done\n"));
}

#[test]
fn sse_stream_multiple_items() {
    let items = (1..=3).map(|n| Ok(Json::Number(JsonNumber::PosInt(n)))).collect();
    let events = run(0, items);
    assert_eq!(events.len(), 5);
    assert_eq!(events[0], ": \n\n");
    assert!(events[1].contains("id: 0\n"));
    assert!(events[2].contains("id: 1\n"));
    assert!(events[3].contains("id: 2\n"));
    assert!(events[4].starts_with("event: done\n"));
    assert_eq!(events[3], "event: message\nid: 2\ndata: {\"json\":3}\n\n");
}

#[test]
fn sse_stream_with_start_id() {
    let events = run(5, vec![Ok(Json::String("a".into()))]);
    assert!(events[1].contains("id: 5\n"));
}

#[test]
fn sse_stream_error() {
    let items = vec![
        Ok(Json::String("ok".into())),
        Err(ProcedureError::Resolver(ResolverError::Orpc(ORPCError::not_found("gone")))),
    ];
    let events = run(0, items);
    assert_eq!(events.len(), 3);
    assert_eq!(events[0], ": \n\n");
    assert!(events[1].starts_with("event: message\n"));
    assert!(events[2].starts_with("event: error\n"));
    assert!(events[2].contains("NOT_FOUND"));
    assert_eq!(
        events[2],
        "event: error\ndata: {\"json\":{\"code\":\"NOT_FOUND\",\"defined\":false,\"message\":\"gone\",\"status\":404}}\n\n"
    );
}

#[test]
fn sse_stream_serialize_failure() {
    let events = run(0, vec![Err(ProcedureError::Serialize(SerializeError("bad".into())))]);
    assert_eq!(events.len(), 2);
    assert!(events[1].contains("Response serialization failed"));
}

#[test]
fn sse_stream_empty() {
    let events = run(0, vec![]);
    assert_eq!(events.len(), 2);
    assert_eq!(events[0], ": \n\n");
    assert!(events[1].starts_with("event: done\n"));
}
