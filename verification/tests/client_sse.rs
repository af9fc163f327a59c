use orpc::client_sse::{parse_event_block, try_extract_event, SseFrame};
use orpc::sse::format_sse_event;

#[test]
fn parse_multiline_data() {
    let block = "event: message\nid: 0\ndata: line1\ndata: line2\n";
    let event = parse_event_block(block).unwrap();
    assert_eq!(event.event_type, "message");
    assert_eq!(event.data, "line1\nline2");
}

#[test]
fn parse_done_empty_data() {
    let block = "event: done\ndata:\n";
    let event = parse_event_block(block).unwrap();
    assert_eq!(event.event_type, "done");
    assert_eq!(event.data, "");
}

#[test]
fn parse_comment_block() {
    assert!(parse_event_block(": ").is_none());
    assert!(parse_event_block("data: x").is_none());
}

#[test]
fn parse_crlf_lines() {
    let event = parse_event_block("event: message\r\ndata: a\r\ndata: b").unwrap();
    assert_eq!(event.event_type, "message");
    assert_eq!(event.data, "a\nb");
}

/// Feeds chunks into a buffer and collects the frames, as the client stream
/// does.
fn collect(chunks: Vec<&str>) -> Vec<SseFrame> {
    let mut buffer = String::new();
    let mut done = false;
    let mut frames = Vec::new();
    for chunk in chunks {
        if done {
            break;
        }
        buffer.push_str(chunk);
        while let Some(frame) = try_extract_event(&mut buffer, &mut done) {
            let stop = matches!(frame, SseFrame::Error(_));
            frames.push(frame);
            if stop {
                break;
            }
        }
    }
    frames
}

fn messages(frames: &[SseFrame]) -> Vec<String> {
    frames
        .iter()
        .map(|f| match f {
            SseFrame::Message(d) => d.clone(),
            SseFrame::Error(d) => format!("error:{d}"),
        })
        .collect()
}

#[test]
fn parse_single_message() {
    let frames = collect(vec![": \n\n", "event: message\nid: 0\ndata: {\"json\":\"hello\"}\n\n"]);
    assert_eq!(messages(&frames), vec!["{\"json\":\"hello\"}"]);
}

#[test]
fn parse_multiple_messages() {
    let frames = collect(vec![
        ": \n\nevent: message\nid: 0\ndata: {\"json\":1}\n\nevent: message\nid: 1\ndata: {\"json\":2}\n\nevent: done\ndata:\n\n",
    ]);
    assert_eq!(messages(&frames), vec!["{\"json\":1}", "{\"json\":2}"]);
}

#[test]
fn parse_error_event() {
    let frames = collect(vec![
        ": \n\nevent: error\ndata: {\"json\":{\"code\":\"NOT_FOUND\",\"status\":404,\"message\":\"gone\",\"defined\":false}}\n\n",
    ]);
    assert_eq!(frames.len(), 1);
    match &frames[0] {
        SseFrame::Error(d) => assert!(d.contains("NOT_FOUND")),
        _ => panic!("expected an error frame"),
    }
}

#[test]
fn parse_done_ends_stream() {
    let mut buffer = ": \n\nevent: message\nid: 0\ndata: {\"json\":\"a\"}\n\nevent: done\ndata:\n\n".to_string();
    let mut done = false;
    let first = try_extract_event(&mut buffer, &mut done);
    assert!(matches!(first, Some(SseFrame::Message(ref d)) if d == "{\"json\":\"a\"}"));
    assert!(!done);
    assert!(try_extract_event(&mut buffer, &mut done).is_none());
    assert!(done);
    assert_eq!(buffer, "");
}

#[test]
fn chunks_split_across_boundaries() {
    let frames = collect(vec![": \n\nevent: mes", "sage\nid: 0\ndata: {\"json\":42}\n\n"]);
    assert_eq!(messages(&frames), vec!["{\"json\":42}"]);
}

#[test]
fn ignores_keepalive_comments() {
    let frames = collect(vec![
        ": \n\n: \n\n: \n\nevent: message\nid: 0\ndata: {\"json\":true}\n\nevent: done\ndata:\n\n",
    ]);
    assert_eq!(messages(&frames), vec!["{\"json\":true}"]);
}

#[test]
fn empty_stream() {
    let frames = collect(vec![]);
    assert!(frames.is_empty());
}

#[test]
fn incomplete_block_stays_buffered() {
    let mut buffer = "event: message\ndata: 1\n".to_string();
    let mut done = false;
    assert!(try_extract_event(&mut buffer, &mut done).is_none());
    assert_eq!(buffer, "event: message\ndata: 1\n");
    assert!(!done);
}

#[test]
fn unknown_event_types_are_skipped() {
    let mut buffer = "event: ping\ndata: x\n\nevent: message\ndata: y\n\n".to_string();
    let mut done = false;
    assert!(matches!(try_extract_event(&mut buffer, &mut done), Some(SseFrame::Message(ref d)) if d == "y"));
}

#[test]
fn server_events_read_back() {
    for (t, id, d) in [("message", Some(7), "{\"json\":[1,2]}"), ("error", None, "{\"json\":{}}"), ("done", None, "")] {
        let text = format_sse_event(t, id, d);
        let block = &text[..text.len() - 2];
        let event = parse_event_block(block).unwrap();
        assert_eq!(event.event_type, t);
        assert_eq!(event.data, d);
        let mut buffer = text.clone();
        let mut done = false;
        let frame = try_extract_event(&mut buffer, &mut done);
        assert_eq!(buffer, "");
        match t {
            "message" => assert!(matches!(frame, Some(SseFrame::Message(ref x)) if x == d) && !done),
            "error" => assert!(matches!(frame, Some(SseFrame::Error(ref x)) if x == d) && done),
            _ => assert!(frame.is_none() && done),
        }
    }
}

#[test]
fn parser_reads_whole_formatted_event() {
    let text = format_sse_event("message", Some(7), r#"{"json":1}"#);
    let ev = parse_event_block(&text).unwrap();
    assert_eq!(ev.event_type, "message");
    assert_eq!(ev.data, r#"{"json":1}"#);
    let text = format_sse_event("done", None, "");
    let ev = parse_event_block(&text).unwrap();
    assert_eq!(ev.event_type, "done");
    assert_eq!(ev.data, "");
}

fn read_chunks(chunks: &[&str]) -> (Vec<String>, bool) {
    let mut buffer = String::new();
    let mut done = false;
    let mut frames = Vec::new();
    for chunk in chunks {
        buffer.push_str(chunk);
        loop {
            match try_extract_event(&mut buffer, &mut done) {
                Some(SseFrame::Message(d)) => frames.push(format!("message:{d}")),
                Some(SseFrame::Error(d)) => frames.push(format!("error:{d}")),
                None => break,
            }
            if done {
                break;
            }
        }
        if done {
            break;
        }
    }
    (frames, done)
}

#[test]
fn chunking_does_not_change_frames() {
    let whole = ": \n\nevent: message\nid: 0\ndata: {\"json\":42}\n\nevent: done\ndata:\n\n";
    let a = read_chunks(&[whole]);
    let b = read_chunks(&[": \n\nevent: mes", "sage\nid: 0\ndata: {\"json\":42}\n", "\nevent: done\ndata:\n\n"]);
    assert_eq!(a, b);
    assert_eq!(a, (vec!["message:{\"json\":42}".to_string()], true));
}
