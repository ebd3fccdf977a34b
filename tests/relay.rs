use hn_backend::relay::{decode, event_for, relay, Decoded, FrameKind, RelayEvent};

fn texts(events: &[RelayEvent]) -> Vec<String> {
    events.iter().map(|e| e.data_text()).collect()
}

fn parse(s: &str) -> serde_json::Value {
    serde_json::from_str(s).unwrap()
}

fn diagnostic_for(payload: &str) -> String {
    let err = serde_json::from_str::<serde_json::Value>(payload).unwrap_err();
    let message = format!("Error parsing stream data: {}", err);
    format!(
        "{{\"type\":\"thinking_update\",\"content\":{}}}",
        serde_json::to_string(&message).unwrap()
    )
}

#[test]
fn malformed_frame_is_recovered() {
    let input = "data: {bad\ndata: {\"type\":\"final_response\",\"content\":\"ok\"}\ndata: [DONE]";
    let events = relay(input);
    assert_eq!(events.len(), 3);
    match &events[0] {
        RelayEvent::Diagnostic { data } => {
            assert_eq!(*data, diagnostic_for("{bad"));
            let v = parse(data);
            assert_eq!(v["type"], "thinking_update");
            assert!(v["content"].as_str().unwrap().starts_with("Error parsing stream data: "));
        }
        other => panic!("expected a diagnostic, got {:?}", other),
    }
    match &events[1] {
        RelayEvent::Forward { kind, data } => {
            assert_eq!(*kind, FrameKind::FinalResponse);
            assert_eq!(parse(data), parse("{\"type\":\"final_response\",\"content\":\"ok\"}"));
        }
        other => panic!("expected a forward, got {:?}", other),
    }
    assert!(matches!(events[2], RelayEvent::Done));
    assert_eq!(events[2].data_text(), "[DONE]");
}

#[test]
fn empty_body_gives_only_the_end_marker() {
    let events = relay("");
    assert_eq!(texts(&events), vec!["[DONE]".to_string()]);
}

#[test]
fn body_without_data_lines_gives_only_the_end_marker() {
    let events = relay(": keepalive\nevent: ping\n\n   \nretry: 10");
    assert_eq!(events.len(), 1);
    assert!(matches!(events[0], RelayEvent::Done));
}

#[test]
fn body_ending_mid_frame_is_closed() {
    let events = relay("data: {\"type\":\"thinking_update\",\"content\":\"x\"}\ndata: {\"type\":");
    assert_eq!(events.len(), 3);
    assert!(matches!(events[0], RelayEvent::Forward { kind: FrameKind::ThinkingUpdate, .. }));
    assert!(matches!(events[1], RelayEvent::Diagnostic { .. }));
    assert!(matches!(events[2], RelayEvent::Done));
}

#[test]
fn end_marker_appears_once_and_last() {
    let inputs = [
        "",
        "data: 1\ndata: 2\ndata:  [DONE]\ndata: 3",
        "data: [DONE]\ndata: [DONE]",
        "data: {\"a\":1}\ndata: [DONE]\ndata: {\"b\":2}",
        "no frames here",
        "data: {oops",
    ];
    for input in inputs.iter() {
        let events = relay(input);
        let dones = events.iter().filter(|e| matches!(e, RelayEvent::Done)).count();
        assert_eq!(dones, 1);
        assert!(matches!(events.last(), Some(RelayEvent::Done)));
    }
}

#[test]
fn relaying_twice_gives_identical_output() {
    let input = "data: {\"type\":\"metadata\",\"content\":{\"b\":1,\"a\":[1,2]}}\n\ndata: {nope\ndata: {\"x\":true}\ndata: [DONE]";
    assert_eq!(texts(&relay(input)), texts(&relay(input)));
}

#[test]
fn stop_line_ends_the_scan() {
    let input = "data: {\"a\":1}\ndata:  [DONE]\ndata: {\"b\":2}\ndata: {\"c\":3}";
    let events = relay(input);
    assert_eq!(events.len(), 2);
    match &events[0] {
        RelayEvent::Forward { kind, data } => {
            assert_eq!(*kind, FrameKind::Untagged);
            assert_eq!(parse(data), parse("{\"a\":1}"));
        }
        other => panic!("expected a forward, got {:?}", other),
    }
    assert!(matches!(events[1], RelayEvent::Done));
}

#[test]
fn done_line_ends_the_stream() {
    let events = relay("data: [DONE]\ndata: {\"b\":2}");
    assert_eq!(events.len(), 1);
    assert!(matches!(events[0], RelayEvent::Done));
    let input = "data: {\"type\":\"a\"}\ndata: [DONE]\ndata: {\"type\":\"b\"}";
    let events = relay(input);
    assert_eq!(events.len(), 2);
    assert_eq!(parse(&events[0].data_text()), parse("{\"type\":\"a\"}"));
    assert!(matches!(events[1], RelayEvent::Done));
    assert_eq!(texts(&events), texts(&relay("data: {\"type\":\"a\"}")));
}

#[test]
fn malformed_frame_leaves_later_events_alone() {
    let rest = "data: {\"type\":\"metadata\",\"content\":1}\nnoise\ndata: [9]";
    let mut expected = vec![diagnostic_for("{bad")];
    expected.extend(texts(&relay(rest)));
    assert_eq!(texts(&relay(&format!("data: {{bad\n{}", rest))), expected);
}

#[test]
fn forwarded_text_is_serde_json_compact_form() {
    let payload = "{ \"type\" : \"final_response\", \"content\" : { \"z\" : 1, \"a\" : [true, null] } }";
    let events = relay(&format!("data: {}", payload));
    let v: serde_json::Value = serde_json::from_str(payload).unwrap();
    assert_eq!(events[0].data_text(), serde_json::to_string(&v).unwrap());
}

#[test]
fn lines_are_trimmed_and_crlf_accepted() {
    let events = relay("  data: {\"type\":\"metadata\",\"content\":1}  \r\n\r\ndata: {\"type\":\"custom\"}\r\n");
    assert_eq!(events.len(), 3);
    assert!(matches!(events[0], RelayEvent::Forward { kind: FrameKind::Metadata, .. }));
    assert!(matches!(events[1], RelayEvent::Forward { kind: FrameKind::Other, .. }));
    assert!(matches!(events[2], RelayEvent::Done));
}

#[test]
fn frames_are_forwarded_whatever_their_type() {
    let input = "data: {\"type\":\"thinking_update\"}\ndata: {\"type\":7}\ndata: [1,2]\ndata: \"s\"";
    let events = relay(input);
    assert_eq!(events.len(), 5);
    assert!(matches!(events[0], RelayEvent::Forward { kind: FrameKind::ThinkingUpdate, .. }));
    assert!(matches!(events[1], RelayEvent::Forward { kind: FrameKind::Untagged, .. }));
    assert!(matches!(events[2], RelayEvent::Forward { kind: FrameKind::Untagged, .. }));
    assert_eq!(events[2].data_text(), "[1,2]");
    assert_eq!(events[3].data_text(), "\"s\"");
}

#[test]
fn frame_prefix_needs_the_space() {
    let events = relay("data:{\"a\":1}\nDATA: {\"a\":1}");
    assert_eq!(events.len(), 1);
}

#[test]
fn forwarded_text_is_compact_json() {
    let events = relay("data: {  \"type\" : \"metadata\" ,  \"content\" : [ 1 , 2 ] }");
    match &events[0] {
        RelayEvent::Forward { data, .. } => {
            assert!(!data.contains(' '));
            assert_eq!(parse(data), parse("{\"type\":\"metadata\",\"content\":[1,2]}"));
        }
        other => panic!("expected a forward, got {:?}", other),
    }
}

#[test]
fn decode_reports_parse_failures() {
    assert!(matches!(decode("{\"type\":\"metadata\"}"), Decoded::Parsed { .. }));
    match decode("{\"type\":\"metadata\"}") {
        Decoded::Parsed { tag, json } => {
            assert_eq!(tag.as_deref(), Some("metadata"));
            assert_eq!(json, "{\"type\":\"metadata\"}");
        }
        other => panic!("expected a parse, got {:?}", other),
    }
    assert!(matches!(decode("{\"type\":3}"), Decoded::Parsed { tag: None, .. }));
    match decode("{bad") {
        Decoded::Malformed { reason } => {
            let err = serde_json::from_str::<serde_json::Value>("{bad").unwrap_err();
            assert_eq!(reason, err.to_string());
        }
        other => panic!("expected a failure, got {:?}", other),
    }
}

#[test]
fn event_for_builds_the_diagnostic_frame() {
    let e = event_for(Decoded::Malformed { reason: "expected value at line 1 column 2".to_string() });
    assert_eq!(
        e.data_text(),
        "{\"type\":\"thinking_update\",\"content\":\"Error parsing stream data: expected value at line 1 column 2\"}"
    );
    let e = event_for(Decoded::Malformed { reason: "a \"quoted\" word".to_string() });
    assert_eq!(
        e.data_text(),
        "{\"type\":\"thinking_update\",\"content\":\"Error parsing stream data: a \\\"quoted\\\" word\"}"
    );
    let e = event_for(Decoded::Malformed { reason: "tab\there\nline\u{1}\\".to_string() });
    assert_eq!(
        e.data_text(),
        "{\"type\":\"thinking_update\",\"content\":\"Error parsing stream data: tab\\there\\nline\\u0001\\\\\"}"
    );
}

#[test]
fn event_for_forwards_parsed_frames() {
    let e = event_for(Decoded::Parsed {
        tag: Some("final_response".to_string()),
        json: "{\"type\":\"final_response\"}".to_string(),
    });
    match e {
        RelayEvent::Forward { kind, data } => {
            assert_eq!(kind, FrameKind::FinalResponse);
            assert_eq!(data, "{\"type\":\"final_response\"}");
        }
        other => panic!("expected a forward, got {:?}", other),
    }
}

#[test]
fn frame_kinds_are_classified() {
    assert_eq!(FrameKind::of(&Some("thinking_update".to_string())), FrameKind::ThinkingUpdate);
    assert_eq!(FrameKind::of(&Some("final_response".to_string())), FrameKind::FinalResponse);
    assert_eq!(FrameKind::of(&Some("metadata".to_string())), FrameKind::Metadata);
    assert_eq!(FrameKind::of(&Some("Metadata".to_string())), FrameKind::Other);
    assert_eq!(FrameKind::of(&None), FrameKind::Untagged);
}
