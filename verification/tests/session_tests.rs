use ors_proxy::orchestrator::{build_legacy_request, derive_conversation_id, upstream_error_body};
use ors_proxy::session::StreamSession;
use ors_proxy::store::reconstruct_output_items;
use ors_proxy::types::{
    LegacyContent, OrsContentPart, OrsEvent, OrsInputItem, OrsItemKind, OrsRole, OrsStatus,
};

fn kind_of(event: &OrsEvent) -> &'static str {
    match event {
        OrsEvent::Created { .. } => "created",
        OrsEvent::ItemAdded { .. } => "item_added",
        OrsEvent::ContentPartAdded { .. } => "content_part_added",
        OrsEvent::TextDelta { .. } => "text_delta",
        OrsEvent::FunctionCallArgumentsDelta { .. } => "args_delta",
        OrsEvent::ContentPartDone { .. } => "content_part_done",
        OrsEvent::ItemDone { .. } => "item_done",
    }
}

#[test]
fn test_frame_reassembly() {
    let bytes: &[u8] = b"data: {\"choices\":[{\"delta\":{\"content\":\"A\"}}]}\n\ndata: [DONE]\n";
    let mut session = StreamSession::new();
    let mut events = Vec::new();
    events.extend(session.feed(&bytes[..10]));
    events.extend(session.feed(&bytes[10..30]));
    events.extend(session.feed(&bytes[30..]));

    let kinds: Vec<&str> = events.iter().map(kind_of).collect();
    assert_eq!(kinds, vec!["created", "item_added", "content_part_added", "text_delta"]);
    match &events[3] {
        OrsEvent::TextDelta { delta, .. } => assert_eq!(delta, "A"),
        _ => panic!("expected the text delta"),
    }
}

#[test]
fn test_crlf_tolerance() {
    let unix: &[u8] = b"data: {\"choices\":[{\"delta\":{\"content\":\"A\"}}]}\n\n";
    let crlf: &[u8] = b"data: {\"choices\":[{\"delta\":{\"content\":\"A\"}}]}\r\n\r\n";
    let mut a = StreamSession::new();
    let mut b = StreamSession::new();
    let ka: Vec<&str> = a.feed(unix).iter().map(kind_of).collect();
    let kb: Vec<&str> = b.feed(crlf).iter().map(kind_of).collect();
    assert_eq!(ka, kb);
    assert_eq!(kb, vec!["created", "item_added", "content_part_added", "text_delta"]);
}

#[test]
fn test_simple_text_turn() {
    let mut session = StreamSession::new();
    let mut events = Vec::new();
    for payload in [
        "{\"choices\":[{\"delta\":{\"content\":\"\"}}]}",
        "{\"choices\":[{\"delta\":{\"content\":\"Hi\"}}]}",
        "{\"choices\":[{\"delta\":{\"content\":\" there\"}}]}",
        "{\"choices\":[{\"delta\":{},\"finish_reason\":\"stop\"}]}",
        "[DONE]",
    ] {
        let frame = format!("data: {}\n\n", payload);
        events.extend(session.feed(frame.as_bytes()));
    }

    let kinds: Vec<&str> = events.iter().map(kind_of).collect();
    assert_eq!(
        kinds,
        vec![
            "created",
            "item_added",
            "content_part_added",
            "text_delta",
            "text_delta",
            "content_part_done",
            "item_done",
        ]
    );
    match &events[3] {
        OrsEvent::TextDelta { delta, .. } => assert_eq!(delta, "Hi"),
        _ => panic!("expected text delta"),
    }
    match &events[4] {
        OrsEvent::TextDelta { delta, .. } => assert_eq!(delta, " there"),
        _ => panic!("expected text delta"),
    }
    match &events[6] {
        OrsEvent::ItemDone { item, .. } => assert_eq!(item.status, OrsStatus::Completed),
        _ => panic!("expected item done"),
    }

    // the stored output of this turn is a single assistant message "Hi there"
    let stored = reconstruct_output_items(session.collected_events());
    assert_eq!(stored.len(), 1);
    assert_eq!(
        stored[0].item,
        OrsInputItem::Message {
            role: OrsRole::Assistant,
            content: vec![OrsContentPart::InputText { text: "Hi there".to_string() }],
        }
    );
}

#[test]
fn test_tool_call_turn() {
    let mut session = StreamSession::new();
    let mut events = Vec::new();
    for payload in [
        "{\"choices\":[{\"delta\":{\"tool_calls\":[{\"index\":0,\"id\":\"call_123\",\"type\":\"function\",\"function\":{\"name\":\"get_weather\",\"arguments\":\"\"}}]}}]}",
        "{\"choices\":[{\"delta\":{\"tool_calls\":[{\"index\":0,\"function\":{\"arguments\":\"{\\\"loc\\\"\"}}]}}]}",
        "{\"choices\":[{\"delta\":{\"tool_calls\":[{\"index\":0,\"function\":{\"arguments\":\":\\\"SF\\\"}\"}}]}}]}",
        "{\"choices\":[{\"delta\":{},\"finish_reason\":\"tool_calls\"}]}",
    ] {
        let frame = format!("data: {}\n\n", payload);
        events.extend(session.feed(frame.as_bytes()));
    }

    let kinds: Vec<&str> = events.iter().map(kind_of).collect();
    assert_eq!(kinds, vec!["created", "item_added", "args_delta", "args_delta", "item_done"]);
    match &events[1] {
        OrsEvent::ItemAdded { item, .. } => {
            assert_eq!(item.kind, OrsItemKind::FunctionCall);
            assert_eq!(item.call_id.as_deref(), Some("call_123"));
            assert_eq!(item.name.as_deref(), Some("get_weather"));
        }
        _ => panic!("expected the function-call item"),
    }
    match &events[2] {
        OrsEvent::FunctionCallArgumentsDelta { delta, .. } => assert_eq!(delta, "{\"loc\""),
        _ => panic!("expected the first argument delta"),
    }
    match &events[3] {
        OrsEvent::FunctionCallArgumentsDelta { delta, .. } => assert_eq!(delta, ":\"SF\"}"),
        _ => panic!("expected the second argument delta"),
    }
    match &events[4] {
        OrsEvent::ItemDone { item, .. } => assert_eq!(item.status, OrsStatus::Completed),
        _ => panic!("expected item done"),
    }
}

#[test]
fn test_malformed_data_line_is_skipped() {
    let mut session = StreamSession::new();
    assert!(session.feed(b"data: this is not json\n").is_empty());
    assert!(session.feed(b": keepalive comment\n").is_empty());
    let events = session.feed(b"data: {\"choices\":[{\"delta\":{\"content\":\"ok\"}}]}\n");
    let kinds: Vec<&str> = events.iter().map(kind_of).collect();
    assert_eq!(kinds, vec!["created", "item_added", "content_part_added", "text_delta"]);
}

#[test]
fn test_context_continuation() {
    // turn 1: a user message and its streamed assistant reply
    let mut session = StreamSession::new();
    session.feed(b"data: {\"choices\":[{\"delta\":{\"content\":\"Nice to meet you\"}}]}\n");
    session.feed(b"data: {\"choices\":[{\"delta\":{},\"finish_reason\":\"stop\"}]}\n");
    let turn1_input = vec![OrsInputItem::Message {
        role: OrsRole::User,
        content: vec![OrsContentPart::InputText { text: "Hello".to_string() }],
    }];
    let reconstructed = reconstruct_output_items(session.collected_events());

    // turn 2: history = turn-1 input + turn-1 output, then the new user text
    let mut history: Vec<OrsInputItem> = turn1_input;
    history.extend(reconstructed.into_iter().map(|r| r.item));
    history.push(OrsInputItem::Message {
        role: OrsRole::User,
        content: vec![OrsContentPart::InputText { text: "And again?".to_string() }],
    });
    let request = build_legacy_request("some-model".to_string(), history);

    assert_eq!(request.model, "some-model");
    assert!(request.stream);
    assert_eq!(request.messages.len(), 3);
    assert_eq!(request.messages[0].role, "user");
    assert_eq!(
        request.messages[0].content,
        Some(LegacyContent::Text { text: "Hello".to_string() })
    );
    assert_eq!(request.messages[1].role, "assistant");
    assert_eq!(
        request.messages[1].content,
        Some(LegacyContent::Text { text: "Nice to meet you".to_string() })
    );
    assert_eq!(request.messages[2].role, "user");
    assert_eq!(
        request.messages[2].content,
        Some(LegacyContent::Text { text: "And again?".to_string() })
    );
}

#[test]
fn test_upstream_error_body() {
    let body = upstream_error_body("overloaded");
    assert_eq!(
        body,
        "{\"error\":{\"message\":\"Upstream provider error: overloaded\",\
         \"type\":\"upstream_error\",\"code\":\"upstream_failed\"}}"
    );
    assert!(body.contains("overloaded"));
    assert!(body.contains("\"type\":\"upstream_error\""));
    assert!(body.contains("\"code\":\"upstream_failed\""));
}

#[test]
fn test_upstream_error_body_escapes_text() {
    let body = upstream_error_body("bad \"gateway\"\n\u{1}");
    let parsed: serde_json::Value = serde_json::from_str(&body).expect("body must be valid JSON");
    assert_eq!(
        parsed["error"]["message"],
        "Upstream provider error: bad \"gateway\"\n\u{1}"
    );
    assert_eq!(parsed["error"]["type"], "upstream_error");
    assert_eq!(parsed["error"]["code"], "upstream_failed");
}

#[test]
fn test_conversation_id_derivation() {
    let given = derive_conversation_id(&Some("conv_abc".to_string()));
    assert_eq!(given, "conv_abc");
    let fresh = derive_conversation_id(&None);
    assert_eq!(fresh.len(), 36);
    let other = derive_conversation_id(&None);
    assert_ne!(fresh, other);
}
