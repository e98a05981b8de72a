use ors_proxy::transcoder::Transcoder;
use ors_proxy::types::{
    event_name, LegacyChoice, LegacyChunk, LegacyDelta, OrsEvent, OrsItemKind, OrsStatus,
    ToolCallDelta,
};

fn make_chunk(content: Option<&str>, finish_reason: Option<&str>) -> LegacyChunk {
    LegacyChunk {
        choices: vec![LegacyChoice {
            delta: LegacyDelta { content: content.map(|s| s.to_string()), tool_calls: None },
            finish_reason: finish_reason.map(|s| s.to_string()),
        }],
    }
}

fn tool_chunk(tool_calls: Vec<ToolCallDelta>, finish_reason: Option<&str>) -> LegacyChunk {
    LegacyChunk {
        choices: vec![LegacyChoice {
            delta: LegacyDelta { content: None, tool_calls: Some(tool_calls) },
            finish_reason: finish_reason.map(|s| s.to_string()),
        }],
    }
}

#[test]
fn test_transcoder_lifecycle() {
    let mut transcoder = Transcoder::new();

    let events = transcoder.process(make_chunk(Some(""), None));
    assert_eq!(events.len(), 2);
    match &events[0] {
        OrsEvent::Created { .. } => {}
        _ => panic!("First event should be Created"),
    }
    match &events[1] {
        OrsEvent::ItemAdded { item, .. } => {
            assert_eq!(item.kind, OrsItemKind::Message);
        }
        _ => panic!("Second event should be ItemAdded"),
    }

    let events = transcoder.process(make_chunk(Some("Hello"), None));
    assert_eq!(events.len(), 2);
    match &events[0] {
        OrsEvent::ContentPartAdded { .. } => {}
        _ => panic!("Should be ContentPartAdded"),
    }
    match &events[1] {
        OrsEvent::TextDelta { delta, .. } => assert_eq!(delta, "Hello"),
        _ => panic!("Should be TextDelta"),
    }

    let events = transcoder.process(make_chunk(None, Some("stop")));
    assert_eq!(events.len(), 2);
    match &events[0] {
        OrsEvent::ContentPartDone { .. } => {}
        _ => panic!("Should be ContentPartDone"),
    }
    match &events[1] {
        OrsEvent::ItemDone { item, .. } => assert_eq!(item.status, OrsStatus::Completed),
        _ => panic!("Should be ItemDone"),
    }
}

#[test]
fn test_transcoder_tool_calls() {
    let mut transcoder = Transcoder::new();

    let events1 = transcoder.process(tool_chunk(
        vec![ToolCallDelta {
            id: Some("call_123".to_string()),
            name: Some("get_weather".to_string()),
            arguments: Some("".to_string()),
        }],
        None,
    ));
    assert_eq!(events1.len(), 2);
    match &events1[0] {
        OrsEvent::Created { .. } => {}
        _ => panic!("Expected Created"),
    }
    match &events1[1] {
        OrsEvent::ItemAdded { item, .. } => {
            assert_eq!(item.kind, OrsItemKind::FunctionCall);
            assert_eq!(item.call_id.as_deref(), Some("call_123"));
            assert_eq!(item.name.as_deref(), Some("get_weather"));
        }
        _ => panic!("Expected ItemAdded"),
    }

    let events2 = transcoder.process(tool_chunk(
        vec![ToolCallDelta { id: None, name: None, arguments: Some("{\"loc\"".to_string()) }],
        None,
    ));
    assert_eq!(events2.len(), 1);
    if let OrsEvent::FunctionCallArgumentsDelta { delta, .. } = &events2[0] {
        assert_eq!(delta, "{\"loc\"");
    } else {
        panic!("Expected Args Delta");
    }

    let events3 = transcoder.process(make_chunk(None, Some("tool_calls")));
    assert_eq!(events3.len(), 1);
    if let OrsEvent::ItemDone { item, .. } = &events3[0] {
        assert_eq!(item.status, OrsStatus::Completed);
    } else {
        panic!("Expected ItemDone");
    }
}

#[test]
fn test_transcoder_sequence_numbers_dense() {
    let mut transcoder = Transcoder::new();
    transcoder.process(make_chunk(Some(""), None));
    transcoder.process(make_chunk(Some("Hi"), None));
    transcoder.process(make_chunk(Some(" there"), None));
    transcoder.process(make_chunk(None, Some("stop")));
    let all = transcoder.collected();
    assert_eq!(all.len(), 7);
    for (i, event) in all.iter().enumerate() {
        let n = match event {
            OrsEvent::Created { sequence_number, .. } => *sequence_number,
            OrsEvent::ItemAdded { sequence_number, .. } => *sequence_number,
            OrsEvent::ContentPartAdded { sequence_number, .. } => *sequence_number,
            OrsEvent::TextDelta { sequence_number, .. } => *sequence_number,
            OrsEvent::FunctionCallArgumentsDelta { sequence_number, .. } => *sequence_number,
            OrsEvent::ContentPartDone { sequence_number, .. } => *sequence_number,
            OrsEvent::ItemDone { sequence_number, .. } => *sequence_number,
        };
        assert_eq!(n, i);
    }
}

#[test]
fn test_transcoder_ids_have_wire_prefixes() {
    let mut transcoder = Transcoder::new();
    assert!(transcoder.response_id().starts_with("resp_"));
    assert_eq!(transcoder.response_id().len(), 37);

    let events = transcoder.process(make_chunk(Some("x"), None));
    match &events[0] {
        OrsEvent::Created { id, .. } => {
            assert!(id.starts_with("resp_"));
            assert_eq!(id.len(), 37);
        }
        _ => panic!("expected created first"),
    }
    match &events[1] {
        OrsEvent::ItemAdded { item, .. } => {
            assert!(item.id.starts_with("msg_"));
            assert_eq!(item.id.len(), 36);
        }
        _ => panic!("expected item added second"),
    }

    let mut other = Transcoder::new();
    let events = other.process(tool_chunk(
        vec![ToolCallDelta {
            id: Some("call_9".to_string()),
            name: None,
            arguments: None,
        }],
        None,
    ));
    match &events[1] {
        OrsEvent::ItemAdded { item, .. } => {
            assert!(item.id.starts_with("fc_"));
            assert_eq!(item.name.as_deref(), Some("unknown"));
        }
        _ => panic!("expected item added second"),
    }
}

#[test]
fn test_transcoder_finish_reason_mapping() {
    for (reason, expected) in [
        ("stop", OrsStatus::Completed),
        ("length", OrsStatus::Incomplete),
        ("content_filter", OrsStatus::Incomplete),
        ("anything_else", OrsStatus::Completed),
    ] {
        let mut transcoder = Transcoder::new();
        let events = transcoder.process(make_chunk(None, Some(reason)));
        match events.last().expect("finish emits item done") {
            OrsEvent::ItemDone { item, .. } => assert_eq!(item.status, expected),
            _ => panic!("expected item done"),
        }
    }
}

#[test]
fn test_transcoder_empty_chunk_no_events() {
    let mut transcoder = Transcoder::new();
    let events = transcoder.process(LegacyChunk { choices: vec![] });
    assert!(events.is_empty());
    assert!(transcoder.collected().is_empty());
}

#[test]
fn test_transcoder_closes_part_before_tool_item() {
    let mut transcoder = Transcoder::new();
    transcoder.process(make_chunk(Some("partial text"), None));
    let events = transcoder.process(tool_chunk(
        vec![ToolCallDelta {
            id: Some("call_x".to_string()),
            name: Some("f".to_string()),
            arguments: None,
        }],
        None,
    ));
    assert_eq!(events.len(), 2);
    match &events[0] {
        OrsEvent::ContentPartDone { .. } => {}
        _ => panic!("open content part must be closed before the tool item"),
    }
    match &events[1] {
        OrsEvent::ItemAdded { item, .. } => assert_eq!(item.kind, OrsItemKind::FunctionCall),
        _ => panic!("expected the function-call item"),
    }
}

#[test]
fn test_transcoder_ignores_args_without_function_call_item() {
    let mut transcoder = Transcoder::new();
    transcoder.process(make_chunk(Some("hello"), None));
    let events = transcoder.process(tool_chunk(
        vec![ToolCallDelta { id: None, name: None, arguments: Some("{}".to_string()) }],
        None,
    ));
    assert!(events.is_empty());
}

#[test]
fn test_event_names() {
    let mut transcoder = Transcoder::new();
    let events = transcoder.process(make_chunk(Some("hey"), None));
    assert_eq!(event_name(&events[0]), "response.created");
    assert_eq!(event_name(&events[1]), "response.output_item.added");
    assert_eq!(event_name(&events[2]), "response.content_part.added");
    assert_eq!(event_name(&events[3]), "response.output_text.delta");
    let events = transcoder.process(make_chunk(None, Some("stop")));
    assert_eq!(event_name(&events[0]), "response.content_part.done");
    assert_eq!(event_name(&events[1]), "response.output_item.done");
}

#[test]
fn test_next_seq_reports_event_count() {
    let mut transcoder = Transcoder::new();
    assert_eq!(transcoder.next_seq(), Some(0));
    transcoder.process(make_chunk(Some(""), None));
    assert_eq!(transcoder.next_seq(), Some(2));
}
