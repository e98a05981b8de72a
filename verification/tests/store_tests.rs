use ors_proxy::store::reconstruct_output_items;
use ors_proxy::types::{
    OrsContentPart, OrsEvent, OrsInputItem, OrsItemKind, OrsOutputItem, OrsRole, OrsStatus,
};

fn added(seq: usize, id: &str, kind: OrsItemKind) -> OrsEvent {
    OrsEvent::ItemAdded {
        sequence_number: seq,
        item: OrsOutputItem {
            id: id.to_string(),
            kind,
            status: OrsStatus::InProgress,
            call_id: None,
            name: None,
            arguments: None,
        },
    }
}

fn text_delta(seq: usize, id: &str, delta: &str) -> OrsEvent {
    OrsEvent::TextDelta {
        sequence_number: seq,
        item_id: id.to_string(),
        output_index: 0,
        content_index: 0,
        delta: delta.to_string(),
    }
}

#[test]
fn test_reconstruct_simple_text_item() {
    let events = vec![
        OrsEvent::Created { sequence_number: 0, id: "resp_1".to_string() },
        added(1, "msg_1", OrsItemKind::Message),
        text_delta(2, "msg_1", "Hi"),
        text_delta(3, "msg_1", " there"),
    ];
    let items = reconstruct_output_items(&events);
    assert_eq!(items.len(), 1);
    assert_eq!(items[0].kind, OrsItemKind::Message);
    assert_eq!(
        items[0].item,
        OrsInputItem::Message {
            role: OrsRole::Assistant,
            content: vec![OrsContentPart::InputText { text: "Hi there".to_string() }],
        }
    );
}

#[test]
fn test_reconstruct_keeps_first_seen_order() {
    let events = vec![
        added(0, "msg_a", OrsItemKind::Message),
        added(1, "fc_b", OrsItemKind::FunctionCall),
        text_delta(2, "msg_a", "alpha"),
    ];
    let items = reconstruct_output_items(&events);
    assert_eq!(items.len(), 2);
    assert_eq!(items[0].kind, OrsItemKind::Message);
    assert_eq!(
        items[0].item,
        OrsInputItem::Message {
            role: OrsRole::Assistant,
            content: vec![OrsContentPart::InputText { text: "alpha".to_string() }],
        }
    );
    assert_eq!(items[1].kind, OrsItemKind::FunctionCall);
    assert_eq!(
        items[1].item,
        OrsInputItem::Message {
            role: OrsRole::Assistant,
            content: vec![OrsContentPart::InputText { text: "".to_string() }],
        }
    );
}

#[test]
fn test_reconstruct_ignores_unmatched_deltas() {
    let events = vec![
        added(0, "msg_a", OrsItemKind::Message),
        text_delta(1, "msg_zzz", "lost"),
    ];
    let items = reconstruct_output_items(&events);
    assert_eq!(items.len(), 1);
    assert_eq!(
        items[0].item,
        OrsInputItem::Message {
            role: OrsRole::Assistant,
            content: vec![OrsContentPart::InputText { text: "".to_string() }],
        }
    );
}

#[test]
fn test_reconstruct_empty_events_yield_nothing() {
    let items = reconstruct_output_items(&vec![]);
    assert!(items.is_empty());
}
