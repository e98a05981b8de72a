use ors_proxy::types::{
    LegacyContent, LegacyContentPart, OrsContentPart, OrsInputItem, OrsRole,
};
use ors_proxy::upstream::transform_ors_to_legacy;

#[test]
fn test_transform_simple_message() {
    let input = vec![OrsInputItem::Message {
        role: OrsRole::User,
        content: vec![OrsContentPart::InputText { text: "Hello world".to_string() }],
    }];

    let legacy = transform_ors_to_legacy(input);
    assert_eq!(legacy.len(), 1);
    assert_eq!(legacy[0].role, "user");
    assert_eq!(
        legacy[0].content,
        Some(LegacyContent::Text { text: "Hello world".to_string() })
    );
}

#[test]
fn test_transform_developer_role() {
    let input = vec![OrsInputItem::Message {
        role: OrsRole::Developer,
        content: vec![OrsContentPart::InputText { text: "System prompt".to_string() }],
    }];

    let legacy = transform_ors_to_legacy(input);
    assert_eq!(legacy.len(), 1);
    assert_eq!(legacy[0].role, "system");
}

#[test]
fn test_transform_multi_part_text() {
    let input = vec![OrsInputItem::Message {
        role: OrsRole::User,
        content: vec![
            OrsContentPart::InputText { text: "Part 1 ".to_string() },
            OrsContentPart::InputText { text: "Part 2".to_string() },
        ],
    }];

    let legacy = transform_ors_to_legacy(input);
    assert_eq!(
        legacy[0].content,
        Some(LegacyContent::Text { text: "Part 1 Part 2".to_string() })
    );
}

#[test]
fn test_transform_image_multimodal() {
    let image_ref = "{\"url\":\"http://img.png\"}".to_string();
    let input = vec![OrsInputItem::Message {
        role: OrsRole::User,
        content: vec![
            OrsContentPart::InputText { text: "Look at this:".to_string() },
            OrsContentPart::InputImage { image_url: image_ref.clone() },
        ],
    }];

    let legacy = transform_ors_to_legacy(input);
    let content = legacy[0].content.as_ref().unwrap();
    match content {
        LegacyContent::Parts { parts } => {
            assert_eq!(parts.len(), 2);
            assert_eq!(parts[0], LegacyContentPart::Text { text: "Look at this:".to_string() });
            assert_eq!(parts[1], LegacyContentPart::ImageUrl { image_url: image_ref });
        }
        _ => panic!("multimodal content must be the typed-part array"),
    }
}

#[test]
fn test_transform_tool_calls() {
    let input = vec![
        OrsInputItem::FunctionCall {
            id: "item_1".to_string(),
            call_id: "call_abc".to_string(),
            name: "get_weather".to_string(),
            arguments: "{\"city\":\"SF\"}".to_string(),
        },
        OrsInputItem::FunctionCallOutput {
            id: "item_2".to_string(),
            call_id: "call_abc".to_string(),
            output: "Sunny".to_string(),
        },
    ];

    let legacy = transform_ors_to_legacy(input);
    assert_eq!(legacy.len(), 2);

    assert_eq!(legacy[0].role, "assistant");
    let tc = legacy[0].tool_calls.as_ref().unwrap();
    assert_eq!(tc[0].id, "call_abc");
    assert_eq!(tc[0].name, "get_weather");
    assert_eq!(tc[0].arguments, "{\"city\":\"SF\"}");

    assert_eq!(legacy[1].role, "tool");
    assert_eq!(legacy[1].tool_call_id.as_deref(), Some("call_abc"));
    assert_eq!(legacy[1].content, Some(LegacyContent::Text { text: "Sunny".to_string() }));
}

#[test]
fn test_transform_empty_text_message_has_no_content() {
    let input = vec![OrsInputItem::Message {
        role: OrsRole::Assistant,
        content: vec![OrsContentPart::InputText { text: "".to_string() }],
    }];

    let legacy = transform_ors_to_legacy(input);
    assert_eq!(legacy.len(), 1);
    assert_eq!(legacy[0].role, "assistant");
    assert!(legacy[0].content.is_none());
}

#[test]
fn test_transform_drops_empty_parts_in_array_form() {
    let input = vec![OrsInputItem::Message {
        role: OrsRole::User,
        content: vec![
            OrsContentPart::InputText { text: "".to_string() },
            OrsContentPart::InputImage { image_url: "\"ref\"".to_string() },
        ],
    }];

    let legacy = transform_ors_to_legacy(input);
    match legacy[0].content.as_ref().unwrap() {
        LegacyContent::Parts { parts } => {
            assert_eq!(parts.len(), 1);
            assert_eq!(parts[0], LegacyContentPart::ImageUrl { image_url: "\"ref\"".to_string() });
        }
        _ => panic!("image content must be the typed-part array"),
    }
}

#[test]
fn test_transform_preserves_item_order() {
    let input = vec![
        OrsInputItem::Message {
            role: OrsRole::User,
            content: vec![OrsContentPart::InputText { text: "one".to_string() }],
        },
        OrsInputItem::Message {
            role: OrsRole::Assistant,
            content: vec![OrsContentPart::InputText { text: "two".to_string() }],
        },
        OrsInputItem::Message {
            role: OrsRole::User,
            content: vec![OrsContentPart::InputText { text: "three".to_string() }],
        },
    ];

    let legacy = transform_ors_to_legacy(input);
    assert_eq!(legacy.len(), 3);
    assert_eq!(legacy[0].role, "user");
    assert_eq!(legacy[1].role, "assistant");
    assert_eq!(legacy[2].role, "user");
    assert_eq!(legacy[0].content, Some(LegacyContent::Text { text: "one".to_string() }));
    assert_eq!(legacy[1].content, Some(LegacyContent::Text { text: "two".to_string() }));
    assert_eq!(legacy[2].content, Some(LegacyContent::Text { text: "three".to_string() }));
}
