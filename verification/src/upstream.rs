use crate::types::{
    ContentPartModel, InputItemModel, LegacyContent, LegacyContentModel, LegacyContentPart,
    LegacyMessage, LegacyMessageModel, LegacyPartModel, LegacyToolCall, LegacyToolCallModel,
    OrsContentPart, OrsInputItem, OrsRole,
};
use vstd::prelude::*;

verus! {

// ---------------------------------------------------------------------------
// Request translator: inbound items to outbound legacy chat messages, one
// message per item, order preserved.
// ---------------------------------------------------------------------------

/// The legacy role string of an inbound message role.
pub open spec fn spec_role_str(role: OrsRole) -> Seq<char> {
    match role {
        OrsRole::User => "user"@,
        OrsRole::Assistant => "assistant"@,
        OrsRole::Developer => "system"@,
    }
}

/// The typed legacy parts of a message's content: non-empty text parts and
/// all image parts, in order.
pub open spec fn spec_legacy_parts(parts: Seq<ContentPartModel>) -> Seq<LegacyPartModel>
    decreases parts.len(),
{
    if parts.len() == 0 {
        Seq::<LegacyPartModel>::empty()
    } else {
        let rest = spec_legacy_parts(parts.drop_last());
        match parts.last() {
            ContentPartModel::Text { text } => {
                if text.len() > 0 {
                    rest.push(LegacyPartModel::Text { text })
                } else {
                    rest
                }
            },
            ContentPartModel::Image { image_url } => {
                rest.push(LegacyPartModel::ImageUrl { image_url })
            },
        }
    }
}

/// Whether the content holds an image part.
pub open spec fn spec_has_image(parts: Seq<ContentPartModel>) -> bool
    decreases parts.len(),
{
    if parts.len() == 0 {
        false
    } else {
        spec_has_image(parts.drop_last()) || parts.last() is Image
    }
}

/// The concatenation of all text part texts, in order.
pub open spec fn spec_concat_texts(parts: Seq<ContentPartModel>) -> Seq<char>
    decreases parts.len(),
{
    if parts.len() == 0 {
        Seq::<char>::empty()
    } else {
        let rest = spec_concat_texts(parts.drop_last());
        match parts.last() {
            ContentPartModel::Text { text } => rest + text,
            ContentPartModel::Image { .. } => rest,
        }
    }
}

/// The legacy content of a message: the typed-part array when an image is
/// present, the concatenated text when it is non-empty, and nothing
/// otherwise.
pub open spec fn spec_message_content(parts: Seq<ContentPartModel>) -> Option<LegacyContentModel> {
    if spec_has_image(parts) {
        Some(LegacyContentModel::Parts { parts: spec_legacy_parts(parts) })
    } else if spec_concat_texts(parts).len() > 0 {
        Some(LegacyContentModel::Text { text: spec_concat_texts(parts) })
    } else {
        None
    }
}

/// The legacy message of one inbound item.
pub open spec fn spec_translate_item(item: InputItemModel) -> LegacyMessageModel {
    match item {
        InputItemModel::Message { role, content } => LegacyMessageModel {
            role: spec_role_str(role),
            content: spec_message_content(content),
            tool_calls: None,
            tool_call_id: None,
        },
        InputItemModel::FunctionCall { id, call_id, name, arguments } => LegacyMessageModel {
            role: "assistant"@,
            content: None,
            tool_calls: Some(
                seq![LegacyToolCallModel { id: call_id, name: name, arguments: arguments }],
            ),
            tool_call_id: None,
        },
        InputItemModel::FunctionCallOutput { id, call_id, output } => LegacyMessageModel {
            role: "tool"@,
            content: Some(LegacyContentModel::Text { text: output }),
            tool_calls: None,
            tool_call_id: Some(call_id),
        },
    }
}

/// The legacy messages of an ordered item list: one message per item, in
/// order.
pub open spec fn spec_translate(items: Seq<InputItemModel>) -> Seq<LegacyMessageModel>
    decreases items.len(),
{
    if items.len() == 0 {
        Seq::<LegacyMessageModel>::empty()
    } else {
        spec_translate(items.drop_last()).push(spec_translate_item(items.last()))
    }
}

/// Translates an ordered list of inbound items into the ordered list of
/// outbound legacy chat messages.
pub fn transform_ors_to_legacy(input: Vec<OrsInputItem>) -> (r: Vec<LegacyMessage>)
    ensures
        r.deep_view() == spec_translate(input.deep_view()),
{
    let mut messages: Vec<LegacyMessage> = Vec::new();
    proof {
        assert(input.deep_view().take(0) =~= Seq::<InputItemModel>::empty());
        assert(messages.deep_view() =~= spec_translate(input.deep_view().take(0)));
    }
    let mut i: usize = 0;
    while i < input.len()
        invariant
            i <= input@.len(),
            messages.deep_view() == spec_translate(input.deep_view().take(i as int)),
        decreases input@.len() - i,
    {
        let message = translate_item(&input[i]);
        proof {
            assert(input.deep_view()[i as int] == input@[i as int]@);
        }
        messages.push(message);
        proof {
            let items_v = input.deep_view();
            assert(items_v.take(i as int + 1).drop_last() =~= items_v.take(i as int));
            assert(items_v.take(i as int + 1).last() == items_v[i as int]);
            assert(messages.deep_view() =~= spec_translate(items_v.take(i as int + 1)));
        }
        i += 1;
    }
    proof {
        assert(input.deep_view().take(input@.len() as int) =~= input.deep_view());
    }
    messages
}

/// Translates one inbound item.
fn translate_item(item: &OrsInputItem) -> (r: LegacyMessage)
    ensures
        r@ == spec_translate_item(item@),
{
    match item {
        OrsInputItem::Message { role, content } => {
            let role_str = match role {
                OrsRole::User => String::from_str("user"),
                OrsRole::Assistant => String::from_str("assistant"),
                OrsRole::Developer => String::from_str("system"),
            };
            let mut legacy_parts: Vec<LegacyContentPart> = Vec::new();
            let mut has_image = false;
            let mut full_text = String::new();
            proof {
                assert(content.deep_view().take(0) =~= Seq::<ContentPartModel>::empty());
                assert(legacy_parts.deep_view() =~= spec_legacy_parts(content.deep_view().take(0)));
            }
            let mut j: usize = 0;
            while j < content.len()
                invariant
                    j <= content@.len(),
                    legacy_parts.deep_view() == spec_legacy_parts(
                        content.deep_view().take(j as int),
                    ),
                    has_image == spec_has_image(content.deep_view().take(j as int)),
                    full_text@ == spec_concat_texts(content.deep_view().take(j as int)),
                decreases content@.len() - j,
            {
                let ghost parts_v = content.deep_view();
                proof {
                    assert(parts_v.take(j as int + 1).drop_last() =~= parts_v.take(j as int));
                    assert(parts_v.take(j as int + 1).last() == parts_v[j as int]);
                    assert(parts_v[j as int] == content@[j as int]@);
                }
                match &content[j] {
                    OrsContentPart::InputText { text } => {
                        if !text.as_str().is_empty() {
                            legacy_parts.push(LegacyContentPart::Text { text: text.clone() });
                        }
                        full_text.append(text.as_str());
                    },
                    OrsContentPart::InputImage { image_url } => {
                        has_image = true;
                        legacy_parts.push(
                            LegacyContentPart::ImageUrl { image_url: image_url.clone() },
                        );
                    },
                }
                proof {
                    assert(legacy_parts.deep_view() =~= spec_legacy_parts(
                        parts_v.take(j as int + 1),
                    ));
                }
                j += 1;
            }
            proof {
                assert(content.deep_view().take(content@.len() as int) =~= content.deep_view());
            }
            let content_val: Option<LegacyContent> = if has_image {
                Some(LegacyContent::Parts { parts: legacy_parts })
            } else if !full_text.as_str().is_empty() {
                Some(LegacyContent::Text { text: full_text })
            } else {
                None
            };
            let r = LegacyMessage {
                role: role_str,
                content: content_val,
                tool_calls: None,
                tool_call_id: None,
            };
            proof {
                assert(r@ =~~= spec_translate_item(item@));
            }
            r
        },
        OrsInputItem::FunctionCall { id: _, call_id, name, arguments } => {
            let mut tool_calls: Vec<LegacyToolCall> = Vec::new();
            tool_calls.push(
                LegacyToolCall {
                    id: call_id.clone(),
                    name: name.clone(),
                    arguments: arguments.clone(),
                },
            );
            let r = LegacyMessage {
                role: String::from_str("assistant"),
                content: None,
                tool_calls: Some(tool_calls),
                tool_call_id: None,
            };
            proof {
                assert(r@ =~~= spec_translate_item(item@));
            }
            r
        },
        OrsInputItem::FunctionCallOutput { id: _, call_id, output } => {
            let r = LegacyMessage {
                role: String::from_str("tool"),
                content: Some(LegacyContent::Text { text: output.clone() }),
                tool_calls: None,
                tool_call_id: Some(call_id.clone()),
            };
            proof {
                assert(r@ =~~= spec_translate_item(item@));
            }
            r
        },
    }
}

/// All-text content holds no image part.
proof fn lemma_all_text_no_image(parts: Seq<ContentPartModel>)
    requires
        forall|i: int| 0 <= i < parts.len() ==> #[trigger] parts[i] is Text,
    ensures
        !spec_has_image(parts),
    decreases parts.len(),
{
    if parts.len() > 0 {
        assert(forall|i: int|
            0 <= i < parts.drop_last().len() ==> #[trigger] parts.drop_last()[i] is Text);
        lemma_all_text_no_image(parts.drop_last());
    }
}

/// Law: translating a user message whose parts are all text, with a
/// non-empty concatenation, yields exactly one legacy user message whose
/// content is the concatenation of the part texts.  (A message whose texts
/// concatenate to nothing gets no content instead.)
pub proof fn lemma_text_message_translation(parts: Seq<ContentPartModel>)
    requires
        forall|i: int| 0 <= i < parts.len() ==> #[trigger] parts[i] is Text,
        spec_concat_texts(parts).len() > 0,
    ensures
        spec_translate(seq![InputItemModel::Message { role: OrsRole::User, content: parts }])
            == seq![
            LegacyMessageModel {
                role: "user"@,
                content: Some(LegacyContentModel::Text { text: spec_concat_texts(parts) }),
                tool_calls: None,
                tool_call_id: None,
            },
        ],
{
    lemma_all_text_no_image(parts);
    let items = seq![InputItemModel::Message { role: OrsRole::User, content: parts }];
    assert(items.drop_last() =~= Seq::<InputItemModel>::empty());
    assert(items.last() == InputItemModel::Message { role: OrsRole::User, content: parts });
    assert(spec_translate(items.drop_last()) == Seq::<LegacyMessageModel>::empty());
    assert(spec_translate(items) =~~= seq![
        LegacyMessageModel {
            role: "user"@,
            content: Some(LegacyContentModel::Text { text: spec_concat_texts(parts) }),
            tool_calls: None,
            tool_call_id: None,
        },
    ]);
}

} // verus!
