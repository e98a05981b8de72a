use vstd::prelude::*;

verus! {

// ---------------------------------------------------------------------------
// Inbound structured-request data model.
//
// Every type here is plain data: strings, vectors, options.  Opaque JSON
// values of the wire format (function-call arguments, image references) are
// carried as their serialized JSON text, so that the whole data model is
// visible to the verifier.  Each executable type has a spec-level model
// reachable through `View`/`DeepView`, and the contracts of the library are
// stated over those models.
// ---------------------------------------------------------------------------

/// Role attached to an inbound conversation message.
#[derive(Clone, Copy, PartialEq, Eq, Structural, Debug)]
pub enum OrsRole {
    User,
    Assistant,
    Developer,
}

/// One content part of an inbound message: either text, or an opaque image
/// reference carried as its JSON text.
#[derive(Clone, PartialEq, Debug)]
pub enum OrsContentPart {
    InputText { text: String },
    InputImage { image_url: String },
}

/// Spec model of a content part.
#[verifier::ext_equal]
pub enum ContentPartModel {
    Text { text: Seq<char> },
    Image { image_url: Seq<char> },
}

impl View for OrsContentPart {
    type V = ContentPartModel;

    open spec fn view(&self) -> ContentPartModel {
        match self {
            OrsContentPart::InputText { text } => ContentPartModel::Text { text: text@ },
            OrsContentPart::InputImage { image_url } => ContentPartModel::Image {
                image_url: image_url@,
            },
        }
    }
}

impl DeepView for OrsContentPart {
    type V = ContentPartModel;

    open spec fn deep_view(&self) -> ContentPartModel {
        self.view()
    }
}

/// One inbound item: a message, a function call, or a function-call output.
#[derive(Clone, PartialEq, Debug)]
pub enum OrsInputItem {
    Message { role: OrsRole, content: Vec<OrsContentPart> },
    FunctionCall { id: String, call_id: String, name: String, arguments: String },
    FunctionCallOutput { id: String, call_id: String, output: String },
}

/// Spec model of an inbound item.
#[verifier::ext_equal]
pub enum InputItemModel {
    Message { role: OrsRole, content: Seq<ContentPartModel> },
    FunctionCall { id: Seq<char>, call_id: Seq<char>, name: Seq<char>, arguments: Seq<char> },
    FunctionCallOutput { id: Seq<char>, call_id: Seq<char>, output: Seq<char> },
}

impl View for OrsInputItem {
    type V = InputItemModel;

    open spec fn view(&self) -> InputItemModel {
        match self {
            OrsInputItem::Message { role, content } => InputItemModel::Message {
                role: *role,
                content: content.deep_view(),
            },
            OrsInputItem::FunctionCall { id, call_id, name, arguments } => {
                InputItemModel::FunctionCall {
                    id: id@,
                    call_id: call_id@,
                    name: name@,
                    arguments: arguments@,
                }
            },
            OrsInputItem::FunctionCallOutput { id, call_id, output } => {
                InputItemModel::FunctionCallOutput {
                    id: id@,
                    call_id: call_id@,
                    output: output@,
                }
            },
        }
    }
}

impl DeepView for OrsInputItem {
    type V = InputItemModel;

    open spec fn deep_view(&self) -> InputItemModel {
        self.view()
    }
}

/// An inbound request: model name, items of the turn, and the optional id of
/// the conversation whose history should be prepended.
#[derive(Clone, PartialEq, Debug)]
pub struct OrsRequest {
    pub model: String,
    pub input: Vec<OrsInputItem>,
    pub store: bool,
    pub previous_response_id: Option<String>,
    pub stream: bool,
}

// ---------------------------------------------------------------------------
// Outbound legacy chat-completion request data model.
// ---------------------------------------------------------------------------

/// One typed content part of a legacy message, used when a message mixes text
/// and images.
#[derive(Clone, PartialEq, Debug)]
pub enum LegacyContentPart {
    Text { text: String },
    ImageUrl { image_url: String },
}

/// Spec model of a legacy content part.
#[verifier::ext_equal]
pub enum LegacyPartModel {
    Text { text: Seq<char> },
    ImageUrl { image_url: Seq<char> },
}

impl View for LegacyContentPart {
    type V = LegacyPartModel;

    open spec fn view(&self) -> LegacyPartModel {
        match self {
            LegacyContentPart::Text { text } => LegacyPartModel::Text { text: text@ },
            LegacyContentPart::ImageUrl { image_url } => LegacyPartModel::ImageUrl {
                image_url: image_url@,
            },
        }
    }
}

impl DeepView for LegacyContentPart {
    type V = LegacyPartModel;

    open spec fn deep_view(&self) -> LegacyPartModel {
        self.view()
    }
}

/// Content of a legacy message: a plain string, or an array of typed parts.
#[derive(Clone, PartialEq, Debug)]
pub enum LegacyContent {
    Text { text: String },
    Parts { parts: Vec<LegacyContentPart> },
}

/// Spec model of legacy message content.
#[verifier::ext_equal]
pub enum LegacyContentModel {
    Text { text: Seq<char> },
    Parts { parts: Seq<LegacyPartModel> },
}

impl View for LegacyContent {
    type V = LegacyContentModel;

    open spec fn view(&self) -> LegacyContentModel {
        match self {
            LegacyContent::Text { text } => LegacyContentModel::Text { text: text@ },
            LegacyContent::Parts { parts } => LegacyContentModel::Parts {
                parts: parts.deep_view(),
            },
        }
    }
}

impl DeepView for LegacyContent {
    type V = LegacyContentModel;

    open spec fn deep_view(&self) -> LegacyContentModel {
        self.view()
    }
}

/// One tool-call entry of an outbound legacy assistant message.  The
/// arguments are carried as their JSON text.
#[derive(Clone, PartialEq, Debug)]
pub struct LegacyToolCall {
    pub id: String,
    pub name: String,
    pub arguments: String,
}

/// Spec model of a legacy tool call.
#[verifier::ext_equal]
pub struct LegacyToolCallModel {
    pub id: Seq<char>,
    pub name: Seq<char>,
    pub arguments: Seq<char>,
}

impl View for LegacyToolCall {
    type V = LegacyToolCallModel;

    open spec fn view(&self) -> LegacyToolCallModel {
        LegacyToolCallModel { id: self.id@, name: self.name@, arguments: self.arguments@ }
    }
}

impl DeepView for LegacyToolCall {
    type V = LegacyToolCallModel;

    open spec fn deep_view(&self) -> LegacyToolCallModel {
        self.view()
    }
}

/// One outbound legacy chat message.
#[derive(Clone, PartialEq, Debug)]
pub struct LegacyMessage {
    pub role: String,
    pub content: Option<LegacyContent>,
    pub tool_calls: Option<Vec<LegacyToolCall>>,
    pub tool_call_id: Option<String>,
}

/// Spec model of an outbound legacy chat message.
#[verifier::ext_equal]
pub struct LegacyMessageModel {
    pub role: Seq<char>,
    pub content: Option<LegacyContentModel>,
    pub tool_calls: Option<Seq<LegacyToolCallModel>>,
    pub tool_call_id: Option<Seq<char>>,
}

impl View for LegacyMessage {
    type V = LegacyMessageModel;

    open spec fn view(&self) -> LegacyMessageModel {
        LegacyMessageModel {
            role: self.role@,
            content: self.content.deep_view(),
            tool_calls: self.tool_calls.deep_view(),
            tool_call_id: self.tool_call_id.deep_view(),
        }
    }
}

impl DeepView for LegacyMessage {
    type V = LegacyMessageModel;

    open spec fn deep_view(&self) -> LegacyMessageModel {
        self.view()
    }
}

/// The outbound legacy request: model, ordered messages, and the streaming
/// flag, which this proxy always sets.
#[derive(Clone, PartialEq, Debug)]
pub struct LegacyChatRequest {
    pub model: String,
    pub messages: Vec<LegacyMessage>,
    pub stream: bool,
}

// ---------------------------------------------------------------------------
// Inbound legacy streaming chunk data model.
// ---------------------------------------------------------------------------

/// One tool-call delta of a legacy chunk: an `id` opens a new function call,
/// `name` names it, `arguments` extends its argument text.
#[derive(Clone, PartialEq, Debug)]
pub struct ToolCallDelta {
    pub id: Option<String>,
    pub name: Option<String>,
    pub arguments: Option<String>,
}

/// Spec model of a tool-call delta.
#[verifier::ext_equal]
pub struct ToolCallDeltaModel {
    pub id: Option<Seq<char>>,
    pub name: Option<Seq<char>>,
    pub arguments: Option<Seq<char>>,
}

impl View for ToolCallDelta {
    type V = ToolCallDeltaModel;

    open spec fn view(&self) -> ToolCallDeltaModel {
        ToolCallDeltaModel {
            id: self.id.deep_view(),
            name: self.name.deep_view(),
            arguments: self.arguments.deep_view(),
        }
    }
}

impl DeepView for ToolCallDelta {
    type V = ToolCallDeltaModel;

    open spec fn deep_view(&self) -> ToolCallDeltaModel {
        self.view()
    }
}

/// The delta of a legacy choice: optional content text and optional tool-call
/// deltas.
#[derive(Clone, PartialEq, Debug)]
pub struct LegacyDelta {
    pub content: Option<String>,
    pub tool_calls: Option<Vec<ToolCallDelta>>,
}

/// Spec model of a legacy delta.
#[verifier::ext_equal]
pub struct LegacyDeltaModel {
    pub content: Option<Seq<char>>,
    pub tool_calls: Option<Seq<ToolCallDeltaModel>>,
}

impl View for LegacyDelta {
    type V = LegacyDeltaModel;

    open spec fn view(&self) -> LegacyDeltaModel {
        LegacyDeltaModel {
            content: self.content.deep_view(),
            tool_calls: self.tool_calls.deep_view(),
        }
    }
}

impl DeepView for LegacyDelta {
    type V = LegacyDeltaModel;

    open spec fn deep_view(&self) -> LegacyDeltaModel {
        self.view()
    }
}

/// One choice of a legacy chunk.
#[derive(Clone, PartialEq, Debug)]
pub struct LegacyChoice {
    pub delta: LegacyDelta,
    pub finish_reason: Option<String>,
}

/// Spec model of a legacy choice.
#[verifier::ext_equal]
pub struct LegacyChoiceModel {
    pub delta: LegacyDeltaModel,
    pub finish_reason: Option<Seq<char>>,
}

impl View for LegacyChoice {
    type V = LegacyChoiceModel;

    open spec fn view(&self) -> LegacyChoiceModel {
        LegacyChoiceModel { delta: self.delta@, finish_reason: self.finish_reason.deep_view() }
    }
}

impl DeepView for LegacyChoice {
    type V = LegacyChoiceModel;

    open spec fn deep_view(&self) -> LegacyChoiceModel {
        self.view()
    }
}

/// One parsed legacy streaming chunk.
#[derive(Clone, PartialEq, Debug)]
pub struct LegacyChunk {
    pub choices: Vec<LegacyChoice>,
}

/// Spec model of a legacy chunk.
#[verifier::ext_equal]
pub struct LegacyChunkModel {
    pub choices: Seq<LegacyChoiceModel>,
}

impl View for LegacyChunk {
    type V = LegacyChunkModel;

    open spec fn view(&self) -> LegacyChunkModel {
        LegacyChunkModel { choices: self.choices.deep_view() }
    }
}

impl DeepView for LegacyChunk {
    type V = LegacyChunkModel;

    open spec fn deep_view(&self) -> LegacyChunkModel {
        self.view()
    }
}

// ---------------------------------------------------------------------------
// Outbound event data model.
// ---------------------------------------------------------------------------

/// Kind of an output item.
#[derive(Clone, Copy, PartialEq, Eq, Structural, Debug)]
pub enum OrsItemKind {
    Message,
    FunctionCall,
}

/// Status of an output item.
#[derive(Clone, Copy, PartialEq, Eq, Structural, Debug)]
pub enum OrsStatus {
    InProgress,
    Completed,
    Incomplete,
}

/// The item object carried by item lifecycle events.  For message items the
/// optional fields are absent; for function-call items they carry the call
/// id, the function name, and the argument text streamed so far.
#[derive(Clone, PartialEq, Debug)]
pub struct OrsOutputItem {
    pub id: String,
    pub kind: OrsItemKind,
    pub status: OrsStatus,
    pub call_id: Option<String>,
    pub name: Option<String>,
    pub arguments: Option<String>,
}

/// Spec model of an output item object.
#[verifier::ext_equal]
pub struct OutputItemModel {
    pub id: Seq<char>,
    pub kind: OrsItemKind,
    pub status: OrsStatus,
    pub call_id: Option<Seq<char>>,
    pub name: Option<Seq<char>>,
    pub arguments: Option<Seq<char>>,
}

impl View for OrsOutputItem {
    type V = OutputItemModel;

    open spec fn view(&self) -> OutputItemModel {
        OutputItemModel {
            id: self.id@,
            kind: self.kind,
            status: self.status,
            call_id: self.call_id.deep_view(),
            name: self.name.deep_view(),
            arguments: self.arguments.deep_view(),
        }
    }
}

impl DeepView for OrsOutputItem {
    type V = OutputItemModel;

    open spec fn deep_view(&self) -> OutputItemModel {
        self.view()
    }
}

/// The content-part object carried by content-part lifecycle events; its
/// wire type is always `output_text`.
#[derive(Clone, PartialEq, Debug)]
pub struct OrsPart {
    pub text: String,
}

/// Spec model of a content-part object.
#[verifier::ext_equal]
pub struct PartModel {
    pub text: Seq<char>,
}

impl View for OrsPart {
    type V = PartModel;

    open spec fn view(&self) -> PartModel {
        PartModel { text: self.text@ }
    }
}

impl DeepView for OrsPart {
    type V = PartModel;

    open spec fn deep_view(&self) -> PartModel {
        self.view()
    }
}

/// One outbound lifecycle event.  Every event carries the per-request
/// sequence number; events referencing an item carry its id; events
/// referencing a content part carry the output and content indices.
#[derive(Clone, PartialEq, Debug)]
pub enum OrsEvent {
    Created { sequence_number: usize, id: String },
    ItemAdded { sequence_number: usize, item: OrsOutputItem },
    ContentPartAdded {
        sequence_number: usize,
        item_id: String,
        output_index: u32,
        content_index: u32,
        part: OrsPart,
    },
    TextDelta {
        sequence_number: usize,
        item_id: String,
        output_index: u32,
        content_index: u32,
        delta: String,
    },
    FunctionCallArgumentsDelta {
        sequence_number: usize,
        item_id: String,
        output_index: u32,
        delta: String,
    },
    ContentPartDone {
        sequence_number: usize,
        item_id: String,
        output_index: u32,
        content_index: u32,
        part: OrsPart,
    },
    ItemDone { sequence_number: usize, output_index: u32, item: OrsOutputItem },
}

/// Spec model of an outbound lifecycle event.
#[verifier::ext_equal]
pub enum EventModel {
    Created { sequence_number: nat, id: Seq<char> },
    ItemAdded { sequence_number: nat, item: OutputItemModel },
    ContentPartAdded {
        sequence_number: nat,
        item_id: Seq<char>,
        output_index: nat,
        content_index: nat,
        part: PartModel,
    },
    TextDelta {
        sequence_number: nat,
        item_id: Seq<char>,
        output_index: nat,
        content_index: nat,
        delta: Seq<char>,
    },
    FunctionCallArgumentsDelta {
        sequence_number: nat,
        item_id: Seq<char>,
        output_index: nat,
        delta: Seq<char>,
    },
    ContentPartDone {
        sequence_number: nat,
        item_id: Seq<char>,
        output_index: nat,
        content_index: nat,
        part: PartModel,
    },
    ItemDone { sequence_number: nat, output_index: nat, item: OutputItemModel },
}

impl View for OrsEvent {
    type V = EventModel;

    open spec fn view(&self) -> EventModel {
        match self {
            OrsEvent::Created { sequence_number, id } => EventModel::Created {
                sequence_number: *sequence_number as nat,
                id: id@,
            },
            OrsEvent::ItemAdded { sequence_number, item } => EventModel::ItemAdded {
                sequence_number: *sequence_number as nat,
                item: item@,
            },
            OrsEvent::ContentPartAdded {
                sequence_number,
                item_id,
                output_index,
                content_index,
                part,
            } => EventModel::ContentPartAdded {
                sequence_number: *sequence_number as nat,
                item_id: item_id@,
                output_index: *output_index as nat,
                content_index: *content_index as nat,
                part: part@,
            },
            OrsEvent::TextDelta {
                sequence_number,
                item_id,
                output_index,
                content_index,
                delta,
            } => EventModel::TextDelta {
                sequence_number: *sequence_number as nat,
                item_id: item_id@,
                output_index: *output_index as nat,
                content_index: *content_index as nat,
                delta: delta@,
            },
            OrsEvent::FunctionCallArgumentsDelta {
                sequence_number,
                item_id,
                output_index,
                delta,
            } => EventModel::FunctionCallArgumentsDelta {
                sequence_number: *sequence_number as nat,
                item_id: item_id@,
                output_index: *output_index as nat,
                delta: delta@,
            },
            OrsEvent::ContentPartDone {
                sequence_number,
                item_id,
                output_index,
                content_index,
                part,
            } => EventModel::ContentPartDone {
                sequence_number: *sequence_number as nat,
                item_id: item_id@,
                output_index: *output_index as nat,
                content_index: *content_index as nat,
                part: part@,
            },
            OrsEvent::ItemDone { sequence_number, output_index, item } => EventModel::ItemDone {
                sequence_number: *sequence_number as nat,
                output_index: *output_index as nat,
                item: item@,
            },
        }
    }
}

impl DeepView for OrsEvent {
    type V = EventModel;

    open spec fn deep_view(&self) -> EventModel {
        self.view()
    }
}

/// A copy of an optional string with the same view.
fn clone_opt_string(o: &Option<String>) -> (r: Option<String>)
    ensures
        r.deep_view() == o.deep_view(),
{
    match o {
        Some(s) => Some(s.clone()),
        None => None,
    }
}

impl OrsPart {
    /// A copy with the same view.
    pub fn duplicate(&self) -> (r: OrsPart)
        ensures
            r@ == self@,
    {
        OrsPart { text: self.text.clone() }
    }
}

impl OrsOutputItem {
    /// A copy with the same view.
    pub fn duplicate(&self) -> (r: OrsOutputItem)
        ensures
            r@ == self@,
    {
        let r = OrsOutputItem {
            id: self.id.clone(),
            kind: self.kind,
            status: self.status,
            call_id: clone_opt_string(&self.call_id),
            name: clone_opt_string(&self.name),
            arguments: clone_opt_string(&self.arguments),
        };
        proof {
            assert(r@ =~= self@);
        }
        r
    }
}

impl OrsEvent {
    /// A copy with the same view.
    pub fn duplicate(&self) -> (r: OrsEvent)
        ensures
            r@ == self@,
    {
        let r = match self {
            OrsEvent::Created { sequence_number, id } => OrsEvent::Created {
                sequence_number: *sequence_number,
                id: id.clone(),
            },
            OrsEvent::ItemAdded { sequence_number, item } => OrsEvent::ItemAdded {
                sequence_number: *sequence_number,
                item: item.duplicate(),
            },
            OrsEvent::ContentPartAdded {
                sequence_number,
                item_id,
                output_index,
                content_index,
                part,
            } => OrsEvent::ContentPartAdded {
                sequence_number: *sequence_number,
                item_id: item_id.clone(),
                output_index: *output_index,
                content_index: *content_index,
                part: part.duplicate(),
            },
            OrsEvent::TextDelta { sequence_number, item_id, output_index, content_index, delta } => {
                OrsEvent::TextDelta {
                    sequence_number: *sequence_number,
                    item_id: item_id.clone(),
                    output_index: *output_index,
                    content_index: *content_index,
                    delta: delta.clone(),
                }
            },
            OrsEvent::FunctionCallArgumentsDelta { sequence_number, item_id, output_index, delta } => {
                OrsEvent::FunctionCallArgumentsDelta {
                    sequence_number: *sequence_number,
                    item_id: item_id.clone(),
                    output_index: *output_index,
                    delta: delta.clone(),
                }
            },
            OrsEvent::ContentPartDone {
                sequence_number,
                item_id,
                output_index,
                content_index,
                part,
            } => OrsEvent::ContentPartDone {
                sequence_number: *sequence_number,
                item_id: item_id.clone(),
                output_index: *output_index,
                content_index: *content_index,
                part: part.duplicate(),
            },
            OrsEvent::ItemDone { sequence_number, output_index, item } => OrsEvent::ItemDone {
                sequence_number: *sequence_number,
                output_index: *output_index,
                item: item.duplicate(),
            },
        };
        proof {
            assert(r@ =~= self@);
        }
        r
    }
}

/// The wire name of an event, written on the `event:` line of its frame.
pub fn event_name(event: &OrsEvent) -> (r: &'static str)
    ensures
        r@ == spec_event_name(event@),
{
    match event {
        OrsEvent::Created { .. } => "response.created",
        OrsEvent::ItemAdded { .. } => "response.output_item.added",
        OrsEvent::ContentPartAdded { .. } => "response.content_part.added",
        OrsEvent::TextDelta { .. } => "response.output_text.delta",
        OrsEvent::FunctionCallArgumentsDelta { .. } => "response.function_call_arguments.delta",
        OrsEvent::ContentPartDone { .. } => "response.content_part.done",
        OrsEvent::ItemDone { .. } => "response.output_item.done",
    }
}

/// The wire name of an event, at the spec level.
pub open spec fn spec_event_name(event: EventModel) -> Seq<char> {
    match event {
        EventModel::Created { .. } => "response.created"@,
        EventModel::ItemAdded { .. } => "response.output_item.added"@,
        EventModel::ContentPartAdded { .. } => "response.content_part.added"@,
        EventModel::TextDelta { .. } => "response.output_text.delta"@,
        EventModel::FunctionCallArgumentsDelta { .. } => "response.function_call_arguments.delta"@,
        EventModel::ContentPartDone { .. } => "response.content_part.done"@,
        EventModel::ItemDone { .. } => "response.output_item.done"@,
    }
}

} // verus!
