use crate::types::{
    EventModel, LegacyChoice, LegacyChoiceModel, LegacyChunk, LegacyChunkModel, OrsEvent,
    OrsItemKind, OrsOutputItem, OrsPart, OrsStatus, OutputItemModel, PartModel, ToolCallDelta,
    ToolCallDeltaModel,
};
use vstd::prelude::*;

verus! {

// ---------------------------------------------------------------------------
// Transcoder: converts a stream of legacy delta chunks into the ordered
// lifecycle event stream, one call per chunk, keeping every emitted event.
//
// The spec model carries the whole emitted history.  The transition relation
// is given by spec functions, parameterized by the fresh id tokens drawn
// during the call; `process` guarantees that its effect equals the transition
// for some choice of tokens, and that the history stays well-formed.
// ---------------------------------------------------------------------------

/// Spec model of the transcoder: its control state and the events emitted so
/// far, in order.
#[verifier::ext_equal]
pub struct TranscoderModel {
    pub response_id: Seq<char>,
    pub current_item_id: Option<Seq<char>>,
    pub current_item_kind: Option<OrsItemKind>,
    pub current_content_index: Option<nat>,
    pub part_open: bool,
    pub streaming: bool,
    pub history: Seq<EventModel>,
}

/// The sequence number an event carries.
pub open spec fn event_seq_num(e: EventModel) -> nat {
    match e {
        EventModel::Created { sequence_number, .. } => sequence_number,
        EventModel::ItemAdded { sequence_number, .. } => sequence_number,
        EventModel::ContentPartAdded { sequence_number, .. } => sequence_number,
        EventModel::TextDelta { sequence_number, .. } => sequence_number,
        EventModel::FunctionCallArgumentsDelta { sequence_number, .. } => sequence_number,
        EventModel::ContentPartDone { sequence_number, .. } => sequence_number,
        EventModel::ItemDone { sequence_number, .. } => sequence_number,
    }
}

/// The item id an event references, for events that refer to an item that
/// must already exist.  An `ItemAdded` introduces its id rather than
/// referencing it.
pub open spec fn event_ref_id(e: EventModel) -> Option<Seq<char>> {
    match e {
        EventModel::Created { .. } => None,
        EventModel::ItemAdded { .. } => None,
        EventModel::ContentPartAdded { item_id, .. } => Some(item_id),
        EventModel::TextDelta { item_id, .. } => Some(item_id),
        EventModel::FunctionCallArgumentsDelta { item_id, .. } => Some(item_id),
        EventModel::ContentPartDone { item_id, .. } => Some(item_id),
        EventModel::ItemDone { item, .. } => Some(item.id),
    }
}

/// The content part an event refers to, for events that require the part to
/// have been opened earlier.
pub open spec fn part_ref(e: EventModel) -> Option<(Seq<char>, nat)> {
    match e {
        EventModel::TextDelta { item_id, content_index, .. } => Some((item_id, content_index)),
        EventModel::ContentPartDone { item_id, content_index, .. } => Some(
            (item_id, content_index),
        ),
        _ => None,
    }
}

/// The content part an event closes.
pub open spec fn part_done_ref(e: EventModel) -> Option<(Seq<char>, nat)> {
    match e {
        EventModel::ContentPartDone { item_id, content_index, .. } => Some(
            (item_id, content_index),
        ),
        _ => None,
    }
}

/// Whether the event introduces the item with this id.
pub open spec fn adds_item(e: EventModel, id: Seq<char>) -> bool {
    e matches EventModel::ItemAdded { item, .. } && item.id == id
}

/// Whether the event opens the content part `(id, ci)`.
pub open spec fn adds_part(e: EventModel, id: Seq<char>, ci: nat) -> bool {
    e matches EventModel::ContentPartAdded { item_id, content_index, .. } && item_id == id
        && content_index == ci
}

/// Whether some event before index `i` introduced the item with this id.
pub open spec fn item_added_before(h: Seq<EventModel>, i: int, id: Seq<char>) -> bool {
    exists|j: int| 0 <= j < i && adds_item(#[trigger] h[j], id)
}

/// Whether some event before index `i` opened the content part `(id, ci)`.
pub open spec fn part_added_before(h: Seq<EventModel>, i: int, id: Seq<char>, ci: nat) -> bool {
    exists|j: int| 0 <= j < i && adds_part(#[trigger] h[j], id, ci)
}

/// Whether the event belongs to the lifecycle of the content part
/// `(id, ci)`.
pub open spec fn part_touch_of(e: EventModel, id: Seq<char>, ci: nat) -> bool {
    adds_part(e, id, ci) || part_ref(e) == Some((id, ci))
}

/// Strictly between `j` and `upto`, only text deltas touch the content part
/// `(id, ci)`.
pub open spec fn only_deltas_between(
    h: Seq<EventModel>,
    j: int,
    upto: int,
    id: Seq<char>,
    ci: nat,
) -> bool {
    forall|k: int| j < k < upto && part_touch_of(#[trigger] h[k], id, ci) ==> h[k] is TextDelta
}

/// The content part `(id, ci)` was opened before `upto` and, since its
/// opening, only its text deltas have touched it.
pub open spec fn part_open_clean(h: Seq<EventModel>, upto: int, id: Seq<char>, ci: nat) -> bool {
    exists|j: int|
        0 <= j < upto && adds_part(#[trigger] h[j], id, ci) && only_deltas_between(
            h,
            j,
            upto,
            id,
            ci,
        )
}

/// The event at index `i` references only an item introduced earlier.
pub open spec fn references_resolved(h: Seq<EventModel>, i: int) -> bool {
    event_ref_id(h[i]) matches Some(id) ==> item_added_before(h, i, id)
}

/// The event at index `i` touches only a content part opened earlier.
pub open spec fn parts_resolved(h: Seq<EventModel>, i: int) -> bool {
    part_ref(h[i]) matches Some(p) ==> part_added_before(h, i, p.0, p.1)
}

/// If the event at index `i` closes a content part, that part was opened
/// earlier and nothing but its text deltas lies between the opening and the
/// close.
pub open spec fn parts_clean(h: Seq<EventModel>, i: int) -> bool {
    part_done_ref(h[i]) matches Some(p) ==> part_open_clean(h, i, p.0, p.1)
}

/// Well-formedness of an emitted event history: sequence numbers are dense
/// from zero, every referenced item was introduced by an earlier item-added
/// event, every text delta or part-done follows the part-added event of its
/// content part, and between a part's opening and its close only its text
/// deltas touch it.
pub open spec fn trace_wf(h: Seq<EventModel>) -> bool {
    &&& forall|i: int| 0 <= i < h.len() ==> event_seq_num(#[trigger] h[i]) == i as nat
    &&& forall|i: int| 0 <= i < h.len() ==> #[trigger] references_resolved(h, i)
    &&& forall|i: int| 0 <= i < h.len() ==> #[trigger] parts_resolved(h, i)
    &&& forall|i: int| 0 <= i < h.len() ==> #[trigger] parts_clean(h, i)
}

impl TranscoderModel {
    /// Validity of the transcoder state: the history is well-formed and the
    /// control fields agree with it.
    pub open spec fn wf(self) -> bool {
        &&& trace_wf(self.history)
        &&& (self.current_item_id matches Some(id) ==> item_added_before(
            self.history,
            self.history.len() as int,
            id,
        ))
        &&& (self.current_item_id is Some <==> self.current_item_kind is Some)
        &&& (self.part_open ==> self.current_item_id is Some && self.current_content_index
            == Some(0nat))
        &&& (!self.part_open ==> self.current_content_index is None)
        &&& (self.part_open ==> (self.current_item_id matches Some(id) && part_added_before(
            self.history,
            self.history.len() as int,
            id,
            0,
        ) && part_open_clean(self.history, self.history.len() as int, id, 0)))
        &&& (!self.streaming ==> self.history.len() == 0 && self.current_item_id is None
            && !self.part_open)
    }
}

/// The model with one event appended to its history.
pub open spec fn push_event(t: TranscoderModel, e: EventModel) -> TranscoderModel {
    TranscoderModel { history: t.history.push(e), ..t }
}

/// The fresh transcoder state for a given response id.
pub open spec fn initial_model(response_id: Seq<char>) -> TranscoderModel {
    TranscoderModel {
        response_id: response_id,
        current_item_id: None,
        current_item_kind: None,
        current_content_index: None,
        part_open: false,
        streaming: false,
        history: Seq::<EventModel>::empty(),
    }
}

/// First-chunk initialization: emit `created`, and unless the chunk starts a
/// pure tool-call stream, open a message item whose id is `msg_` followed by
/// the fresh token.
pub open spec fn spec_init(t: TranscoderModel, c: LegacyChoiceModel, tok: Seq<char>) -> (
    TranscoderModel,
    Seq<EventModel>,
) {
    let created = EventModel::Created { sequence_number: t.history.len(), id: t.response_id };
    let t0 = TranscoderModel { streaming: true, ..push_event(t, created) };
    let has_tool_calls = match c.delta.tool_calls {
        Some(tcs) => tcs.len() > 0,
        None => false,
    };
    let has_content = match c.delta.content {
        Some(s) => s.len() > 0,
        None => false,
    };
    if !has_tool_calls || has_content {
        let item_id = "msg_"@ + tok;
        let item = OutputItemModel {
            id: item_id,
            kind: OrsItemKind::Message,
            status: OrsStatus::InProgress,
            call_id: None,
            name: None,
            arguments: None,
        };
        let added = EventModel::ItemAdded { sequence_number: t0.history.len(), item };
        let t1 = TranscoderModel {
            current_item_id: Some(item_id),
            current_item_kind: Some(OrsItemKind::Message),
            ..push_event(t0, added)
        };
        (t1, seq![created, added])
    } else {
        (t0, seq![created])
    }
}

/// Content delta handling: on non-empty content with a current item, open the
/// single content part if it is not open, then emit the text delta.
pub open spec fn spec_content(t: TranscoderModel, content: Option<Seq<char>>) -> (
    TranscoderModel,
    Seq<EventModel>,
) {
    match (content, t.current_item_id) {
        (Some(c), Some(id)) => {
            if c.len() > 0 {
                let (t1, evs1) = if !t.part_open {
                    let part_added = EventModel::ContentPartAdded {
                        sequence_number: t.history.len(),
                        item_id: id,
                        output_index: 0,
                        content_index: 0,
                        part: PartModel { text: Seq::<char>::empty() },
                    };
                    (
                        TranscoderModel {
                            part_open: true,
                            current_content_index: Some(0nat),
                            ..push_event(t, part_added)
                        },
                        seq![part_added],
                    )
                } else {
                    (t, Seq::<EventModel>::empty())
                };
                let text_delta = EventModel::TextDelta {
                    sequence_number: t1.history.len(),
                    item_id: id,
                    output_index: 0,
                    content_index: 0,
                    delta: c,
                };
                (push_event(t1, text_delta), evs1.push(text_delta))
            } else {
                (t, Seq::<EventModel>::empty())
            }
        },
        _ => (t, Seq::<EventModel>::empty()),
    }
}

/// Closing the open content part, if any: emit `content_part.done` with a
/// placeholder empty-text part and clear the open flag.
pub open spec fn spec_close_part(t: TranscoderModel) -> (TranscoderModel, Seq<EventModel>) {
    if t.part_open {
        match t.current_item_id {
            Some(id) => {
                let done = EventModel::ContentPartDone {
                    sequence_number: t.history.len(),
                    item_id: id,
                    output_index: 0,
                    content_index: 0,
                    part: PartModel { text: Seq::<char>::empty() },
                };
                (
                    TranscoderModel {
                        part_open: false,
                        current_content_index: None,
                        ..push_event(t, done)
                    },
                    seq![done],
                )
            },
            None => (
                TranscoderModel { part_open: false, current_content_index: None, ..t },
                Seq::<EventModel>::empty(),
            ),
        }
    } else {
        (t, Seq::<EventModel>::empty())
    }
}

/// One tool-call delta: an entry with an id closes any open content part and
/// opens a function-call item whose id is `fc_` followed by the fresh token
/// and whose name defaults to `unknown`; an entry with non-empty arguments
/// extends the current item's argument text.
pub open spec fn spec_tool_call(t: TranscoderModel, tc: ToolCallDeltaModel, tok: Seq<char>) -> (
    TranscoderModel,
    Seq<EventModel>,
) {
    let (t1, evs1) = match tc.id {
        Some(call_id) => {
            let (ta, evsa) = spec_close_part(t);
            let item_id = "fc_"@ + tok;
            let nm = match tc.name {
                Some(n) => n,
                None => "unknown"@,
            };
            let item = OutputItemModel {
                id: item_id,
                kind: OrsItemKind::FunctionCall,
                status: OrsStatus::InProgress,
                call_id: Some(call_id),
                name: Some(nm),
                arguments: Some(Seq::<char>::empty()),
            };
            let added = EventModel::ItemAdded { sequence_number: ta.history.len(), item };
            (
                TranscoderModel {
                    current_item_id: Some(item_id),
                    current_item_kind: Some(OrsItemKind::FunctionCall),
                    ..push_event(ta, added)
                },
                evsa.push(added),
            )
        },
        None => (t, Seq::<EventModel>::empty()),
    };
    match (tc.arguments, t1.current_item_id) {
        (Some(a), Some(id)) => {
            if a.len() > 0 && t1.current_item_kind == Some(OrsItemKind::FunctionCall) {
                let args_delta = EventModel::FunctionCallArgumentsDelta {
                    sequence_number: t1.history.len(),
                    item_id: id,
                    output_index: 0,
                    delta: a,
                };
                (push_event(t1, args_delta), evs1.push(args_delta))
            } else {
                (t1, evs1)
            }
        },
        _ => (t1, evs1),
    }
}

/// All tool-call deltas of a chunk, in order, each consuming one token.
pub open spec fn spec_tool_calls(
    t: TranscoderModel,
    tcs: Seq<ToolCallDeltaModel>,
    toks: Seq<Seq<char>>,
) -> (TranscoderModel, Seq<EventModel>)
    decreases tcs.len(),
{
    if tcs.len() == 0 {
        (t, Seq::<EventModel>::empty())
    } else {
        let (t1, evs1) = spec_tool_calls(t, tcs.drop_last(), toks.drop_last());
        let (t2, evs2) = spec_tool_call(t1, tcs.last(), toks.last());
        (t2, evs1 + evs2)
    }
}

/// The status a finish reason maps to.
pub open spec fn spec_finish_status(reason: Seq<char>) -> OrsStatus {
    if reason == "length"@ || reason == "content_filter"@ {
        OrsStatus::Incomplete
    } else {
        OrsStatus::Completed
    }
}

/// Finish handling: on a finish reason, close any open content part, then
/// close the current item with the mapped status and clear it.
pub open spec fn spec_finish(t: TranscoderModel, finish_reason: Option<Seq<char>>) -> (
    TranscoderModel,
    Seq<EventModel>,
) {
    match finish_reason {
        Some(reason) => {
            let (t1, evs1) = spec_close_part(t);
            match t1.current_item_id {
                Some(id) => {
                    let kind = match t1.current_item_kind {
                        Some(k) => k,
                        None => OrsItemKind::Message,
                    };
                    let item = OutputItemModel {
                        id: id,
                        kind: kind,
                        status: spec_finish_status(reason),
                        call_id: None,
                        name: None,
                        arguments: None,
                    };
                    let done = EventModel::ItemDone {
                        sequence_number: t1.history.len(),
                        output_index: 0,
                        item,
                    };
                    (
                        TranscoderModel {
                            current_item_id: None,
                            current_item_kind: None,
                            ..push_event(t1, done)
                        },
                        evs1.push(done),
                    )
                },
                None => (t1, evs1),
            }
        },
        None => (t, Seq::<EventModel>::empty()),
    }
}

/// The whole transition for the first choice of one chunk: initialization on
/// the first chunk, then content deltas, tool-call deltas, and finish.
/// `tok0` is the token drawn at initialization, `toks` the tokens drawn for
/// the tool-call entries.
pub open spec fn spec_process_choice(
    t: TranscoderModel,
    c: LegacyChoiceModel,
    tok0: Seq<char>,
    toks: Seq<Seq<char>>,
) -> (TranscoderModel, Seq<EventModel>) {
    let (t0, evs0) = if !t.streaming {
        spec_init(t, c, tok0)
    } else {
        (t, Seq::<EventModel>::empty())
    };
    let (t1, evs1) = spec_content(t0, c.delta.content);
    let (t2, evs2) = match c.delta.tool_calls {
        Some(tcs) => spec_tool_calls(t1, tcs, toks),
        None => (t1, Seq::<EventModel>::empty()),
    };
    let (t3, evs3) = spec_finish(t2, c.finish_reason);
    (t3, evs0 + evs1 + evs2 + evs3)
}

/// The whole transition for one chunk: the first choice is processed, a
/// chunk without choices changes nothing.
pub open spec fn spec_process(
    t: TranscoderModel,
    chunk: LegacyChunkModel,
    tok0: Seq<char>,
    toks: Seq<Seq<char>>,
) -> (TranscoderModel, Seq<EventModel>) {
    if chunk.choices.len() == 0 {
        (t, Seq::<EventModel>::empty())
    } else {
        spec_process_choice(t, chunk.choices.first(), tok0, toks)
    }
}

/// The transition relation of `process`: for some choice of fresh tokens,
/// processing the chunk in state `pre` emits exactly `events` and leaves the
/// transcoder in state `post`.
pub open spec fn process_step(
    pre: TranscoderModel,
    chunk: LegacyChunkModel,
    events: Seq<EventModel>,
    post: TranscoderModel,
) -> bool {
    exists|tok0: Seq<char>, toks: Seq<Seq<char>>|
        #[trigger] spec_process(pre, chunk, tok0, toks) == (post, events)
}

/// Relies on uuid::Uuid::new_v4 and its simple formatter: a fresh random
/// token of 32 lowercase hexadecimal characters.
#[verifier::external_body]
fn fresh_token() -> (r: String)
    ensures
        r@.len() == 32,
{
    format!("{}", uuid::Uuid::new_v4().simple())
}

/// Streaming protocol transcoder; one instance serves one upstream stream.
pub struct Transcoder {
    response_id: String,
    current_item_id: Option<String>,
    current_item_kind: Option<OrsItemKind>,
    current_content_index: Option<u32>,
    has_emitted_content_start: bool,
    state: TranscoderState,
    collected: Vec<OrsEvent>,
}

enum TranscoderState {
    Init,
    Streaming,
}

impl View for Transcoder {
    type V = TranscoderModel;

    closed spec fn view(&self) -> TranscoderModel {
        TranscoderModel {
            response_id: self.response_id@,
            current_item_id: self.current_item_id.deep_view(),
            current_item_kind: self.current_item_kind,
            current_content_index: match self.current_content_index {
                Some(i) => Some(i as nat),
                None => None,
            },
            part_open: self.has_emitted_content_start,
            streaming: self.state is Streaming,
            history: self.collected.deep_view(),
        }
    }
}

impl Transcoder {
    /// A fresh transcoder with a response id of the form `resp_` followed by
    /// a fresh 32-character token, an empty history, and lifecycle state
    /// before the first chunk.
    pub fn new() -> (r: Self)
        ensures
            r@.wf(),
            exists|tok: Seq<char>|
                tok.len() == 32 && r@ == #[trigger] initial_model("resp_"@ + tok),
    {
        let token = fresh_token();
        let response_id = String::from_str("resp_").concat(token.as_str());
        let r = Transcoder {
            response_id,
            current_item_id: None,
            current_item_kind: None,
            current_content_index: None,
            has_emitted_content_start: false,
            state: TranscoderState::Init,
            collected: Vec::new(),
        };
        proof {
            assert(r@ =~= initial_model("resp_"@ + token@));
        }
        r
    }

    /// The sequence number that the next emitted event will carry: the count
    /// of events emitted so far.
    pub fn next_seq(&self) -> (r: Option<usize>)
        ensures
            r matches Some(n) && n as nat == self@.history.len(),
    {
        Some(self.collected.len())
    }

    /// Every event emitted so far, in emission order.
    pub fn collected(&self) -> (r: &Vec<OrsEvent>)
        ensures
            r.deep_view() == self@.history,
    {
        &self.collected
    }

    /// The response id shared by all events of this stream.
    pub fn response_id(&self) -> (r: &String)
        ensures
            r@ == self@.response_id,
    {
        &self.response_id
    }

    /// Appends the event to the kept history and to `out`.
    fn emit(&mut self, out: &mut Vec<OrsEvent>, e: OrsEvent)
        ensures
            final(self)@ == push_event(old(self)@, e@),
            final(out).deep_view() == old(out).deep_view().push(e@),
    {
        let e2 = e.duplicate();
        self.collected.push(e);
        out.push(e2);
        proof {
            assert(self.collected.deep_view() =~= old(self).collected.deep_view().push(e@));
            assert(out.deep_view() =~= old(out).deep_view().push(e@));
            assert(self@ =~= push_event(old(self)@, e@));
        }
    }

    /// First-chunk initialization, mirroring `spec_init`.
    fn run_init(&mut self, choice: &LegacyChoice, out: &mut Vec<OrsEvent>)
        ensures
            exists|tok: Seq<char>|
                {
                    let r = #[trigger] spec_init(old(self)@, choice@, tok);
                    final(self)@ == r.0 && final(out).deep_view() == old(out).deep_view() + r.1
                },
    {
        let ghost pre = self@;
        let ghost out0 = out.deep_view();
        let created = OrsEvent::Created {
            sequence_number: self.collected.len(),
            id: self.response_id.clone(),
        };
        self.emit(out, created);
        self.state = TranscoderState::Streaming;
        let has_tool_calls = match &choice.delta.tool_calls {
            Some(tcs) => tcs.len() > 0,
            None => false,
        };
        let has_content = match &choice.delta.content {
            Some(c) => !c.as_str().is_empty(),
            None => false,
        };
        if !has_tool_calls || has_content {
            let token = fresh_token();
            let item_id = String::from_str("msg_").concat(token.as_str());
            let item = OrsOutputItem {
                id: item_id.clone(),
                kind: OrsItemKind::Message,
                status: OrsStatus::InProgress,
                call_id: None,
                name: None,
                arguments: None,
            };
            let added = OrsEvent::ItemAdded { sequence_number: self.collected.len(), item };
            self.emit(out, added);
            self.current_item_id = Some(item_id);
            self.current_item_kind = Some(OrsItemKind::Message);
            proof {
                let r = spec_init(pre, choice@, token@);
                assert(self@ =~= r.0);
                assert(out.deep_view() =~= out0 + r.1);
            }
        } else {
            proof {
                let ghost tok: Seq<char> = Seq::<char>::empty();
                let r = spec_init(pre, choice@, tok);
                assert(self@ =~= r.0);
                assert(out.deep_view() =~= out0 + r.1);
            }
        }
    }

    /// Content delta handling, mirroring `spec_content`.
    fn run_content(&mut self, content: &Option<String>, out: &mut Vec<OrsEvent>)
        ensures
            final(self)@ == spec_content(old(self)@, content.deep_view()).0,
            final(out).deep_view() == old(out).deep_view() + spec_content(
                old(self)@,
                content.deep_view(),
            ).1,
    {
        let ghost pre = self@;
        let ghost out0 = out.deep_view();
        let id_opt: Option<String> = match &self.current_item_id {
            Some(s) => Some(s.clone()),
            None => None,
        };
        match (content, id_opt) {
            (Some(c), Some(id)) => {
                if !c.as_str().is_empty() {
                    if !self.has_emitted_content_start {
                        let part_added = OrsEvent::ContentPartAdded {
                            sequence_number: self.collected.len(),
                            item_id: id.clone(),
                            output_index: 0,
                            content_index: 0,
                            part: OrsPart { text: String::new() },
                        };
                        self.emit(out, part_added);
                        self.has_emitted_content_start = true;
                        self.current_content_index = Some(0);
                    }
                    let text_delta = OrsEvent::TextDelta {
                        sequence_number: self.collected.len(),
                        item_id: id,
                        output_index: 0,
                        content_index: 0,
                        delta: c.clone(),
                    };
                    self.emit(out, text_delta);
                }
            },
            _ => {},
        }
        proof {
            let r = spec_content(pre, content.deep_view());
            assert(self@ =~= r.0);
            assert(out.deep_view() =~= out0 + r.1);
        }
    }

    /// Closes the open content part, mirroring `spec_close_part`.
    fn run_close_part(&mut self, out: &mut Vec<OrsEvent>)
        ensures
            final(self)@ == spec_close_part(old(self)@).0,
            final(out).deep_view() == old(out).deep_view() + spec_close_part(old(self)@).1,
    {
        let ghost pre = self@;
        let ghost out0 = out.deep_view();
        if self.has_emitted_content_start {
            let id_opt: Option<String> = match &self.current_item_id {
                Some(s) => Some(s.clone()),
                None => None,
            };
            match id_opt {
                Some(id) => {
                    let done = OrsEvent::ContentPartDone {
                        sequence_number: self.collected.len(),
                        item_id: id,
                        output_index: 0,
                        content_index: 0,
                        part: OrsPart { text: String::new() },
                    };
                    self.emit(out, done);
                },
                None => {},
            }
            self.has_emitted_content_start = false;
            self.current_content_index = None;
        }
        proof {
            let r = spec_close_part(pre);
            assert(self@ =~= r.0);
            assert(out.deep_view() =~= out0 + r.1);
        }
    }

    /// One tool-call delta, mirroring `spec_tool_call`.
    fn run_tool_call(&mut self, tc: &ToolCallDelta, out: &mut Vec<OrsEvent>)
        ensures
            exists|tok: Seq<char>|
                {
                    let r = #[trigger] spec_tool_call(old(self)@, tc@, tok);
                    final(self)@ == r.0 && final(out).deep_view() == old(out).deep_view() + r.1
                },
    {
        let ghost pre = self@;
        let ghost out0 = out.deep_view();
        let ghost mut tok_used: Seq<char> = Seq::<char>::empty();
        match &tc.id {
            Some(call_id) => {
                self.run_close_part(out);
                let token = fresh_token();
                proof {
                    tok_used = token@;
                }
                let item_id = String::from_str("fc_").concat(token.as_str());
                let nm: String = match &tc.name {
                    Some(n) => n.clone(),
                    None => String::from_str("unknown"),
                };
                let item = OrsOutputItem {
                    id: item_id.clone(),
                    kind: OrsItemKind::FunctionCall,
                    status: OrsStatus::InProgress,
                    call_id: Some(call_id.clone()),
                    name: Some(nm),
                    arguments: Some(String::new()),
                };
                let added = OrsEvent::ItemAdded { sequence_number: self.collected.len(), item };
                self.emit(out, added);
                self.current_item_id = Some(item_id);
                self.current_item_kind = Some(OrsItemKind::FunctionCall);
            },
            None => {},
        }
        let is_function_call = match self.current_item_kind {
            Some(OrsItemKind::FunctionCall) => true,
            _ => false,
        };
        match &tc.arguments {
            Some(a) => {
                if !a.as_str().is_empty() && is_function_call {
                    let id_opt: Option<String> = match &self.current_item_id {
                        Some(s) => Some(s.clone()),
                        None => None,
                    };
                    match id_opt {
                        Some(id) => {
                            let args_delta = OrsEvent::FunctionCallArgumentsDelta {
                                sequence_number: self.collected.len(),
                                item_id: id,
                                output_index: 0,
                                delta: a.clone(),
                            };
                            self.emit(out, args_delta);
                        },
                        None => {},
                    }
                }
            },
            None => {},
        }
        proof {
            let r = spec_tool_call(pre, tc@, tok_used);
            assert(self@ =~= r.0);
            assert(out.deep_view() =~= out0 + r.1);
        }
    }

    /// Finish handling, mirroring `spec_finish`.
    fn run_finish(&mut self, finish_reason: &Option<String>, out: &mut Vec<OrsEvent>)
        ensures
            final(self)@ == spec_finish(old(self)@, finish_reason.deep_view()).0,
            final(out).deep_view() == old(out).deep_view() + spec_finish(
                old(self)@,
                finish_reason.deep_view(),
            ).1,
    {
        let ghost pre = self@;
        let ghost out0 = out.deep_view();
        match finish_reason {
            Some(reason) => {
                self.run_close_part(out);
                let id_opt: Option<String> = match &self.current_item_id {
                    Some(s) => Some(s.clone()),
                    None => None,
                };
                match id_opt {
                    Some(id) => {
                        let incomplete = *reason == String::from_str("length") || *reason
                            == String::from_str("content_filter");
                        let status = if incomplete {
                            OrsStatus::Incomplete
                        } else {
                            OrsStatus::Completed
                        };
                        let kind = match self.current_item_kind {
                            Some(k) => k,
                            None => OrsItemKind::Message,
                        };
                        let item = OrsOutputItem {
                            id,
                            kind,
                            status,
                            call_id: None,
                            name: None,
                            arguments: None,
                        };
                        let done = OrsEvent::ItemDone {
                            sequence_number: self.collected.len(),
                            output_index: 0,
                            item,
                        };
                        self.emit(out, done);
                        self.current_item_id = None;
                        self.current_item_kind = None;
                    },
                    None => {},
                }
            },
            None => {},
        }
        proof {
            let r = spec_finish(pre, finish_reason.deep_view());
            assert(self@ =~= r.0);
            assert(out.deep_view() =~= out0 + r.1);
        }
    }

    /// Processes one legacy chunk: emits the lifecycle events of its first
    /// choice, appends them to the kept history, and returns them.  The
    /// effect is exactly the transition relation, and the history stays
    /// well-formed.
    pub fn process(&mut self, chunk: LegacyChunk) -> (events: Vec<OrsEvent>)
        requires
            old(self)@.wf(),
        ensures
            final(self)@.wf(),
            process_step(old(self)@, chunk@, events.deep_view(), final(self)@),
            final(self)@.history == old(self)@.history + events.deep_view(),
            final(self)@.response_id == old(self)@.response_id,
    {
        let ghost pre = self@;
        let mut out: Vec<OrsEvent> = Vec::new();
        proof {
            assert(out.deep_view() =~= Seq::<EventModel>::empty());
        }
        if chunk.choices.len() == 0 {
            proof {
                assert(chunk@.choices.len() == 0);
                assert(spec_process(pre, chunk@, Seq::<char>::empty(), Seq::<Seq<char>>::empty())
                    == (self@, out.deep_view()));
                assert(pre.history + out.deep_view() =~= self@.history);
            }
            return out;
        }
        let choice = &chunk.choices[0];
        proof {
            assert(chunk@.choices[0] == choice@);
            assert(chunk@.choices.first() == choice@);
        }
        // initialization on the first chunk
        let ghost mut tok0: Seq<char> = Seq::<char>::empty();
        if !self.is_streaming() {
            let ghost m_pre = self@;
            let ghost o_pre = out.deep_view();
            self.run_init(choice, &mut out);
            proof {
                tok0 = choose|tok: Seq<char>|
                    {
                        let r = #[trigger] spec_init(m_pre, choice@, tok);
                        self@ == r.0 && out.deep_view() == o_pre + r.1
                    };
            }
        }
        let ghost m0 = self@;
        let ghost evs0 = out.deep_view();
        // content deltas
        self.run_content(&choice.delta.content, &mut out);
        let ghost m1 = self@;
        // tool-call deltas
        let ghost mut toks: Seq<Seq<char>> = Seq::<Seq<char>>::empty();
        match &choice.delta.tool_calls {
            Some(tcs) => {
                proof {
                    assert(tcs.deep_view().take(0) =~= Seq::<ToolCallDeltaModel>::empty());
                }
                let ghost evs_pre_tools = out.deep_view();
                let mut i: usize = 0;
                while i < tcs.len()
                    invariant
                        i <= tcs@.len(),
                        toks.len() == i as nat,
                        spec_tool_calls(m1, tcs.deep_view().take(i as int), toks).0 == self@,
                        out.deep_view() == evs_pre_tools + spec_tool_calls(
                            m1,
                            tcs.deep_view().take(i as int),
                            toks,
                        ).1,
                    decreases tcs@.len() - i,
                {
                    let ghost m_i = self@;
                    let ghost o_i = out.deep_view();
                    let tc = &tcs[i];
                    self.run_tool_call(tc, &mut out);
                    proof {
                        let tok_i = choose|tok: Seq<char>|
                            {
                                let r = #[trigger] spec_tool_call(m_i, tc@, tok);
                                self@ == r.0 && out.deep_view() == o_i + r.1
                            };
                        let tcs_v = tcs.deep_view();
                        assert(tcs_v.take(i as int + 1).drop_last() =~= tcs_v.take(i as int));
                        assert(tcs_v.take(i as int + 1).last() == tcs_v[i as int]);
                        assert(tcs_v[i as int] == tc@);
                        let new_toks = toks.push(tok_i);
                        assert(new_toks.drop_last() =~= toks);
                        assert(new_toks.last() == tok_i);
                        let r_i = spec_tool_call(m_i, tc@, tok_i);
                        assert(out.deep_view() =~= evs_pre_tools + spec_tool_calls(
                            m1,
                            tcs_v.take(i as int + 1),
                            new_toks,
                        ).1);
                        toks = new_toks;
                    }
                    i += 1;
                }
                proof {
                    assert(tcs.deep_view().take(tcs@.len() as int) =~= tcs.deep_view());
                    assert(choice@.delta.tool_calls == Some(tcs.deep_view()));
                }
            },
            None => {},
        }
        let ghost m2 = self@;
        // finish
        self.run_finish(&choice.finish_reason, &mut out);
        proof {
            let r = spec_process_choice(pre, choice@, tok0, toks);
            assert(self@ =~= r.0);
            assert(out.deep_view() =~= r.1);
            assert(spec_process(pre, chunk@, tok0, toks) == (self@, out.deep_view()));
            lemma_spec_process_wf(pre, chunk@, tok0, toks);
            assert(pre.history + out.deep_view() =~= self@.history);
        }
        out
    }

    /// Whether the first chunk has already been seen.
    fn is_streaming(&self) -> (r: bool)
        ensures
            r == self@.streaming,
    {
        match self.state {
            TranscoderState::Init => false,
            TranscoderState::Streaming => true,
        }
    }
}

// ---------------------------------------------------------------------------
// Well-formedness preservation and the stated laws of the event stream.
// ---------------------------------------------------------------------------

/// Appending an event with the next sequence number whose references are
/// already resolved keeps the trace well-formed.
proof fn lemma_trace_wf_push(h: Seq<EventModel>, e: EventModel)
    requires
        trace_wf(h),
        event_seq_num(e) == h.len(),
        event_ref_id(e) matches Some(id) ==> item_added_before(h, h.len() as int, id),
        part_ref(e) matches Some(p) ==> part_added_before(h, h.len() as int, p.0, p.1),
        part_done_ref(e) matches Some(p) ==> part_open_clean(h, h.len() as int, p.0, p.1),
    ensures
        trace_wf(h.push(e)),
{
    let h2 = h.push(e);
    assert forall|i: int| 0 <= i < h2.len() implies event_seq_num(#[trigger] h2[i]) == i as nat by {
        if i < h.len() {
            assert(h2[i] == h[i]);
        } else {
            assert(h2[i] == e);
        }
    }
    assert forall|i: int| 0 <= i < h2.len() implies #[trigger] references_resolved(h2, i) by {
        if i < h.len() {
            assert(references_resolved(h, i));
            assert(h2[i] == h[i]);
            match event_ref_id(h2[i]) {
                Some(id) => {
                    let j = choose|j: int| 0 <= j < i && adds_item(#[trigger] h[j], id);
                    assert(h2[j] == h[j]);
                    assert(adds_item(h2[j], id));
                },
                None => {},
            }
        } else {
            assert(h2[i] == e);
            match event_ref_id(e) {
                Some(id) => {
                    let j = choose|j: int| 0 <= j < h.len() && adds_item(#[trigger] h[j], id);
                    assert(h2[j] == h[j]);
                    assert(adds_item(h2[j], id));
                },
                None => {},
            }
        }
    }
    assert forall|i: int| 0 <= i < h2.len() implies #[trigger] parts_resolved(h2, i) by {
        if i < h.len() {
            assert(parts_resolved(h, i));
            assert(h2[i] == h[i]);
            match part_ref(h2[i]) {
                Some(p) => {
                    let j = choose|j: int| 0 <= j < i && adds_part(#[trigger] h[j], p.0, p.1);
                    assert(h2[j] == h[j]);
                    assert(adds_part(h2[j], p.0, p.1));
                },
                None => {},
            }
        } else {
            assert(h2[i] == e);
            match part_ref(e) {
                Some(p) => {
                    let j = choose|j: int| 0 <= j < h.len() && adds_part(
                        #[trigger] h[j],
                        p.0,
                        p.1,
                    );
                    assert(h2[j] == h[j]);
                    assert(adds_part(h2[j], p.0, p.1));
                },
                None => {},
            }
        }
    }
    assert forall|i: int| 0 <= i < h2.len() implies #[trigger] parts_clean(h2, i) by {
        if i < h.len() {
            assert(parts_clean(h, i));
            assert(h2[i] == h[i]);
            match part_done_ref(h2[i]) {
                Some(p) => {
                    let j = choose|j: int|
                        0 <= j < i && adds_part(#[trigger] h[j], p.0, p.1) && only_deltas_between(
                            h,
                            j,
                            i,
                            p.0,
                            p.1,
                        );
                    assert(h2[j] == h[j]);
                    assert(adds_part(h2[j], p.0, p.1));
                    assert forall|k: int|
                        j < k < i && part_touch_of(#[trigger] h2[k], p.0, p.1)
                        implies h2[k] is TextDelta by {
                        assert(h2[k] == h[k]);
                        assert(part_touch_of(h[k], p.0, p.1));
                    }
                    assert(only_deltas_between(h2, j, i, p.0, p.1));
                },
                None => {},
            }
        } else {
            assert(h2[i] == e);
            match part_done_ref(e) {
                Some(p) => {
                    let j = choose|j: int|
                        0 <= j < h.len() && adds_part(#[trigger] h[j], p.0, p.1)
                            && only_deltas_between(h, j, h.len() as int, p.0, p.1);
                    assert(h2[j] == h[j]);
                    assert(adds_part(h2[j], p.0, p.1));
                    assert forall|k: int|
                        j < k < i && part_touch_of(#[trigger] h2[k], p.0, p.1)
                        implies h2[k] is TextDelta by {
                        assert(h2[k] == h[k]);
                        assert(part_touch_of(h[k], p.0, p.1));
                    }
                    assert(only_deltas_between(h2, j, i, p.0, p.1));
                },
                None => {},
            }
        }
    }
}

/// A clean open part stays clean when the history grows by an event that
/// either is one of its text deltas or does not touch it at all.
proof fn lemma_clean_extend(h: Seq<EventModel>, e: EventModel, id: Seq<char>, ci: nat)
    requires
        part_open_clean(h, h.len() as int, id, ci),
        part_touch_of(e, id, ci) ==> e is TextDelta,
    ensures
        part_open_clean(h.push(e), h.len() as int + 1, id, ci),
{
    let h2 = h.push(e);
    let j = choose|j: int|
        0 <= j < h.len() && adds_part(#[trigger] h[j], id, ci) && only_deltas_between(
            h,
            j,
            h.len() as int,
            id,
            ci,
        );
    assert(h2[j] == h[j]);
    assert(adds_part(h2[j], id, ci));
    assert forall|k: int|
        j < k < h.len() + 1 && part_touch_of(#[trigger] h2[k], id, ci)
        implies h2[k] is TextDelta by {
        if k < h.len() {
            assert(h2[k] == h[k]);
            assert(part_touch_of(h[k], id, ci));
        } else {
            assert(h2[k] == e);
        }
    }
    assert(only_deltas_between(h2, j, h.len() as int + 1, id, ci));
}

/// An item added before stays added when the history grows.
proof fn lemma_added_before_grow(h: Seq<EventModel>, h2: Seq<EventModel>, i: int, i2: int)
    requires
        forall|j: int| 0 <= j < i ==> h[j] == h2[j],
        0 <= i <= i2,
        i2 <= h2.len(),
    ensures
        forall|id: Seq<char>| item_added_before(h, i, id) ==> item_added_before(h2, i2, id),
        forall|id: Seq<char>, ci: nat|
            part_added_before(h, i, id, ci) ==> part_added_before(h2, i2, id, ci),
{
    assert forall|id: Seq<char>| item_added_before(h, i, id) implies item_added_before(
        h2,
        i2,
        id,
    ) by {
        let j = choose|j: int| 0 <= j < i && adds_item(#[trigger] h[j], id);
        assert(h2[j] == h[j]);
        assert(adds_item(h2[j], id));
    }
    assert forall|id: Seq<char>, ci: nat| part_added_before(h, i, id, ci) implies part_added_before(
        h2,
        i2,
        id,
        ci,
    ) by {
        let j = choose|j: int| 0 <= j < i && adds_part(#[trigger] h[j], id, ci);
        assert(h2[j] == h[j]);
        assert(adds_part(h2[j], id, ci));
    }
}

/// `spec_init` preserves validity and extends the history by its events.
proof fn lemma_init_wf(t: TranscoderModel, c: LegacyChoiceModel, tok: Seq<char>)
    requires
        t.wf(),
        !t.streaming,
    ensures
        spec_init(t, c, tok).0.wf(),
        spec_init(t, c, tok).0.history == t.history + spec_init(t, c, tok).1,
        spec_init(t, c, tok).0.response_id == t.response_id,
{
    let created = EventModel::Created { sequence_number: t.history.len(), id: t.response_id };
    lemma_trace_wf_push(t.history, created);
    let t0 = TranscoderModel { streaming: true, ..push_event(t, created) };
    lemma_added_before_grow(t.history, t0.history, t.history.len() as int, t0.history.len() as int);
    assert(t0.wf());
    let r = spec_init(t, c, tok);
    let has_tool_calls = match c.delta.tool_calls {
        Some(tcs) => tcs.len() > 0,
        None => false,
    };
    let has_content = match c.delta.content {
        Some(s) => s.len() > 0,
        None => false,
    };
    if !has_tool_calls || has_content {
        let item_id = "msg_"@ + tok;
        let item = OutputItemModel {
            id: item_id,
            kind: OrsItemKind::Message,
            status: OrsStatus::InProgress,
            call_id: None,
            name: None,
            arguments: None,
        };
        let added = EventModel::ItemAdded { sequence_number: t0.history.len(), item };
        lemma_trace_wf_push(t0.history, added);
        let t1 = TranscoderModel {
            current_item_id: Some(item_id),
            current_item_kind: Some(OrsItemKind::Message),
            ..push_event(t0, added)
        };
        assert(adds_item(t1.history[t0.history.len() as int], item_id));
        assert(item_added_before(t1.history, t1.history.len() as int, item_id));
        assert(t1.wf());
        assert(r.0.history =~= t.history + r.1);
    } else {
        assert(r.0.history =~= t.history + r.1);
    }
}

/// `spec_content` preserves validity and extends the history by its events.
proof fn lemma_content_wf(t: TranscoderModel, content: Option<Seq<char>>)
    requires
        t.wf(),
    ensures
        spec_content(t, content).0.wf(),
        spec_content(t, content).0.history == t.history + spec_content(t, content).1,
        spec_content(t, content).0.response_id == t.response_id,
        spec_content(t, content).0.streaming == t.streaming,
        spec_content(t, content).0.current_item_id == t.current_item_id,
        spec_content(t, content).0.current_item_kind == t.current_item_kind,
{
    let r = spec_content(t, content);
    match (content, t.current_item_id) {
        (Some(c), Some(id)) => {
            if c.len() > 0 {
                if !t.part_open {
                    let part_added = EventModel::ContentPartAdded {
                        sequence_number: t.history.len(),
                        item_id: id,
                        output_index: 0,
                        content_index: 0,
                        part: PartModel { text: Seq::<char>::empty() },
                    };
                    lemma_trace_wf_push(t.history, part_added);
                    let t1 = TranscoderModel {
                        part_open: true,
                        current_content_index: Some(0nat),
                        ..push_event(t, part_added)
                    };
                    lemma_added_before_grow(
                        t.history,
                        t1.history,
                        t.history.len() as int,
                        t1.history.len() as int,
                    );
                    assert(adds_part(t1.history[t.history.len() as int], id, 0));
                    assert(part_added_before(t1.history, t1.history.len() as int, id, 0));
                    assert(only_deltas_between(
                        t1.history,
                        t.history.len() as int,
                        t1.history.len() as int,
                        id,
                        0,
                    ));
                    assert(part_open_clean(t1.history, t1.history.len() as int, id, 0));
                    assert(t1.wf());
                    let text_delta = EventModel::TextDelta {
                        sequence_number: t1.history.len(),
                        item_id: id,
                        output_index: 0,
                        content_index: 0,
                        delta: c,
                    };
                    lemma_trace_wf_push(t1.history, text_delta);
                    lemma_clean_extend(t1.history, text_delta, id, 0);
                    let t2 = push_event(t1, text_delta);
                    lemma_added_before_grow(
                        t1.history,
                        t2.history,
                        t1.history.len() as int,
                        t2.history.len() as int,
                    );
                    assert(t2.wf());
                    assert(r.0.history =~= t.history + r.1);
                } else {
                    let text_delta = EventModel::TextDelta {
                        sequence_number: t.history.len(),
                        item_id: id,
                        output_index: 0,
                        content_index: 0,
                        delta: c,
                    };
                    lemma_trace_wf_push(t.history, text_delta);
                    lemma_clean_extend(t.history, text_delta, id, 0);
                    let t2 = push_event(t, text_delta);
                    lemma_added_before_grow(
                        t.history,
                        t2.history,
                        t.history.len() as int,
                        t2.history.len() as int,
                    );
                    assert(t2.wf());
                    assert(r.0.history =~= t.history + r.1);
                }
            } else {
                assert(r.0.history =~= t.history + r.1);
            }
        },
        _ => {
            assert(r.0.history =~= t.history + r.1);
        },
    }
}

/// `spec_close_part` preserves validity and extends the history by its
/// events.
proof fn lemma_close_part_wf(t: TranscoderModel)
    requires
        t.wf(),
    ensures
        spec_close_part(t).0.wf(),
        spec_close_part(t).0.history == t.history + spec_close_part(t).1,
        spec_close_part(t).0.response_id == t.response_id,
        spec_close_part(t).0.streaming == t.streaming,
        spec_close_part(t).0.current_item_id == t.current_item_id,
        spec_close_part(t).0.current_item_kind == t.current_item_kind,
        !spec_close_part(t).0.part_open,
{
    let r = spec_close_part(t);
    if t.part_open {
        match t.current_item_id {
            Some(id) => {
                let done = EventModel::ContentPartDone {
                    sequence_number: t.history.len(),
                    item_id: id,
                    output_index: 0,
                    content_index: 0,
                    part: PartModel { text: Seq::<char>::empty() },
                };
                lemma_trace_wf_push(t.history, done);
                lemma_added_before_grow(
                    t.history,
                    r.0.history,
                    t.history.len() as int,
                    r.0.history.len() as int,
                );
                assert(r.0.wf());
                assert(r.0.history =~= t.history + r.1);
            },
            None => {
                assert(r.0.history =~= t.history + r.1);
            },
        }
    } else {
        assert(r.0.history =~= t.history + r.1);
    }
}

/// `spec_tool_call` preserves validity and extends the history by its
/// events.
proof fn lemma_tool_call_wf(t: TranscoderModel, tc: ToolCallDeltaModel, tok: Seq<char>)
    requires
        t.wf(),
        t.streaming,
    ensures
        spec_tool_call(t, tc, tok).0.wf(),
        spec_tool_call(t, tc, tok).0.history == t.history + spec_tool_call(t, tc, tok).1,
        spec_tool_call(t, tc, tok).0.response_id == t.response_id,
        spec_tool_call(t, tc, tok).0.streaming == t.streaming,
{
    let r = spec_tool_call(t, tc, tok);
    let t1 = match tc.id {
        Some(call_id) => {
            lemma_close_part_wf(t);
            let ta = spec_close_part(t).0;
            let item_id = "fc_"@ + tok;
            let nm = match tc.name {
                Some(n) => n,
                None => "unknown"@,
            };
            let item = OutputItemModel {
                id: item_id,
                kind: OrsItemKind::FunctionCall,
                status: OrsStatus::InProgress,
                call_id: Some(call_id),
                name: Some(nm),
                arguments: Some(Seq::<char>::empty()),
            };
            let added = EventModel::ItemAdded { sequence_number: ta.history.len(), item };
            lemma_trace_wf_push(ta.history, added);
            let tb = TranscoderModel {
                current_item_id: Some(item_id),
                current_item_kind: Some(OrsItemKind::FunctionCall),
                ..push_event(ta, added)
            };
            assert(adds_item(tb.history[ta.history.len() as int], item_id));
            assert(item_added_before(tb.history, tb.history.len() as int, item_id));
            assert(tb.wf());
            assert(tb.history =~= t.history + spec_close_part(t).1.push(added));
            tb
        },
        None => t,
    };
    match (tc.arguments, t1.current_item_id) {
        (Some(a), Some(id)) => {
            if a.len() > 0 && t1.current_item_kind == Some(OrsItemKind::FunctionCall) {
                let args_delta = EventModel::FunctionCallArgumentsDelta {
                    sequence_number: t1.history.len(),
                    item_id: id,
                    output_index: 0,
                    delta: a,
                };
                lemma_trace_wf_push(t1.history, args_delta);
                if t1.part_open {
                    lemma_clean_extend(t1.history, args_delta, id, 0);
                }
                let t2 = push_event(t1, args_delta);
                lemma_added_before_grow(
                    t1.history,
                    t2.history,
                    t1.history.len() as int,
                    t2.history.len() as int,
                );
                assert(t2.wf());
                assert(r.0.history =~= t.history + r.1);
            } else {
                assert(r.0.history =~= t.history + r.1);
            }
        },
        _ => {
            assert(r.0.history =~= t.history + r.1);
        },
    }
}

/// `spec_tool_calls` preserves validity and extends the history by its
/// events.
proof fn lemma_tool_calls_wf(t: TranscoderModel, tcs: Seq<ToolCallDeltaModel>, toks: Seq<Seq<char>>)
    requires
        t.wf(),
        t.streaming,
    ensures
        spec_tool_calls(t, tcs, toks).0.wf(),
        spec_tool_calls(t, tcs, toks).0.history == t.history + spec_tool_calls(t, tcs, toks).1,
        spec_tool_calls(t, tcs, toks).0.response_id == t.response_id,
        spec_tool_calls(t, tcs, toks).0.streaming == t.streaming,
    decreases tcs.len(),
{
    let r = spec_tool_calls(t, tcs, toks);
    if tcs.len() == 0 {
        assert(r.0.history =~= t.history + r.1);
    } else {
        lemma_tool_calls_wf(t, tcs.drop_last(), toks.drop_last());
        let r1 = spec_tool_calls(t, tcs.drop_last(), toks.drop_last());
        lemma_tool_call_wf(r1.0, tcs.last(), toks.last());
        assert(r.0.history =~= t.history + r.1);
    }
}

/// `spec_finish` preserves validity and extends the history by its events.
proof fn lemma_finish_wf(t: TranscoderModel, finish_reason: Option<Seq<char>>)
    requires
        t.wf(),
    ensures
        spec_finish(t, finish_reason).0.wf(),
        spec_finish(t, finish_reason).0.history == t.history + spec_finish(t, finish_reason).1,
        spec_finish(t, finish_reason).0.response_id == t.response_id,
        spec_finish(t, finish_reason).0.streaming == t.streaming,
{
    let r = spec_finish(t, finish_reason);
    match finish_reason {
        Some(reason) => {
            lemma_close_part_wf(t);
            let t1 = spec_close_part(t).0;
            match t1.current_item_id {
                Some(id) => {
                    let kind = match t1.current_item_kind {
                        Some(k) => k,
                        None => OrsItemKind::Message,
                    };
                    let item = OutputItemModel {
                        id: id,
                        kind: kind,
                        status: spec_finish_status(reason),
                        call_id: None,
                        name: None,
                        arguments: None,
                    };
                    let done = EventModel::ItemDone {
                        sequence_number: t1.history.len(),
                        output_index: 0,
                        item,
                    };
                    lemma_trace_wf_push(t1.history, done);
                    assert(r.0.wf());
                    assert(r.0.history =~= t.history + r.1);
                },
                None => {
                    assert(r.0.history =~= t.history + r.1);
                },
            }
        },
        None => {
            assert(r.0.history =~= t.history + r.1);
        },
    }
}

/// Processing one chunk preserves validity and extends the history by the
/// emitted events.
pub proof fn lemma_spec_process_wf(
    t: TranscoderModel,
    chunk: LegacyChunkModel,
    tok0: Seq<char>,
    toks: Seq<Seq<char>>,
)
    requires
        t.wf(),
    ensures
        spec_process(t, chunk, tok0, toks).0.wf(),
        spec_process(t, chunk, tok0, toks).0.history == t.history + spec_process(
            t,
            chunk,
            tok0,
            toks,
        ).1,
        spec_process(t, chunk, tok0, toks).0.response_id == t.response_id,
{
    let r = spec_process(t, chunk, tok0, toks);
    if chunk.choices.len() == 0 {
        assert(r.0.history =~= t.history + r.1);
    } else {
        let c = chunk.choices.first();
        let t0 = if !t.streaming {
            lemma_init_wf(t, c, tok0);
            spec_init(t, c, tok0).0
        } else {
            t
        };
        lemma_content_wf(t0, c.delta.content);
        let t1 = spec_content(t0, c.delta.content).0;
        let t2 = match c.delta.tool_calls {
            Some(tcs) => {
                lemma_tool_calls_wf(t1, tcs, toks);
                spec_tool_calls(t1, tcs, toks).0
            },
            None => t1,
        };
        lemma_finish_wf(t2, c.finish_reason);
        assert(r.0.history =~= t.history + r.1);
    }
}

// ---------------------------------------------------------------------------
// Laws of the emitted event stream.
// ---------------------------------------------------------------------------

/// Law: for every request, the emitted sequence numbers form 0, 1, 2, ...
/// with no gap — the event at position `i` of the history carries sequence
/// number `i`.
pub proof fn lemma_sequence_numbers_dense(t: TranscoderModel)
    requires
        t.wf(),
    ensures
        forall|i: int|
            0 <= i < t.history.len() ==> event_seq_num(#[trigger] t.history[i]) == i as nat,
{
}

/// Law: for every emitted event referencing an item id, a prior
/// `output_item.added` event carried that id.
pub proof fn lemma_reference_implies_prior_added(t: TranscoderModel)
    requires
        t.wf(),
    ensures
        forall|i: int|
            0 <= i < t.history.len() && #[trigger] event_ref_id(t.history[i]) is Some
                ==> item_added_before(t.history, i, event_ref_id(t.history[i])->0),
{
    assert forall|i: int|
        0 <= i < t.history.len() && #[trigger] event_ref_id(t.history[i]) is Some
        implies item_added_before(t.history, i, event_ref_id(t.history[i])->0) by {
        assert(references_resolved(t.history, i));
    }
}

/// Law: a `content_part.done` for a content part, and every
/// `output_text.delta` for it, come after the `content_part.added` that
/// opened that part.
pub proof fn lemma_part_events_follow_part_added(t: TranscoderModel)
    requires
        t.wf(),
    ensures
        forall|i: int|
            0 <= i < t.history.len() && #[trigger] part_ref(t.history[i]) is Some
                ==> part_added_before(
                t.history,
                i,
                (part_ref(t.history[i])->0).0,
                (part_ref(t.history[i])->0).1,
            ),
{
    assert forall|i: int|
        0 <= i < t.history.len() && #[trigger] part_ref(t.history[i]) is Some
        implies part_added_before(
        t.history,
        i,
        (part_ref(t.history[i])->0).0,
        (part_ref(t.history[i])->0).1,
    ) by {
        assert(parts_resolved(t.history, i));
    }
}

/// Law: a `content_part.done` for a content part is preceded by the
/// `content_part.added` that opened it, and between the two, nothing but
/// `output_text.delta` events touch that part.
pub proof fn lemma_part_done_preceded_by_added_and_deltas(t: TranscoderModel)
    requires
        t.wf(),
    ensures
        forall|i: int|
            0 <= i < t.history.len() && #[trigger] part_done_ref(t.history[i]) is Some
                ==> part_open_clean(
                t.history,
                i,
                (part_done_ref(t.history[i])->0).0,
                (part_done_ref(t.history[i])->0).1,
            ),
{
    assert forall|i: int|
        0 <= i < t.history.len() && #[trigger] part_done_ref(t.history[i]) is Some
        implies part_open_clean(
        t.history,
        i,
        (part_done_ref(t.history[i])->0).0,
        (part_done_ref(t.history[i])->0).1,
    ) by {
        assert(parts_clean(t.history, i));
    }
}

} // verus!
