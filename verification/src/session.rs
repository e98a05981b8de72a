use crate::sse_codec::{scan_bytes, SseCodec};
use crate::transcoder::{spec_process, Transcoder, TranscoderModel};
use crate::types::{
    EventModel, LegacyChoice, LegacyChoiceModel, LegacyChunk, LegacyChunkModel, LegacyDelta,
    OrsEvent, ToolCallDelta,
};
use serde_json::Value;
use vstd::prelude::*;

verus! {

// ---------------------------------------------------------------------------
// Per-request stream session: reassembles lines from upstream byte chunks,
// keeps the lines carrying a `data: ` payload, drops the `[DONE]` marker,
// parses each payload into a legacy chunk, and feeds it to the transcoder.
// ---------------------------------------------------------------------------

/// The bytes of the `data: ` line prefix.
pub open spec fn data_prefix() -> Seq<u8> {
    seq![100u8, 97u8, 116u8, 97u8, 58u8, 32u8]
}

/// The bytes of the `[DONE]` terminal payload.
pub open spec fn done_payload() -> Seq<u8> {
    seq![91u8, 68u8, 79u8, 78u8, 69u8, 93u8]
}

/// Whether the line begins with the `data: ` prefix.
pub open spec fn is_data_line(line: Seq<u8>) -> bool {
    line.len() >= 6 && line.take(6) == data_prefix()
}

/// The payload of a data line: what follows the prefix.
pub open spec fn payload_of(line: Seq<u8>) -> Seq<u8> {
    line.skip(6)
}

/// The first choice that serde_json's parse of a legacy chunk payload
/// yields: its result depends on the payload bytes alone.
pub uninterp spec fn choice_of(payload: Seq<u8>) -> Option<LegacyChoiceModel>;

/// Relies on serde_json::from_slice and serde_json::Value's accessors: the
/// first choice of the legacy chunk JSON — the delta's content string and
/// tool-call fields and the finish reason — or nothing when the payload is
/// not JSON or holds no choice with a delta.
#[verifier::external_body]
fn parse_first_choice(payload: &[u8]) -> (r: Option<LegacyChoice>)
    ensures
        r is Some <==> choice_of(payload@) is Some,
        r matches Some(c) ==> c@ == choice_of(payload@)->0,
{
    let v: Value = serde_json::from_slice(payload).ok()?;
    let c = &v["choices"][0];
    let d = &c["delta"];
    if c.is_null() || !d.is_object() { return None; }
    let s_of = |x: &Value| x.as_str().map(String::from);
    let tool_calls = d["tool_calls"].as_array().map(|a| a.iter().map(|t| ToolCallDelta {
        id: s_of(&t["id"]),
        name: s_of(&t["function"]["name"]),
        arguments: s_of(&t["function"]["arguments"]),
    }).collect());
    Some(LegacyChoice {
        delta: LegacyDelta { content: s_of(&d["content"]), tool_calls },
        finish_reason: s_of(&c["finish_reason"]),
    })
}

/// A chunk holding exactly this choice.
pub open spec fn singleton_chunk(c: LegacyChoiceModel) -> LegacyChunkModel {
    LegacyChunkModel { choices: seq![c] }
}

/// The transcoder transition of one completed line, given the fresh tokens
/// drawn while processing it: a data line whose payload is not the terminal
/// marker and parses to a choice is transcoded; every other line changes
/// nothing.
pub open spec fn spec_line(
    t: TranscoderModel,
    line: Seq<u8>,
    tk: (Seq<char>, Seq<Seq<char>>),
) -> (TranscoderModel, Seq<EventModel>) {
    if is_data_line(line) && payload_of(line) != done_payload() {
        match choice_of(payload_of(line)) {
            Some(c) => spec_process(t, singleton_chunk(c), tk.0, tk.1),
            None => (t, Seq::<EventModel>::empty()),
        }
    } else {
        (t, Seq::<EventModel>::empty())
    }
}

/// The transcoder transition of a sequence of completed lines, in order.
pub open spec fn spec_lines(
    t: TranscoderModel,
    lines: Seq<Seq<u8>>,
    tks: Seq<(Seq<char>, Seq<Seq<char>>)>,
) -> (TranscoderModel, Seq<EventModel>)
    decreases lines.len(),
{
    if lines.len() == 0 {
        (t, Seq::<EventModel>::empty())
    } else {
        let (t1, e1) = spec_lines(t, lines.drop_last(), tks.drop_last());
        let (t2, e2) = spec_line(t1, lines.last(), tks.last());
        (t2, e1 + e2)
    }
}

/// Spec model of a stream session: the codec's retained bytes and the
/// transcoder state.
#[verifier::ext_equal]
pub struct SessionModel {
    pub buffer: Seq<u8>,
    pub transcoder: TranscoderModel,
}

/// The effect of feeding one byte chunk: the retained bytes and completed
/// lines come from the codec scan, and the lines drive the transcoder.
pub open spec fn spec_feed(
    s: SessionModel,
    chunk: Seq<u8>,
    tks: Seq<(Seq<char>, Seq<Seq<char>>)>,
) -> (SessionModel, Seq<EventModel>) {
    let st = scan_bytes((Seq::<Seq<u8>>::empty(), s.buffer), chunk);
    let r = spec_lines(s.transcoder, st.0, tks);
    (SessionModel { buffer: st.1, transcoder: r.0 }, r.1)
}

/// One per-request pipeline: frame codec and transcoder.
pub struct StreamSession {
    codec: SseCodec,
    transcoder: Transcoder,
}

impl View for StreamSession {
    type V = SessionModel;

    closed spec fn view(&self) -> SessionModel {
        SessionModel { buffer: self.codec@, transcoder: self.transcoder@ }
    }
}

/// Whether the line begins with `data: `.
fn starts_with_data(line: &Vec<u8>) -> (r: bool)
    ensures
        r == is_data_line(line@),
{
    if line.len() < 6 {
        return false;
    }
    let r = line[0] == 100 && line[1] == 97 && line[2] == 116 && line[3] == 97 && line[4] == 58
        && line[5] == 32;
    proof {
        if r {
            assert(line@.take(6) =~= data_prefix());
        } else {
            if line@.take(6) == data_prefix() {
                assert(line@[0] == data_prefix()[0]);
                assert(line@[1] == data_prefix()[1]);
                assert(line@[2] == data_prefix()[2]);
                assert(line@[3] == data_prefix()[3]);
                assert(line@[4] == data_prefix()[4]);
                assert(line@[5] == data_prefix()[5]);
            }
        }
    }
    r
}

/// Whether the payload is the `[DONE]` terminal marker.
fn is_done_payload(payload: &Vec<u8>) -> (r: bool)
    ensures
        r == (payload@ == done_payload()),
{
    if payload.len() != 6 {
        proof {
            assert(payload@ != done_payload());
        }
        return false;
    }
    let r = payload[0] == 91 && payload[1] == 68 && payload[2] == 79 && payload[3] == 78
        && payload[4] == 69 && payload[5] == 93;
    proof {
        if r {
            assert(payload@ =~= done_payload());
        } else {
            if payload@ == done_payload() {
                assert(payload@[0] == done_payload()[0]);
                assert(payload@[1] == done_payload()[1]);
                assert(payload@[2] == done_payload()[2]);
                assert(payload@[3] == done_payload()[3]);
                assert(payload@[4] == done_payload()[4]);
                assert(payload@[5] == done_payload()[5]);
            }
        }
    }
    r
}

impl StreamSession {
    /// A fresh session: empty codec buffer and a fresh transcoder.
    pub fn new() -> (r: Self)
        ensures
            r@.buffer == Seq::<u8>::empty(),
            r@.transcoder.wf(),
            !r@.transcoder.streaming,
            r@.transcoder.history.len() == 0,
    {
        StreamSession { codec: SseCodec::new(), transcoder: Transcoder::new() }
    }

    /// Every event emitted so far, in emission order, for persistence at
    /// stream end.
    pub fn collected_events(&self) -> (r: &Vec<OrsEvent>)
        ensures
            r.deep_view() == self@.transcoder.history,
    {
        self.transcoder.collected()
    }

    /// Feeds one upstream byte chunk through the codec and the transcoder
    /// and returns the events it produced, which are also appended to the
    /// kept history.
    pub fn feed(&mut self, chunk: &[u8]) -> (events: Vec<OrsEvent>)
        requires
            old(self)@.transcoder.wf(),
        ensures
            final(self)@.transcoder.wf(),
            exists|tks: Seq<(Seq<char>, Seq<Seq<char>>)>|
                #[trigger] spec_feed(old(self)@, chunk@, tks) == (
                    final(self)@,
                    events.deep_view(),
                ),
            final(self)@.transcoder.history == old(self)@.transcoder.history
                + events.deep_view(),
    {
        let ghost pre = self@;
        let byte_lines = self.codec.decode_lines(chunk);
        let ghost lines_v = byte_lines.deep_view();
        let ghost t_start = self.transcoder@;
        let ghost buf_after = self.codec@;
        let mut out: Vec<OrsEvent> = Vec::new();
        let ghost mut tks: Seq<(Seq<char>, Seq<Seq<char>>)> = Seq::empty();
        proof {
            assert(lines_v.take(0) =~= Seq::<Seq<u8>>::empty());
            assert(out.deep_view() =~= Seq::<EventModel>::empty());
        }
        let mut i: usize = 0;
        while i < byte_lines.len()
            invariant
                i <= lines_v.len(),
                tks.len() == i as nat,
                byte_lines.deep_view() == lines_v,
                self.codec@ == buf_after,
                spec_lines(t_start, lines_v.take(i as int), tks) == (
                    self.transcoder@,
                    out.deep_view(),
                ),
                self.transcoder@.wf(),
                self.transcoder@.history == t_start.history + out.deep_view(),
            decreases lines_v.len() - i,
        {
            let ghost t_i = self.transcoder@;
            let ghost out_i = out.deep_view();
            let line = &byte_lines[i];
            proof {
                assert(lines_v[i as int] == line@);
                assert(lines_v.take(i as int + 1).drop_last() =~= lines_v.take(i as int));
                assert(lines_v.take(i as int + 1).last() == lines_v[i as int]);
            }
            let ghost mut tk_i: (Seq<char>, Seq<Seq<char>>) = (
                Seq::<char>::empty(),
                Seq::<Seq<char>>::empty(),
            );
            if starts_with_data(line) {
                let mut payload: Vec<u8> = Vec::new();
                let mut k: usize = 6;
                proof {
                    assert(payload@ =~= line@.subrange(6, 6));
                }
                while k < line.len()
                    invariant
                        6 <= k <= line@.len(),
                        line@.len() >= 6,
                        payload@ == line@.subrange(6, k as int),
                    decreases line@.len() - k,
                {
                    payload.push(line[k]);
                    proof {
                        assert(payload@ =~= line@.subrange(6, k as int + 1));
                    }
                    k += 1;
                }
                proof {
                    assert(payload@ =~= payload_of(line@));
                }
                if !is_done_payload(&payload) {
                    match parse_first_choice(payload.as_slice()) {
                        Some(choice) => {
                            let ghost choice_v = choice@;
                            let mut choices: Vec<LegacyChoice> = Vec::new();
                            choices.push(choice);
                            let one_chunk = LegacyChunk { choices };
                            proof {
                                assert(one_chunk@.choices =~= seq![choice_v]);
                                assert(one_chunk@ =~~= singleton_chunk(choice_v));
                            }
                            let mut evs = self.transcoder.process(one_chunk);
                            proof {
                                let (tok0, toks) = choose|
                                    tok0: Seq<char>,
                                    toks: Seq<Seq<char>>,
                                |
                                    #[trigger] spec_process(
                                        t_i,
                                        singleton_chunk(choice_v),
                                        tok0,
                                        toks,
                                    ) == (self.transcoder@, evs.deep_view());
                                tk_i = (tok0, toks);
                                assert(spec_line(t_i, line@, tk_i) == (
                                    self.transcoder@,
                                    evs.deep_view(),
                                ));
                            }
                            out.append(&mut evs);
                        },
                        None => {
                            proof {
                                assert(spec_line(t_i, line@, tk_i) == (
                                    t_i,
                                    Seq::<EventModel>::empty(),
                                ));
                            }
                        },
                    }
                } else {
                    proof {
                        assert(spec_line(t_i, line@, tk_i) == (t_i, Seq::<EventModel>::empty()));
                    }
                }
            } else {
                proof {
                    assert(spec_line(t_i, line@, tk_i) == (t_i, Seq::<EventModel>::empty()));
                }
            }
            proof {
                let new_tks = tks.push(tk_i);
                assert(new_tks.drop_last() =~= tks);
                assert(new_tks.last() == tk_i);
                assert(out.deep_view() =~= out_i + spec_line(t_i, lines_v[i as int], tk_i).1);
                assert(spec_lines(t_start, lines_v.take(i as int + 1), new_tks) == (
                    self.transcoder@,
                    out.deep_view(),
                ));
                tks = new_tks;
                assert(self.transcoder@.history =~= t_start.history + out.deep_view());
            }
            i += 1;
        }
        proof {
            assert(lines_v.take(lines_v.len() as int) =~= lines_v);
            assert(spec_feed(pre, chunk@, tks) == (self@, out.deep_view()));
        }
        out
    }
}

} // verus!
