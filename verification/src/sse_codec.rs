use vstd::prelude::*;
use vstd::utf8::{decode_utf8, valid_utf8};

verus! {

// ---------------------------------------------------------------------------
// Frame codec: reassembles text lines from arbitrarily fragmented byte
// chunks.  A line ends at a line feed (0x0A); a carriage return (0x0D)
// directly before the line feed is stripped; bytes after the last line feed
// are retained for the next call.
//
// The spec model is a byte-by-byte scan over a state holding the complete
// lines found so far and the partial current line.
// ---------------------------------------------------------------------------

/// A line with its trailing carriage return removed, if it has one.
pub open spec fn strip_cr(line: Seq<u8>) -> Seq<u8> {
    if line.len() > 0 && line.last() == 13u8 {
        line.drop_last()
    } else {
        line
    }
}

/// One step of the scan: a line feed completes the current line, any other
/// byte extends it.
pub open spec fn scan_step(st: (Seq<Seq<u8>>, Seq<u8>), b: u8) -> (Seq<Seq<u8>>, Seq<u8>) {
    if b == 10u8 {
        (st.0.push(strip_cr(st.1)), Seq::<u8>::empty())
    } else {
        (st.0, st.1.push(b))
    }
}

/// The scan over a whole byte sequence.
pub open spec fn scan_bytes(st: (Seq<Seq<u8>>, Seq<u8>), bytes: Seq<u8>) -> (
    Seq<Seq<u8>>,
    Seq<u8>,
)
    decreases bytes.len(),
{
    if bytes.len() == 0 {
        st
    } else {
        scan_bytes(scan_step(st, bytes.first()), bytes.drop_first())
    }
}

/// Whether a completed byte line is kept: non-empty and valid UTF-8.
pub open spec fn keeps_line(line: Seq<u8>) -> bool {
    line.len() > 0 && valid_utf8(line)
}

/// The text lines produced from a sequence of completed byte lines: the kept
/// lines, decoded, in order.
pub open spec fn line_strings(lines: Seq<Seq<u8>>) -> Seq<Seq<char>>
    decreases lines.len(),
{
    if lines.len() == 0 {
        Seq::<Seq<char>>::empty()
    } else {
        let rest = line_strings(lines.drop_last());
        if keeps_line(lines.last()) {
            rest.push(decode_utf8(lines.last()))
        } else {
            rest
        }
    }
}

/// Relies on String::from_utf8: returns the decoded string exactly when the
/// bytes are valid UTF-8, and nothing otherwise.
#[verifier::external_body]
fn utf8_to_string(bytes: &Vec<u8>) -> (r: Option<String>)
    ensures
        r is Some <==> valid_utf8(bytes@),
        r matches Some(s) ==> s@ == decode_utf8(bytes@),
{
    String::from_utf8(bytes.clone()).ok()
}

/// Streaming reassembler of text lines from byte chunks.
pub struct SseCodec {
    buffer: Vec<u8>,
}

impl View for SseCodec {
    type V = Seq<u8>;

    closed spec fn view(&self) -> Seq<u8> {
        self.buffer@
    }
}

impl SseCodec {
    /// A codec with an empty internal buffer.
    pub fn new() -> (r: Self)
        ensures
            r@ == Seq::<u8>::empty(),
    {
        SseCodec { buffer: Vec::new() }
    }

    /// Appends the chunk to the retained bytes and splits off every complete
    /// byte line, carriage returns stripped; the bytes after the last line
    /// feed are retained.
    pub fn decode_lines(&mut self, chunk: &[u8]) -> (lines: Vec<Vec<u8>>)
        ensures
            final(self)@ == scan_bytes((Seq::<Seq<u8>>::empty(), old(self)@), chunk@).1,
            lines.deep_view() == scan_bytes((Seq::<Seq<u8>>::empty(), old(self)@), chunk@).0,
    {
        let ghost st0: (Seq<Seq<u8>>, Seq<u8>) = (Seq::<Seq<u8>>::empty(), self.buffer@);
        let mut cur: Vec<u8> = Vec::new();
        let mut k: usize = 0;
        while k < self.buffer.len()
            invariant
                k <= self.buffer@.len(),
                cur@ == self.buffer@.take(k as int),
                self@ == old(self)@,
                st0 == (Seq::<Seq<u8>>::empty(), old(self)@),
            decreases self.buffer@.len() - k,
        {
            cur.push(self.buffer[k]);
            proof {
                assert(cur@ =~= self.buffer@.take(k as int + 1));
            }
            k += 1;
        }
        proof {
            assert(cur@ =~= old(self)@);
        }
        let mut out: Vec<Vec<u8>> = Vec::new();
        let ghost mut done_lines: Seq<Seq<u8>> = Seq::<Seq<u8>>::empty();
        proof {
            assert(chunk@.skip(0) =~= chunk@);
            assert(out.deep_view() =~= done_lines);
        }
        let mut j: usize = 0;
        while j < chunk.len()
            invariant
                j <= chunk@.len(),
                scan_bytes(st0, chunk@) == scan_bytes((done_lines, cur@), chunk@.skip(j as int)),
                out.deep_view() == done_lines,
                st0 == (Seq::<Seq<u8>>::empty(), old(self)@),
            decreases chunk@.len() - j,
        {
            let ghost pre: (Seq<Seq<u8>>, Seq<u8>) = (done_lines, cur@);
            let b = chunk[j];
            proof {
                assert(chunk@.skip(j as int).first() == b);
                assert(chunk@.skip(j as int).drop_first() =~= chunk@.skip(j as int + 1));
            }
            if b == 10u8 {
                if cur.len() > 0 && cur[cur.len() - 1] == 13u8 {
                    cur.pop();
                    proof {
                        assert(cur@ =~= strip_cr(pre.1));
                    }
                } else {
                    proof {
                        assert(cur@ == strip_cr(pre.1));
                    }
                }
                proof {
                    assert(cur.deep_view() =~= cur@);
                }
                out.push(cur);
                cur = Vec::new();
                proof {
                    done_lines = done_lines.push(strip_cr(pre.1));
                    assert(out.deep_view() =~~= done_lines);
                    assert((done_lines, cur@) == scan_step(pre, b));
                }
            } else {
                cur.push(b);
                proof {
                    assert((done_lines, cur@) == scan_step(pre, b));
                }
            }
            j += 1;
        }
        proof {
            assert(chunk@.skip(chunk@.len() as int) =~= Seq::<u8>::empty());
            assert(scan_bytes(st0, chunk@) == (done_lines, cur@));
        }
        self.buffer = cur;
        out
    }

    /// Appends the chunk to the retained bytes and returns every complete
    /// line that is non-empty and valid UTF-8, decoded, in order.
    pub fn decode(&mut self, chunk: &[u8]) -> (lines: Vec<String>)
        ensures
            final(self)@ == scan_bytes((Seq::<Seq<u8>>::empty(), old(self)@), chunk@).1,
            lines.deep_view() == line_strings(
                scan_bytes((Seq::<Seq<u8>>::empty(), old(self)@), chunk@).0,
            ),
    {
        let byte_lines = self.decode_lines(chunk);
        let mut out: Vec<String> = Vec::new();
        proof {
            assert(byte_lines.deep_view().take(0) =~= Seq::<Seq<u8>>::empty());
            assert(out.deep_view() =~= line_strings(byte_lines.deep_view().take(0)));
        }
        let mut i: usize = 0;
        while i < byte_lines.len()
            invariant
                i <= byte_lines@.len(),
                out.deep_view() == line_strings(byte_lines.deep_view().take(i as int)),
            decreases byte_lines@.len() - i,
        {
            let line = &byte_lines[i];
            if line.len() > 0 {
                match utf8_to_string(line) {
                    Some(s) => {
                        out.push(s);
                    },
                    None => {},
                }
            }
            proof {
                let ls = byte_lines.deep_view();
                assert(ls.take(i as int + 1).drop_last() =~= ls.take(i as int));
                assert(ls.take(i as int + 1).last() == ls[i as int]);
                assert(ls[i as int] == byte_lines@[i as int]@);
            }
            i += 1;
        }
        proof {
            assert(byte_lines.deep_view().take(byte_lines@.len() as int) =~= byte_lines.deep_view());
        }
        out
    }
}

// ---------------------------------------------------------------------------
// Stream equivalence: decoding a byte stream chunk by chunk emits the same
// lines, and retains the same tail, as decoding the whole stream at once,
// for every partition of the stream into chunks.
// ---------------------------------------------------------------------------

/// The concatenation of a sequence of chunks.
pub open spec fn concat_all(chunks: Seq<Seq<u8>>) -> Seq<u8>
    decreases chunks.len(),
{
    if chunks.len() == 0 {
        Seq::<u8>::empty()
    } else {
        chunks.first() + concat_all(chunks.drop_first())
    }
}

/// The text lines emitted, and the tail retained, by feeding the chunks to
/// the codec one call at a time, starting from buffer `buf`.
pub open spec fn run_codec(buf: Seq<u8>, chunks: Seq<Seq<u8>>) -> (Seq<Seq<char>>, Seq<u8>)
    decreases chunks.len(),
{
    if chunks.len() == 0 {
        (Seq::<Seq<char>>::empty(), buf)
    } else {
        let st = scan_bytes((Seq::<Seq<u8>>::empty(), buf), chunks.first());
        let rest = run_codec(st.1, chunks.drop_first());
        (line_strings(st.0) + rest.0, rest.1)
    }
}

/// Scanning a concatenation equals scanning the parts in order.
proof fn lemma_scan_append(st: (Seq<Seq<u8>>, Seq<u8>), a: Seq<u8>, b: Seq<u8>)
    ensures
        scan_bytes(st, a + b) == scan_bytes(scan_bytes(st, a), b),
    decreases a.len(),
{
    if a.len() == 0 {
        assert(a + b =~= b);
    } else {
        assert((a + b).first() == a.first());
        assert((a + b).drop_first() =~= a.drop_first() + b);
        lemma_scan_append(scan_step(st, a.first()), a.drop_first(), b);
    }
}

/// Lines already found stay in front: the scan only appends to them.
proof fn lemma_scan_lines_accum(lines: Seq<Seq<u8>>, cur: Seq<u8>, bytes: Seq<u8>)
    ensures
        scan_bytes((lines, cur), bytes).0 == lines + scan_bytes(
            (Seq::<Seq<u8>>::empty(), cur),
            bytes,
        ).0,
        scan_bytes((lines, cur), bytes).1 == scan_bytes((Seq::<Seq<u8>>::empty(), cur), bytes).1,
    decreases bytes.len(),
{
    if bytes.len() == 0 {
        assert(lines + Seq::<Seq<u8>>::empty() =~= lines);
    } else {
        let b = bytes.first();
        let rest = bytes.drop_first();
        if b == 10u8 {
            let done = strip_cr(cur);
            lemma_scan_lines_accum(lines.push(done), Seq::<u8>::empty(), rest);
            lemma_scan_lines_accum(seq![done], Seq::<u8>::empty(), rest);
            let tail0 = scan_bytes(
                (Seq::<Seq<u8>>::empty(), Seq::<u8>::empty()),
                rest,
            ).0;
            assert(lines.push(done) + tail0 =~= lines + (seq![done] + tail0));
        } else {
            lemma_scan_lines_accum(lines, cur.push(b), rest);
        }
    }
}

/// Kept lines of a concatenation are the kept lines of the parts in order.
proof fn lemma_line_strings_add(a: Seq<Seq<u8>>, b: Seq<Seq<u8>>)
    ensures
        line_strings(a + b) == line_strings(a) + line_strings(b),
    decreases b.len(),
{
    if b.len() == 0 {
        assert(a + b =~= a);
        assert(line_strings(a) + line_strings(b) =~= line_strings(a));
    } else {
        assert((a + b).drop_last() =~= a + b.drop_last());
        assert((a + b).last() == b.last());
        lemma_line_strings_add(a, b.drop_last());
        if keeps_line(b.last()) {
            assert(line_strings(a) + line_strings(b.drop_last()).push(decode_utf8(b.last()))
                =~= (line_strings(a) + line_strings(b.drop_last())).push(decode_utf8(b.last())));
        }
    }
}

/// Feeding the chunks one call at a time emits the same lines, and retains
/// the same tail, as one call on their concatenation, from any starting
/// buffer.
pub proof fn lemma_run_codec_equivalence(buf: Seq<u8>, chunks: Seq<Seq<u8>>)
    ensures
        run_codec(buf, chunks).0 == line_strings(
            scan_bytes((Seq::<Seq<u8>>::empty(), buf), concat_all(chunks)).0,
        ),
        run_codec(buf, chunks).1 == scan_bytes(
            (Seq::<Seq<u8>>::empty(), buf),
            concat_all(chunks),
        ).1,
    decreases chunks.len(),
{
    if chunks.len() == 0 {
        assert(line_strings(Seq::<Seq<u8>>::empty()) =~= Seq::<Seq<char>>::empty());
    } else {
        let st1 = scan_bytes((Seq::<Seq<u8>>::empty(), buf), chunks.first());
        let rest = concat_all(chunks.drop_first());
        lemma_scan_append((Seq::<Seq<u8>>::empty(), buf), chunks.first(), rest);
        lemma_scan_lines_accum(st1.0, st1.1, rest);
        lemma_run_codec_equivalence(st1.1, chunks.drop_first());
        lemma_line_strings_add(st1.0, scan_bytes((Seq::<Seq<u8>>::empty(), st1.1), rest).0);
    }
}

/// The codec is stream-equivalent: for any partition of an input byte
/// sequence into chunks, the concatenation of the lines emitted by the
/// chunk-by-chunk calls equals the lines emitted by one call on the whole
/// sequence, and the retained tails agree.
pub proof fn lemma_codec_stream_equivalent(chunks: Seq<Seq<u8>>)
    ensures
        run_codec(Seq::<u8>::empty(), chunks).0 == line_strings(
            scan_bytes((Seq::<Seq<u8>>::empty(), Seq::<u8>::empty()), concat_all(chunks)).0,
        ),
        run_codec(Seq::<u8>::empty(), chunks).1 == scan_bytes(
            (Seq::<Seq<u8>>::empty(), Seq::<u8>::empty()),
            concat_all(chunks),
        ).1,
{
    lemma_run_codec_equivalence(Seq::<u8>::empty(), chunks);
}

} // verus!
