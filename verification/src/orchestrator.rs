use crate::types::{LegacyChatRequest, OrsInputItem};
use crate::upstream::{spec_translate, transform_ors_to_legacy};
use vstd::prelude::*;

verus! {

// ---------------------------------------------------------------------------
// Request-orchestrator decisions: deriving the conversation id and building
// the outbound legacy request.  The surrounding I/O (store access, the
// upstream call, the response) lives outside the library.
// ---------------------------------------------------------------------------

/// Relies on uuid::Uuid::new_v4 and its hyphenated default format: a fresh
/// random id of 36 characters.
#[verifier::external_body]
fn fresh_conversation_id() -> (r: String)
    ensures
        r@.len() == 36,
{
    format!("{}", uuid::Uuid::new_v4())
}

/// The conversation id of a request: the previous response id when one was
/// given, else a fresh opaque id.
pub fn derive_conversation_id(previous_response_id: &Option<String>) -> (r: String)
    ensures
        previous_response_id matches Some(p) ==> r@ == p@,
        previous_response_id is None ==> r@.len() == 36,
{
    match previous_response_id {
        Some(p) => p.clone(),
        None => fresh_conversation_id(),
    }
}

/// The hexadecimal digit character of a value below sixteen.
pub open spec fn hex_digit(n: nat) -> char {
    if n == 0 {
        '0'
    } else if n == 1 {
        '1'
    } else if n == 2 {
        '2'
    } else if n == 3 {
        '3'
    } else if n == 4 {
        '4'
    } else if n == 5 {
        '5'
    } else if n == 6 {
        '6'
    } else if n == 7 {
        '7'
    } else if n == 8 {
        '8'
    } else if n == 9 {
        '9'
    } else if n == 10 {
        'a'
    } else if n == 11 {
        'b'
    } else if n == 12 {
        'c'
    } else if n == 13 {
        'd'
    } else if n == 14 {
        'e'
    } else {
        'f'
    }
}

/// One character as it appears inside a JSON string literal: quote,
/// backslash and the common control characters get their short escapes, the
/// remaining control characters a `\u00..` escape, and everything else
/// stands as itself.
pub open spec fn json_escape_char(c: char) -> Seq<char> {
    if c == '"' {
        seq!['\\', '"']
    } else if c == '\\' {
        seq!['\\', '\\']
    } else if c == '\n' {
        seq!['\\', 'n']
    } else if c == '\r' {
        seq!['\\', 'r']
    } else if c == '\t' {
        seq!['\\', 't']
    } else if (c as u32) < 32 {
        seq!['\\', 'u', '0', '0', hex_digit((c as u32) as nat / 16), hex_digit(
            (c as u32) as nat % 16,
        )]
    } else {
        seq![c]
    }
}

/// A text as it appears inside a JSON string literal.
pub open spec fn json_escaped(s: Seq<char>) -> Seq<char>
    decreases s.len(),
{
    if s.len() == 0 {
        Seq::<char>::empty()
    } else {
        json_escaped(s.drop_last()) + json_escape_char(s.last())
    }
}

/// Relies on String::push: appends one character to the string.
#[verifier::external_body]
fn push_char(s: &mut String, c: char)
    ensures
        final(s)@ == old(s)@ + seq![c],
{
    s.push(c);
}

/// The hexadecimal digit character of a value below sixteen.
fn hex_digit_char(v: u32) -> (r: char)
    requires
        v < 16,
    ensures
        r == hex_digit(v as nat),
{
    if v == 0 {
        '0'
    } else if v == 1 {
        '1'
    } else if v == 2 {
        '2'
    } else if v == 3 {
        '3'
    } else if v == 4 {
        '4'
    } else if v == 5 {
        '5'
    } else if v == 6 {
        '6'
    } else if v == 7 {
        '7'
    } else if v == 8 {
        '8'
    } else if v == 9 {
        '9'
    } else if v == 10 {
        'a'
    } else if v == 11 {
        'b'
    } else if v == 12 {
        'c'
    } else if v == 13 {
        'd'
    } else if v == 14 {
        'e'
    } else {
        'f'
    }
}

/// Appends the text to `out`, escaped for a JSON string literal.
fn json_escape_into(text: &str, out: &mut String)
    ensures
        final(out)@ == old(out)@ + json_escaped(text@),
{
    let n = text.unicode_len();
    proof {
        assert(text@.take(0) =~= Seq::<char>::empty());
        assert(out@ =~= out@ + json_escaped(text@.take(0)));
    }
    let mut i: usize = 0;
    while i < n
        invariant
            i <= text@.len(),
            n == text@.len(),
            out@ == old(out)@ + json_escaped(text@.take(i as int)),
        decreases text@.len() - i,
    {
        let c = text.get_char(i);
        proof {
            assert(text@.take(i as int + 1).drop_last() =~= text@.take(i as int));
            assert(text@.take(i as int + 1).last() == text@[i as int]);
        }
        if c == '"' {
            push_char(out, '\\');
            push_char(out, '"');
        } else if c == '\\' {
            push_char(out, '\\');
            push_char(out, '\\');
        } else if c == '\n' {
            push_char(out, '\\');
            push_char(out, 'n');
        } else if c == '\r' {
            push_char(out, '\\');
            push_char(out, 'r');
        } else if c == '\t' {
            push_char(out, '\\');
            push_char(out, 't');
        } else if (c as u32) < 32 {
            push_char(out, '\\');
            push_char(out, 'u');
            push_char(out, '0');
            push_char(out, '0');
            push_char(out, hex_digit_char((c as u32) / 16));
            push_char(out, hex_digit_char((c as u32) % 16));
        } else {
            push_char(out, c);
        }
        proof {
            assert(out@ =~= old(out)@ + json_escaped(text@.take(i as int + 1)));
        }
        i += 1;
    }
    proof {
        assert(text@.take(text@.len() as int) =~= text@);
    }
}

/// The JSON error body returned to the client when the upstream call fails,
/// carrying the upstream text inside the message.
pub open spec fn spec_upstream_error_body(text: Seq<char>) -> Seq<char> {
    "{\"error\":{\"message\":\"Upstream provider error: "@ + json_escaped(text)
        + "\",\"type\":\"upstream_error\",\"code\":\"upstream_failed\"}}"@
}

/// Builds the JSON error body for a failed upstream call.
pub fn upstream_error_body(upstream_text: &str) -> (r: String)
    ensures
        r@ == spec_upstream_error_body(upstream_text@),
{
    let mut out = String::from_str("{\"error\":{\"message\":\"Upstream provider error: ");
    json_escape_into(upstream_text, &mut out);
    out.append("\",\"type\":\"upstream_error\",\"code\":\"upstream_failed\"}}");
    proof {
        assert(out@ =~= spec_upstream_error_body(upstream_text@));
    }
    out
}

/// The outbound legacy request for a turn: the translation of the full item
/// list (prior history followed by the request's input), with streaming
/// always on.
pub fn build_legacy_request(model: String, full_input: Vec<OrsInputItem>) -> (r: LegacyChatRequest)
    ensures
        r.model@ == model@,
        r.messages.deep_view() == spec_translate(full_input.deep_view()),
        r.stream,
{
    LegacyChatRequest {
        model,
        messages: transform_ors_to_legacy(full_input),
        stream: true,
    }
}

} // verus!
