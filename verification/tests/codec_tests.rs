use ors_proxy::sse_codec::SseCodec;

#[test]
fn test_sse_codec_fragmentation() {
    let mut codec = SseCodec::new();

    let lines = codec.decode(b"data: {\"foo\":");
    assert!(lines.is_empty());

    let lines = codec.decode(b" \"bar\"}\n\ndata: [DO");
    assert_eq!(lines.len(), 1);
    assert_eq!(lines[0], "data: {\"foo\": \"bar\"}");

    let lines = codec.decode(b"NE]\n");
    assert_eq!(lines.len(), 1);
    assert_eq!(lines[0], "data: [DONE]");
}

#[test]
fn test_sse_codec_crlf() {
    let mut codec = SseCodec::new();
    let lines = codec.decode(b"data: foo\r\ndata: bar\r\n");
    assert_eq!(lines.len(), 2);
    assert_eq!(lines[0], "data: foo");
    assert_eq!(lines[1], "data: bar");
}

#[test]
fn test_sse_codec_chunked_equals_whole() {
    let whole: &[u8] = b"alpha\nbeta\r\n\ngamma\ndelt";
    let mut one = SseCodec::new();
    let all_at_once = one.decode(whole);
    assert_eq!(all_at_once, vec!["alpha".to_string(), "beta".to_string(), "gamma".to_string()]);
    for split in 0..whole.len() {
        let mut two = SseCodec::new();
        let mut collected = two.decode(&whole[..split]);
        collected.extend(two.decode(&whole[split..]));
        assert_eq!(collected, all_at_once);
    }
}

#[test]
fn test_sse_codec_drops_invalid_utf8_line() {
    let mut codec = SseCodec::new();
    let lines = codec.decode(&[0xFF, 0xFE, b'\n', b'o', b'k', b'\n']);
    assert_eq!(lines, vec!["ok".to_string()]);
}

#[test]
fn test_sse_codec_keeps_partial_tail() {
    let mut codec = SseCodec::new();
    assert!(codec.decode(b"no newline yet").is_empty());
    assert!(codec.decode(b", still none").is_empty());
    let lines = codec.decode(b", done\n");
    assert_eq!(lines, vec!["no newline yet, still none, done".to_string()]);
}
