use wordlens::streaming::parse_sse_chunk;

fn tok(s: &str) -> (String, bool) {
    (s.to_string(), false)
}

#[test]
fn sse_single_data_event() {
    let mut buf = String::new();
    let out = parse_sse_chunk(&mut buf, "data: Hello\n\n");
    assert_eq!(out, vec![tok("Hello")]);
    assert_eq!(buf, "");
}

#[test]
fn sse_incomplete_block_is_kept() {
    let mut buf = String::new();
    let out = parse_sse_chunk(&mut buf, "data: Hel");
    assert!(out.is_empty());
    assert_eq!(buf, "data: Hel");
    let out = parse_sse_chunk(&mut buf, "lo\n\ndata: wor");
    assert_eq!(out, vec![tok("Hello")]);
    assert_eq!(buf, "data: wor");
}

#[test]
fn sse_done_event() {
    let mut buf = String::new();
    let out = parse_sse_chunk(&mut buf, "data: a\n\nevent: done\ndata: \n\n");
    assert_eq!(out, vec![tok("a"), (String::new(), true)]);
}

#[test]
fn sse_multi_line_data_is_joined() {
    let mut buf = String::new();
    let out = parse_sse_chunk(&mut buf, "data: one\r\ndata: two\n\n");
    assert_eq!(out, vec![tok("one\ntwo")]);
    // A carriage return before the blank line ends the block's last line,
    // which has no line ending of its own, so it stays.
    let out = parse_sse_chunk(&mut buf, "data: one\ndata: two\r\n\n");
    assert_eq!(out, vec![tok("one\ntwo\r")]);
}

#[test]
fn sse_empty_data_yields_nothing() {
    let mut buf = String::new();
    let out = parse_sse_chunk(&mut buf, "event: message\ndata: \n\n: comment\n\n");
    assert!(out.is_empty());
    assert_eq!(buf, "");
}

#[test]
fn sse_event_type_is_trimmed() {
    let mut buf = String::new();
    let out = parse_sse_chunk(&mut buf, "event:  done \n\n");
    assert_eq!(out, vec![(String::new(), true)]);
    let out = parse_sse_chunk(&mut buf, "event: error\ndata: Stream timed out\n\n");
    assert_eq!(out, vec![tok("Stream timed out")]);
}

#[test]
fn sse_chunking_does_not_change_tokens() {
    let stream = "data: In\n\ndata:  the\n\ndata: rain\n\nevent: done\ndata: \n\ndata: tail";
    let mut whole_buf = String::new();
    let whole = parse_sse_chunk(&mut whole_buf, stream);
    for cut in 0..=stream.len() {
        if !stream.is_char_boundary(cut) {
            continue;
        }
        let mut buf = String::new();
        let mut out = parse_sse_chunk(&mut buf, &stream[..cut]);
        out.extend(parse_sse_chunk(&mut buf, &stream[cut..]));
        assert_eq!(out, whole, "cut at {cut}");
        assert_eq!(buf, whole_buf, "cut at {cut}");
    }
    assert_eq!(whole, vec![tok("In"), tok(" the"), tok("rain"), (String::new(), true)]);
    assert_eq!(whole_buf, "data: tail");
}

#[test]
fn sse_blank_line_split_across_chunks() {
    let mut buf = String::new();
    assert!(parse_sse_chunk(&mut buf, "data: x\n").is_empty());
    assert_eq!(parse_sse_chunk(&mut buf, "\n"), vec![tok("x")]);
    assert_eq!(buf, "");
}
