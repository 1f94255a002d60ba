use mcp_ssh_sessions::decode::{
    classify_line, decode_lines, is_white_space, parse_exit_code, trim_line_end, DecodeStep, LineKind,
    ProtocolError, ResponseDecoder, MAX_OUTPUT_LINES,
};

fn stream_lines(text: &str) -> Vec<String> {
    text.split_inclusive('\n').map(|l| l.to_string()).collect()
}

#[test]
fn decode_single_line_output() {
    let r = decode_lines(&stream_lines("hello\n<<<EXIT:0>>>\n"));
    assert_eq!(r, Ok(("hello".to_string(), 0)));
}

#[test]
fn decode_multi_line_output() {
    let r = decode_lines(&stream_lines("line1\nline2\n<<<EXIT:7>>>\n"));
    assert_eq!(r, Ok(("line1\nline2".to_string(), 7)));
}

#[test]
fn decode_without_sentinel_is_desync() {
    let r = decode_lines(&stream_lines("partial\noutput\n"));
    assert_eq!(r, Err(ProtocolError::UnexpectedEof { lines_read: 2 }));
    let r = decode_lines(&Vec::new());
    assert_eq!(r, Err(ProtocolError::UnexpectedEof { lines_read: 0 }));
}

#[test]
fn decode_malformed_exit_code() {
    let r = decode_lines(&stream_lines("x\n<<<EXIT:abc>>>\n"));
    assert_eq!(
        r,
        Err(ProtocolError::MalformedExitCode { lines_read: 2, payload: "abc".to_string() })
    );
    let r = decode_lines(&stream_lines("<<<EXIT:5\n"));
    assert_eq!(
        r,
        Err(ProtocolError::MalformedExitCode { lines_read: 1, payload: "5".to_string() })
    );
}

#[test]
fn decode_empty_output_and_negative_code() {
    let r = decode_lines(&stream_lines("<<<EXIT:-3>>>\r\n"));
    assert_eq!(r, Ok((String::new(), -3)));
}

#[test]
fn decode_stops_at_sentinel() {
    let r = decode_lines(&stream_lines("a\n<<<EXIT:1>>>\nleftover\n"));
    assert_eq!(r, Ok(("a".to_string(), 1)));
}

#[test]
fn decode_trims_trailing_white_space() {
    let r = decode_lines(&stream_lines("a  \t\r\n  b\n<<<EXIT:2>>>  \n"));
    assert_eq!(r, Ok(("a\n  b".to_string(), 2)));
    assert_eq!(trim_line_end("keep \u{3000}\n"), "keep");
    assert_eq!(trim_line_end("   "), "");
}

#[test]
fn too_many_lines_is_desync() {
    let mut dec = ResponseDecoder::new();
    for _ in 0..MAX_OUTPUT_LINES {
        assert_eq!(dec.feed_line("out\n"), DecodeStep::Pending);
    }
    assert_eq!(dec.lines_read(), MAX_OUTPUT_LINES);
    assert_eq!(
        dec.feed_line("one too many\n"),
        DecodeStep::Failed(ProtocolError::TooManyLines { lines_read: MAX_OUTPUT_LINES + 1 })
    );
    assert_eq!(dec.lines_read(), 0);
}

#[test]
fn decoder_is_reusable_after_a_response() {
    let mut dec = ResponseDecoder::new();
    assert_eq!(dec.feed_line("first\n"), DecodeStep::Pending);
    assert_eq!(
        dec.feed_line("<<<EXIT:0>>>\n"),
        DecodeStep::Complete { output: "first".to_string(), exit_code: 0 }
    );
    assert_eq!(dec.finish_eof(), ProtocolError::UnexpectedEof { lines_read: 0 });
}

#[test]
fn parses_exit_codes() {
    assert_eq!(parse_exit_code("0"), Some(0));
    assert_eq!(parse_exit_code("127"), Some(127));
    assert_eq!(parse_exit_code("+5"), Some(5));
    assert_eq!(parse_exit_code("-1"), Some(-1));
    assert_eq!(parse_exit_code("2147483647"), Some(i32::MAX));
    assert_eq!(parse_exit_code("-2147483648"), Some(i32::MIN));
    assert_eq!(parse_exit_code("2147483648"), None);
    assert_eq!(parse_exit_code("99999999999999999999"), None);
    assert_eq!(parse_exit_code(""), None);
    assert_eq!(parse_exit_code("-"), None);
    assert_eq!(parse_exit_code("1a"), None);
    assert_eq!(parse_exit_code(" 1"), None);
}

#[test]
fn classifies_lines() {
    assert_eq!(classify_line("hello"), LineKind::Output);
    assert_eq!(classify_line("<<<EXIT:42>>>"), LineKind::Exit(42));
    assert_eq!(classify_line("<<<EXIT:>>>"), LineKind::Malformed);
    assert_eq!(classify_line("x<<<EXIT:1>>>"), LineKind::Output);
}

#[test]
fn white_space_agrees_with_std() {
    for c in (0u32..=0x10FFFF).filter_map(char::from_u32) {
        assert_eq!(is_white_space(c), c.is_whitespace(), "{:?}", c);
    }
}
