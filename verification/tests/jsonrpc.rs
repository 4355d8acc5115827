use ret::jsonrpc::{
    dispatch_body, frame_header, parse_usize, read_message, Dispatch, FrameError, HeaderReader,
    HeaderStep, MAX_HEADER_BYTES, MAX_MESSAGE_BYTES,
};

#[test]
fn eof_finishes_without_dispatching() {
    assert_eq!(read_message(&[]), Ok(None));
}

#[test]
fn reads_additional_headers_and_consecutive_frames() {
    let first = br#"{"jsonrpc":"2.0","id":1,"method":"configure"}"#;
    let second = br#"{"jsonrpc":"2.0","id":"two","method":"configure"}"#;
    let mut wire = format!(
        "Content-Type: application/vscode-jsonrpc; charset=utf-8\r\ncontent-length:{}\r\n\r\n",
        first.len()
    )
    .into_bytes();
    wire.extend_from_slice(first);
    wire.extend_from_slice(format!("Content-Length: {}\r\n\r\n", second.len()).as_bytes());
    wire.extend_from_slice(second);
    let (body, used) = read_message(&wire).unwrap().unwrap();
    assert_eq!(body, first.to_vec());
    let (body2, used2) = read_message(&wire[used..]).unwrap().unwrap();
    assert_eq!(body2, second.to_vec());
    assert_eq!(read_message(&wire[used + used2..]), Ok(None));
}

#[test]
fn rejects_incomplete_invalid_and_oversized_frames() {
    assert_eq!(read_message(b"Content-Length: 2\r\n"), Err(FrameError::IncompleteHeader));
    assert_eq!(read_message(b"Content-Length: 2\r\n\r\n{"), Err(FrameError::IncompleteBody));
    assert_eq!(
        read_message(b"Content-Length: 1\r\nContent-Length: 1\r\n\r\nx"),
        Err(FrameError::DuplicateContentLength)
    );
    assert_eq!(read_message(b"Content-Length: invalid\r\n\r\n"), Err(FrameError::InvalidContentLength));
    assert_eq!(read_message(b"Content-Type: application/json\r\n\r\n"), Err(FrameError::MissingContentLength));
    let oversized = format!("Content-Length: {}\r\n\r\n", MAX_MESSAGE_BYTES + 1);
    assert_eq!(read_message(oversized.as_bytes()), Err(FrameError::MessageTooLarge));
    assert_eq!(read_message(&vec![b'x'; MAX_HEADER_BYTES + 1]), Err(FrameError::HeaderTooLarge));
    assert_eq!(read_message(b"no colon here\r\n"), Err(FrameError::MalformedHeader));
    assert_eq!(read_message(&[0xff, b'\n']), Err(FrameError::HeaderNotUtf8));
}

#[test]
fn written_headers_are_read_back() {
    for n in [0usize, 7, 1234, MAX_MESSAGE_BYTES] {
        let header = frame_header(n);
        assert_eq!(header, format!("Content-Length: {n}\r\n\r\n"));
        let mut reader = HeaderReader::new();
        let mut lines = header.split_inclusive('\n');
        assert_eq!(reader.on_line(lines.next().unwrap().as_bytes()), HeaderStep::Continue);
        assert_eq!(reader.on_line(lines.next().unwrap().as_bytes()), HeaderStep::Body(n));
    }
}

#[test]
fn parses_decimal_lengths_like_str_parse() {
    assert_eq!(parse_usize(&['4', '2']), Some(42));
    assert_eq!(parse_usize(&['+', '7']), Some(7));
    assert_eq!(parse_usize(&['+']), None);
    assert_eq!(parse_usize(&[]), None);
    assert_eq!(parse_usize(&['-', '1']), None);
    let huge: Vec<char> = "99999999999999999999999".chars().collect();
    assert_eq!(parse_usize(&huge), None);
}

fn methods(v: &[&str]) -> Vec<String> {
    v.iter().map(|s| s.to_string()).collect()
}

#[test]
fn unknown_notifications_are_silent_and_unknown_requests_keep_their_id() {
    let none = methods(&[]);
    assert_eq!(dispatch_body(br#"{"jsonrpc": "2.0", "method": "unknown"}"#, &none, &none), Dispatch::Ignore);
    assert_eq!(
        dispatch_body(br#"{"jsonrpc": "2.0", "id": "missing", "method": "unknown"}"#, &none, &none),
        Dispatch::Reject { with_id: true, code: -32601, message: "Method not found: unknown".to_string() }
    );
}

#[test]
fn rejects_invalid_envelopes_and_ids() {
    let requests = methods(&["configure"]);
    for message in [
        br#"{"jsonrpc": "1.0", "id": 1, "method": "configure"}"#.to_vec(),
        br#"{"jsonrpc": "2.0", "id": {}, "method": "configure"}"#.to_vec(),
        br#"{"jsonrpc": "2.0", "id": 1}"#.to_vec(),
    ] {
        match dispatch_body(&message, &requests, &vec![]) {
            Dispatch::Reject { code, .. } => assert_eq!(code, -32600),
            other => panic!("unexpected {other:?}"),
        }
    }
    assert_eq!(
        dispatch_body(b"{not json", &requests, &vec![]),
        Dispatch::Reject { with_id: false, code: -32700, message: "Parse error".to_string() }
    );
}

#[test]
fn preserves_string_large_signed_and_null_request_ids() {
    let requests = methods(&["configure"]);
    for id in ["\"request-a\"", "4294967297", "-7", "null"] {
        let body = format!(r#"{{"jsonrpc": "2.0", "id": {id}, "method": "configure"}}"#);
        assert_eq!(
            dispatch_body(body.as_bytes(), &requests, &vec![]),
            Dispatch::Request("configure".to_string())
        );
    }
}

#[test]
fn invalid_params_are_answered_only_for_requests() {
    let requests = methods(&["refresh"]);
    assert_eq!(
        dispatch_body(br#"{"jsonrpc":"2.0","id":3,"method":"refresh","params":5}"#, &requests, &vec![]),
        Dispatch::Reject { with_id: true, code: -32602, message: "Invalid params".to_string() }
    );
    assert_eq!(
        dispatch_body(br#"{"jsonrpc":"2.0","method":"refresh","params":5}"#, &requests, &vec![]),
        Dispatch::Ignore
    );
    assert_eq!(
        dispatch_body(br#"{"jsonrpc":"2.0","method":"exit"}"#, &requests, &methods(&["exit"])),
        Dispatch::Notification("exit".to_string())
    );
}
