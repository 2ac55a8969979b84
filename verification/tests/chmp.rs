use pixma::chmp::{
    body_mode, check_get_status, check_post_status, parse_chunk_size_line, BodyMode, ChmpEndpoint,
    ChunkLine, ChunkedBody, HeaderInfo,
};
use pixma::error::PixmaError;

#[test]
fn request_texts() {
    let e = ChmpEndpoint::new("192.168.0.9", None);
    assert_eq!(
        e.post_request(72),
        "POST /canon/ij/command2/port3 HTTP/1.1\r\nHost: 192.168.0.9\r\nX-CHMP-Version: 1.4.0\r\nX-CHMP-Timeout: 20\r\nContent-Type: application/octet-stream\r\nContent-Length: 72\r\nConnection: Keep-Alive\r\n\r\n"
    );
    assert_eq!(
        e.get_request(),
        "GET /canon/ij/command2/port3 HTTP/1.1\r\nHost: 192.168.0.9\r\nContent-Type: application/octet-stream\r\nConnection: Keep-Alive\r\nX-CHMP-Version: 1.4.0\r\n\r\n"
    );
    let e = ChmpEndpoint::new("h", Some("/canon/ij/command2/port1"));
    assert!(e.post_request(0).starts_with("POST /canon/ij/command2/port1 HTTP/1.1\r\nHost: h\r\n"));
    assert!(e.post_request(0).contains("Content-Length: 0\r\n"));
}

#[test]
fn status_lines() {
    assert!(check_post_status("HTTP/1.1 200 OK").is_ok());
    match check_get_status("HTTP/1.1 409 Conflict") {
        Err(PixmaError::Protocol(m)) => assert_eq!(m, "GET failed: HTTP/1.1 409 Conflict"),
        _ => panic!("expected failure"),
    }
    match check_post_status("HTTP/1.1 404") {
        Err(PixmaError::Protocol(m)) => assert_eq!(m, "POST failed: HTTP/1.1 404"),
        _ => panic!("expected failure"),
    }
}

#[test]
fn header_lines() {
    let mut h = HeaderInfo::new();
    assert!(!h.header_line("Content-Type: application/octet-stream\r\n"));
    assert!(!h.header_line("CONTENT-LENGTH:  24 \r\n"));
    assert_eq!(h.content_length, 24);
    assert!(!h.chunked);
    assert!(!h.header_line("Content-Length: nope\r\n"));
    assert_eq!(h.content_length, 0);
    assert!(!h.header_line("Transfer-Encoding: Chunked\r\n"));
    assert!(h.chunked);
    assert!(h.header_line("  \r\n"));
    assert_eq!(body_mode(&h), BodyMode::Chunked);
    assert_eq!(body_mode(&HeaderInfo { content_length: 8, chunked: false }), BodyMode::Length(8));
    assert_eq!(body_mode(&HeaderInfo::new()), BodyMode::Empty);
}

#[test]
fn chunk_size_lines() {
    assert_eq!(parse_chunk_size_line("1a2\r\n").unwrap(), ChunkLine::Data(0x1a2));
    assert_eq!(parse_chunk_size_line("0\r\n").unwrap(), ChunkLine::Last);
    assert_eq!(parse_chunk_size_line("\r\n").unwrap(), ChunkLine::Blank);
    assert_eq!(parse_chunk_size_line("+F").unwrap(), ChunkLine::Data(15));
    match parse_chunk_size_line(" zz \r\n") {
        Err(PixmaError::Protocol(m)) => assert_eq!(m, "bad chunk size 'zz': invalid digit found in string"),
        _ => panic!("expected error"),
    }
    match parse_chunk_size_line("fffffffffffffffffffff") {
        Err(PixmaError::Protocol(m)) => {
            assert_eq!(m, "bad chunk size 'fffffffffffffffffffff': number too large to fit in target type")
        }
        _ => panic!("expected error"),
    }
}

#[test]
fn status_line_trimming() {
    assert_eq!(pixma::chmp::trim_line("  HTTP/1.1 200 OK\r\n"), "HTTP/1.1 200 OK");
    assert_eq!(pixma::chmp::trim_line("\u{3000}x\u{a0}"), "x");
    assert_eq!(pixma::chmp::trim_line(" \t\r\n"), "");
}

#[test]
fn chunked_body_is_chunks_in_order() {
    let mut body = ChunkedBody::new();
    body.add_chunk(b"ab");
    body.add_chunk(b"");
    body.add_chunk(b"cde");
    assert_eq!(body.into_body(), b"abcde".to_vec());
    assert!(ChunkedBody::new().into_body().is_empty());
}
