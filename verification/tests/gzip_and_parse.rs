use std::io::Read;

use httpcore::handler::{handle_request, file_get_response, Step};
use httpcore::parse::{parse_request, content_length, body_start};
use httpcore::negotiate::check_gzip_support;

fn respond_bytes(step: Step) -> Vec<u8> {
    match step {
        Step::Respond(r) => r,
        _ => panic!("expected an immediate response"),
    }
}

fn split_response(r: &[u8]) -> (Vec<u8>, Vec<u8>) {
    let pos = r
        .windows(4)
        .position(|w| w == b"\r\n\r\n")
        .expect("response has a header block");
    (r[..pos + 4].to_vec(), r[pos + 4..].to_vec())
}

fn gunzip(data: &[u8]) -> Vec<u8> {
    let mut d = flate2::read::GzDecoder::new(data);
    let mut out = Vec::new();
    d.read_to_end(&mut out).expect("valid gzip stream");
    out
}

#[test]
fn negotiated_gzip_compresses_and_announces() {
    let buf = b"GET /echo/hello HTTP/1.1\r\nAccept-Encoding: gzip\r\n\r\n".to_vec();
    let r = respond_bytes(handle_request(&buf));
    let (head, body) = split_response(&r);
    let head_s = String::from_utf8(head).unwrap();
    assert!(head_s.contains("Content-Encoding: gzip\r\n"));
    assert!(head_s.contains(&format!("Content-Length: {}\r\n", body.len())));
    // Decompressing must reproduce the original content byte-for-byte; this
    // also fails if compression handed the input back unchanged.
    assert_eq!(gunzip(&body), b"hello".to_vec());
    assert_ne!(body, b"hello".to_vec());
}

#[test]
fn gzip_token_found_among_others_with_whitespace() {
    let buf =
        b"GET /echo/xy HTTP/1.1\r\nAccept-Encoding: deflate ,  gzip , br\r\n\r\n".to_vec();
    let r = respond_bytes(handle_request(&buf));
    let (head, body) = split_response(&r);
    assert!(String::from_utf8(head).unwrap().contains("Content-Encoding: gzip\r\n"));
    assert_eq!(gunzip(&body), b"xy".to_vec());
}

#[test]
fn gzip_match_is_exact() {
    let buf = b"GET /echo/xy HTTP/1.1\r\nAccept-Encoding: x-gzip, gzipx\r\n\r\n".to_vec();
    let r = respond_bytes(handle_request(&buf));
    assert_eq!(
        r,
        b"HTTP/1.1 200 OK\r\nContent-Type: text/plain\r\nContent-Length: 2\r\n\r\nxy".to_vec()
    );
}

#[test]
fn gzip_match_is_case_sensitive_on_the_token() {
    let req = parse_request(&b"GET / HTTP/1.1\r\nAccept-Encoding: GZIP\r\n\r\n".to_vec()).unwrap();
    assert!(!check_gzip_support(&req.headers));
    let req = parse_request(&b"GET / HTTP/1.1\r\nACCEPT-ENCODING: gzip\r\n\r\n".to_vec()).unwrap();
    assert!(check_gzip_support(&req.headers));
}

#[test]
fn file_download_compresses_when_negotiated() {
    let contents = b"file payload bytes".to_vec();
    let r = file_get_response(Some(&contents), true);
    let (head, body) = split_response(&r);
    let head_s = String::from_utf8(head).unwrap();
    assert!(head_s.contains("Content-Type: application/octet-stream\r\n"));
    assert!(head_s.contains("Content-Encoding: gzip\r\n"));
    assert!(head_s.contains(&format!("Content-Length: {}\r\n", body.len())));
    assert_eq!(gunzip(&body), contents);
}

#[test]
fn user_agent_reflection_compresses_when_negotiated() {
    let buf =
        b"GET /user-agent HTTP/1.1\r\nUser-Agent: foo/1.0\r\nAccept-Encoding: gzip\r\n\r\n"
            .to_vec();
    let r = respond_bytes(handle_request(&buf));
    let (head, body) = split_response(&r);
    assert!(String::from_utf8(head).unwrap().contains("Content-Encoding: gzip\r\n"));
    assert_eq!(gunzip(&body), b"foo/1.0".to_vec());
}

#[test]
fn parser_splits_request_line_and_headers() {
    let buf = b"GET /echo/a HTTP/1.1\r\nHost: here\r\nX-One: two\r\n\r\nrest".to_vec();
    let req = parse_request(&buf).unwrap();
    assert_eq!(req.method, b"GET".to_vec());
    assert_eq!(req.path, b"/echo/a".to_vec());
    assert_eq!(req.headers.len(), 2);
    assert_eq!(req.headers[0].name, b"Host".to_vec());
    assert_eq!(req.headers[0].value, b"here".to_vec());
    assert_eq!(req.headers[1].name, b"X-One".to_vec());
    assert_eq!(req.headers[1].value, b"two".to_vec());
}

#[test]
fn parser_tolerates_bare_lf_and_missing_space() {
    let buf = b"GET / HTTP/1.1\nHost:close\n\n".to_vec();
    let req = parse_request(&buf).unwrap();
    assert_eq!(req.headers.len(), 1);
    assert_eq!(req.headers[0].name, b"Host".to_vec());
    assert_eq!(req.headers[0].value, b"close".to_vec());
}

#[test]
fn parser_skips_lines_without_a_colon() {
    let buf = b"GET / HTTP/1.1\r\ngarbage line\r\nGood: yes\r\n\r\n".to_vec();
    let req = parse_request(&buf).unwrap();
    assert_eq!(req.headers.len(), 1);
    assert_eq!(req.headers[0].name, b"Good".to_vec());
}

#[test]
fn parser_trims_header_values() {
    let buf = b"GET / HTTP/1.1\r\nPadded:   lots of space  \r\n\r\n".to_vec();
    let req = parse_request(&buf).unwrap();
    assert_eq!(req.headers[0].value, b"lots of space".to_vec());
}

#[test]
fn header_lines_stop_at_the_blank_line() {
    let buf = b"POST /files/a HTTP/1.1\r\nContent-Length: 4\r\n\r\nNot: a header".to_vec();
    let req = parse_request(&buf).unwrap();
    assert_eq!(req.headers.len(), 1);
}

#[test]
fn content_length_defaults_to_zero() {
    let req = parse_request(&b"POST /files/a HTTP/1.1\r\n\r\n".to_vec()).unwrap();
    assert_eq!(content_length(&req.headers), 0);
    let req =
        parse_request(&b"POST /files/a HTTP/1.1\r\nContent-Length: ten\r\n\r\n".to_vec()).unwrap();
    assert_eq!(content_length(&req.headers), 0);
    let req = parse_request(
        &b"POST /files/a HTTP/1.1\r\nContent-Length: 99999999999999999999999\r\n\r\n".to_vec(),
    )
    .unwrap();
    assert_eq!(content_length(&req.headers), 0);
}

#[test]
fn content_length_reads_the_declared_value() {
    let req =
        parse_request(&b"POST /files/a HTTP/1.1\r\ncontent-LENGTH: 042\r\n\r\n".to_vec()).unwrap();
    assert_eq!(content_length(&req.headers), 42);
}

#[test]
fn body_start_is_just_past_the_blank_line() {
    let buf = b"POST /x HTTP/1.1\r\nA: b\r\n\r\nBODY".to_vec();
    assert_eq!(body_start(&buf), Some(26));
    assert_eq!(&buf[26..], b"BODY");
    let buf = b"POST /x HTTP/1.1\r\nA: b".to_vec();
    assert_eq!(body_start(&buf), None);
}

#[test]
fn upload_keeps_captured_bytes_beyond_declared_length() {
    let post = b"POST /files/x HTTP/1.1\r\nContent-Length: 2\r\n\r\nabcd".to_vec();
    match handle_request(&post) {
        Step::WriteFile { body, .. } => assert_eq!(body, b"abcd".to_vec()),
        _ => panic!("expected an immediate write"),
    }
}
