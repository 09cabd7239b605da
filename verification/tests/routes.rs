use httpcore::handler::{handle_request, complete_body, file_get_response, Step};

fn respond_bytes(step: Step) -> Vec<u8> {
    match step {
        Step::Respond(r) => r,
        _ => panic!("expected an immediate response"),
    }
}

#[test]
fn echo_plain_body_is_byte_identical() {
    let buf = b"GET /echo/abc HTTP/1.1\r\nHost: localhost\r\n\r\n".to_vec();
    let r = respond_bytes(handle_request(&buf));
    assert_eq!(
        r,
        b"HTTP/1.1 200 OK\r\nContent-Type: text/plain\r\nContent-Length: 3\r\n\r\nabc".to_vec()
    );
}

#[test]
fn echo_does_not_url_decode() {
    let buf = b"GET /echo/a%20b HTTP/1.1\r\n\r\n".to_vec();
    let r = respond_bytes(handle_request(&buf));
    assert_eq!(
        r,
        b"HTTP/1.1 200 OK\r\nContent-Type: text/plain\r\nContent-Length: 5\r\n\r\na%20b".to_vec()
    );
}

#[test]
fn root_answers_bare_200() {
    let buf = b"GET / HTTP/1.1\r\n\r\n".to_vec();
    let r = respond_bytes(handle_request(&buf));
    assert_eq!(r, b"HTTP/1.1 200 OK\r\n\r\n".to_vec());
}

#[test]
fn user_agent_is_reflected() {
    let buf = b"GET /user-agent HTTP/1.1\r\nUser-Agent: foo/1.0\r\n\r\n".to_vec();
    let r = respond_bytes(handle_request(&buf));
    assert_eq!(
        r,
        b"HTTP/1.1 200 OK\r\nContent-Type: text/plain\r\nContent-Length: 7\r\n\r\nfoo/1.0".to_vec()
    );
}

#[test]
fn user_agent_lookup_is_case_insensitive() {
    let buf = b"GET /user-agent HTTP/1.1\r\nuSeR-aGeNt: curl/8\r\n\r\n".to_vec();
    let r = respond_bytes(handle_request(&buf));
    assert_eq!(
        r,
        b"HTTP/1.1 200 OK\r\nContent-Type: text/plain\r\nContent-Length: 6\r\n\r\ncurl/8".to_vec()
    );
}

#[test]
fn user_agent_absent_gives_empty_body() {
    let buf = b"GET /user-agent HTTP/1.1\r\nHost: x\r\n\r\n".to_vec();
    let r = respond_bytes(handle_request(&buf));
    assert_eq!(
        r,
        b"HTTP/1.1 200 OK\r\nContent-Type: text/plain\r\nContent-Length: 0\r\n\r\n".to_vec()
    );
}

#[test]
fn unknown_route_is_404() {
    let buf = b"GET /unknown/route HTTP/1.1\r\n\r\n".to_vec();
    let r = respond_bytes(handle_request(&buf));
    assert_eq!(r, b"HTTP/1.1 404 Not Found\r\n\r\n".to_vec());
}

#[test]
fn unsupported_method_is_405() {
    let buf = b"DELETE /files/x HTTP/1.1\r\n\r\n".to_vec();
    let r = respond_bytes(handle_request(&buf));
    assert_eq!(r, b"HTTP/1.1 405 Method Not Allowed\r\n\r\n".to_vec());
}

#[test]
fn post_outside_files_is_405() {
    let buf = b"POST /echo/abc HTTP/1.1\r\nContent-Length: 1\r\n\r\nx".to_vec();
    let r = respond_bytes(handle_request(&buf));
    assert_eq!(r, b"HTTP/1.1 405 Method Not Allowed\r\n\r\n".to_vec());
}

#[test]
fn empty_request_closes_the_connection() {
    let buf = Vec::new();
    assert!(matches!(handle_request(&buf), Step::Close));
}

#[test]
fn request_line_with_one_token_closes() {
    let buf = b"GET\r\n\r\n".to_vec();
    assert!(matches!(handle_request(&buf), Step::Close));
}

#[test]
fn get_file_asks_for_the_named_file() {
    let buf = b"GET /files/report.txt HTTP/1.1\r\n\r\n".to_vec();
    match handle_request(&buf) {
        Step::ReadFile { name, accept_gzip } => {
            assert_eq!(name, b"report.txt".to_vec());
            assert!(!accept_gzip);
        }
        _ => panic!("expected a file read"),
    }
}

#[test]
fn missing_file_answers_404_with_no_body() {
    let r = file_get_response(None, false);
    assert_eq!(r, b"HTTP/1.1 404 Not Found\r\n\r\n".to_vec());
    let r = file_get_response(None, true);
    assert_eq!(r, b"HTTP/1.1 404 Not Found\r\n\r\n".to_vec());
}

#[test]
fn upload_then_download_round_trip() {
    // The served directory simulated as (name, contents) pairs.
    let mut dir: Vec<(Vec<u8>, Vec<u8>)> = Vec::new();
    let post = b"POST /files/report.txt HTTP/1.1\r\nContent-Length: 11\r\n\r\nhello world".to_vec();
    match handle_request(&post) {
        Step::WriteFile { name, body } => {
            assert_eq!(name, b"report.txt".to_vec());
            assert_eq!(body, b"hello world".to_vec());
            dir.retain(|e| e.0 != name);
            dir.push((name, body));
        }
        _ => panic!("expected an immediate write"),
    }
    let get = b"GET /files/report.txt HTTP/1.1\r\n\r\n".to_vec();
    match handle_request(&get) {
        Step::ReadFile { name, accept_gzip } => {
            let found = dir.iter().find(|e| e.0 == name).map(|e| e.1.clone());
            let r = file_get_response(found.as_ref(), accept_gzip);
            assert_eq!(
                r,
                b"HTTP/1.1 200 OK\r\nContent-Type: application/octet-stream\r\nContent-Length: 11\r\n\r\nhello world".to_vec()
            );
        }
        _ => panic!("expected a file read"),
    }
}

#[test]
fn repeated_upload_leaves_the_body_once() {
    let post = b"POST /files/x.txt HTTP/1.1\r\nContent-Length: 5\r\n\r\nhello".to_vec();
    let mut dir: Vec<(Vec<u8>, Vec<u8>)> = Vec::new();
    for _ in 0..2 {
        match handle_request(&post) {
            Step::WriteFile { name, body } => {
                dir.retain(|e| e.0 != name);
                dir.push((name, body));
            }
            _ => panic!("expected an immediate write"),
        }
    }
    assert_eq!(dir.len(), 1);
    assert_eq!(dir[0].1, b"hello".to_vec());
}

#[test]
fn partial_body_is_demanded_up_to_content_length() {
    let post = b"POST /files/big.bin HTTP/1.1\r\nContent-Length: 10\r\n\r\nabc".to_vec();
    match handle_request(&post) {
        Step::NeedBody { name, prefix, need } => {
            assert_eq!(name, b"big.bin".to_vec());
            assert_eq!(prefix, b"abc".to_vec());
            assert_eq!(need, 7);
            let extra = b"defghij".to_vec();
            let body = complete_body(prefix, &extra);
            assert_eq!(body.len(), 10);
            assert_eq!(body, b"abcdefghij".to_vec());
        }
        _ => panic!("expected a demand for more body bytes"),
    }
}

#[test]
fn upload_with_unterminated_headers_closes() {
    let post = b"POST /files/x HTTP/1.1\r\nContent-Length: 3".to_vec();
    assert!(matches!(handle_request(&post), Step::Close));
}

#[test]
fn files_route_with_empty_name_is_a_name() {
    let buf = b"GET /files/ HTTP/1.1\r\n\r\n".to_vec();
    match handle_request(&buf) {
        Step::ReadFile { name, .. } => assert_eq!(name, Vec::<u8>::new()),
        _ => panic!("expected a file read"),
    }
}
