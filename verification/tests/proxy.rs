use forward_proxy::acceptor::{acceptor_step, next_connection_id, AcceptEvent, AcceptorAction};
use forward_proxy::auth::encode_credential;
use forward_proxy::bytes::{begins_with, split_lines, split_ws};
use forward_proxy::classify::{classify_request, RequestClass};
use forward_proxy::config::ProxyConfig;
use forward_proxy::error::ProxyError;
use forward_proxy::forward::{make_auth_header_line, prepare_forward_request};
use forward_proxy::relay::{relay_chunk, relay_step, RelayStep};
use forward_proxy::tunnel::{
    build_connect_request, evaluate_connect_response, parse_connect_target, ConnectDecision,
};
use forward_proxy::wire::established_reply_bytes;

#[test]
fn config_new_holds_values() {
    let c = ProxyConfig::new(
        String::from("0.0.0.0"),
        8118,
        String::from("squid"),
        3128,
        String::from("alice"),
        String::from("secret"),
    );
    assert_eq!(c.local_host, "0.0.0.0");
    assert_eq!(c.local_port, 8118);
    assert_eq!(c.proxy_host, "squid");
    assert_eq!(c.proxy_port, 3128);
    assert_eq!(c.proxy_user, "alice");
    assert_eq!(c.proxy_password, "secret");
}

#[test]
fn credential_token_for_alice() {
    let token = encode_credential(b"alice", b"secret");
    assert_eq!(token, b"YWxpY2U6c2VjcmV0".to_vec());
}

#[test]
fn credential_token_is_deterministic() {
    let a = encode_credential(b"alice", b"secret");
    let b = encode_credential(b"alice", b"secret");
    assert_eq!(a, b);
}

#[test]
fn credential_token_for_empty_credentials() {
    // an empty user and password still yield a valid token for ":"
    let token = encode_credential(b"", b"");
    assert_eq!(token, b"Og==".to_vec());
}

#[test]
fn classify_empty_input() {
    assert_eq!(classify_request(b""), RequestClass::Empty);
}

#[test]
fn classify_connect_prefix() {
    let req = b"CONNECT example.com:443 HTTP/1.1\r\nHost: example.com:443\r\n\r\n";
    assert_eq!(classify_request(req), RequestClass::Tunnel);
}

#[test]
fn classify_plain_request() {
    let req = b"GET http://example.com/ HTTP/1.1\r\nHost: example.com\r\n\r\n";
    assert_eq!(classify_request(req), RequestClass::Forward);
    // a prefix shorter than the CONNECT word is a forward as well
    assert_eq!(classify_request(b"CONN"), RequestClass::Forward);
}

#[test]
fn connect_target_parsed() {
    let req = b"CONNECT example.com:443 HTTP/1.1\r\nHost: example.com:443\r\n\r\n";
    let target = parse_connect_target(req).unwrap();
    assert_eq!(target, b"example.com:443".to_vec());
}

#[test]
fn connect_request_too_short_rejected() {
    // fewer than two tokens on the request line: no upstream work
    assert_eq!(
        parse_connect_target(b"CONNECT\r\n\r\n"),
        Err(ProxyError::MalformedRequest)
    );
    assert_eq!(parse_connect_target(b""), Err(ProxyError::MalformedRequest));
}

#[test]
fn connect_request_build_exact() {
    let req = build_connect_request(b"example.com:443", b"YWxpY2U6c2VjcmV0");
    let expected: &[u8] = b"CONNECT example.com:443 HTTP/1.1\r\n\
        Host: example.com:443\r\n\
        Proxy-Authorization: Basic YWxpY2U6c2VjcmV0\r\n\
        Proxy-Connection: Keep-Alive\r\n\r\n";
    assert_eq!(req, expected.to_vec());
}

#[test]
fn connect_response_closed() {
    match evaluate_connect_response(b"") {
        ConnectDecision::Closed => {}
        _ => panic!("an empty upstream reply must count as closed"),
    }
}

#[test]
fn connect_response_established() {
    let resp = b"HTTP/1.1 200 Connection established\r\n\r\n";
    match evaluate_connect_response(resp) {
        ConnectDecision::Established(reply) => {
            assert_eq!(
                reply,
                b"HTTP/1.1 200 Connection established\r\n\r\n".to_vec()
            );
        }
        _ => panic!("a reply containing 200 must establish the tunnel"),
    }
}

#[test]
fn connect_response_rejected_relays_bytes() {
    let resp = b"HTTP/1.1 407 Proxy Authentication Required\r\n\r\n";
    match evaluate_connect_response(resp) {
        ConnectDecision::Rejected(bytes) => {
            assert_eq!(bytes, resp.to_vec());
        }
        _ => panic!("a reply without 200 must be a rejection"),
    }
}

#[test]
fn established_reply_exact() {
    assert_eq!(
        established_reply_bytes(),
        b"HTTP/1.1 200 Connection established\r\n\r\n".to_vec()
    );
}

fn count_auth_lines(request: &[u8]) -> usize {
    let mut n = 0;
    for line in split_lines(request) {
        if begins_with(&line, b"Proxy-Authorization:") {
            n += 1;
        }
    }
    n
}

#[test]
fn forward_injects_header_once() {
    let req = b"GET http://example.com/ HTTP/1.1\r\nHost: example.com\r\n\r\n";
    let token = encode_credential(b"alice", b"secret");
    let out = prepare_forward_request(req, &token).unwrap();
    let expected: &[u8] = b"GET http://example.com/ HTTP/1.1\r\n\
        Host: example.com\r\n\
        Proxy-Authorization: Basic YWxpY2U6c2VjcmV0\r\n\r\n";
    assert_eq!(out, expected.to_vec());
    assert_eq!(count_auth_lines(&out), 1);
}

#[test]
fn forward_overrides_client_header() {
    let req = b"GET http://example.com/ HTTP/1.1\r\n\
        Host: example.com\r\n\
        Proxy-Authorization: Basic Zm9v\r\n\r\n";
    let token = encode_credential(b"alice", b"secret");
    let out = prepare_forward_request(req, &token).unwrap();
    let expected: &[u8] = b"GET http://example.com/ HTTP/1.1\r\n\
        Host: example.com\r\n\
        Proxy-Authorization: Basic YWxpY2U6c2VjcmV0\r\n\r\n";
    assert_eq!(out, expected.to_vec());
    assert_eq!(count_auth_lines(&out), 1);
}

#[test]
fn forward_rewrite_idempotent() {
    let req = b"GET http://example.com/ HTTP/1.1\r\nHost: example.com\r\n\r\n";
    let token = encode_credential(b"alice", b"secret");
    let once = prepare_forward_request(req, &token).unwrap();
    let twice = prepare_forward_request(&once, &token).unwrap();
    assert_eq!(twice, once);
    assert_eq!(count_auth_lines(&twice), 1);
}

#[test]
fn forward_empty_request_rejected() {
    let token = encode_credential(b"alice", b"secret");
    assert_eq!(
        prepare_forward_request(b"", &token),
        Err(ProxyError::EmptyRequest)
    );
}

#[test]
fn forward_short_request_line_rejected() {
    // fewer than three tokens on the request line: no upstream work
    let token = encode_credential(b"alice", b"secret");
    assert_eq!(
        prepare_forward_request(b"GET /\r\nHost: example.com\r\n\r\n", &token),
        Err(ProxyError::MalformedRequest)
    );
}

#[test]
fn auth_header_line_carries_token() {
    let line = make_auth_header_line(b"YWxpY2U6c2VjcmV0");
    assert_eq!(
        line,
        b"Proxy-Authorization: Basic YWxpY2U6c2VjcmV0".to_vec()
    );
}

#[test]
fn relay_chunk_is_verbatim() {
    let buf = b"abcdef";
    assert_eq!(relay_chunk(buf, 4), b"abcd".to_vec());
    assert_eq!(relay_chunk(buf, 0), Vec::<u8>::new());
    assert_eq!(relay_chunk(buf, 6), buf.to_vec());
}

#[test]
fn relay_step_decisions() {
    assert_eq!(relay_step(0, 8192), RelayStep::Finish);
    assert_eq!(relay_step(100, 8192), RelayStep::WriteAndProbe);
    assert_eq!(relay_step(8192, 8192), RelayStep::WriteAndContinue);
}

#[test]
fn acceptor_decisions() {
    assert_eq!(
        acceptor_step(false, AcceptEvent::Incoming),
        AcceptorAction::Drain
    );
    assert_eq!(
        acceptor_step(false, AcceptEvent::PollTimeout),
        AcceptorAction::Drain
    );
    assert_eq!(
        acceptor_step(true, AcceptEvent::Incoming),
        AcceptorAction::Dispatch
    );
    assert_eq!(
        acceptor_step(true, AcceptEvent::AcceptFailed),
        AcceptorAction::Backoff
    );
    assert_eq!(
        acceptor_step(true, AcceptEvent::PollTimeout),
        AcceptorAction::Poll
    );
}

#[test]
fn connection_ids_count_up() {
    assert_eq!(next_connection_id(0), 1);
    assert_eq!(next_connection_id(41), 42);
    assert_eq!(next_connection_id(u64::MAX), u64::MAX);
}

#[test]
fn split_lines_matches_text_lines() {
    let lines = split_lines(b"a\r\nb\nc");
    assert_eq!(lines, vec![b"a".to_vec(), b"b".to_vec(), b"c".to_vec()]);
    let lines = split_lines(b"\n");
    assert_eq!(lines, vec![b"".to_vec()]);
    let empty = split_lines(b"");
    assert_eq!(empty, Vec::<Vec<u8>>::new());
}

#[test]
fn split_ws_finds_tokens() {
    let toks = split_ws(b"  GET   http://example.com/  HTTP/1.1 ");
    assert_eq!(
        toks,
        vec![
            b"GET".to_vec(),
            b"http://example.com/".to_vec(),
            b"HTTP/1.1".to_vec()
        ]
    );
}
