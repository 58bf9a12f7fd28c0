use axum::http::{HeaderMap, HeaderValue};
use ccs_proxy::auth::AuthHeaderCache;
use ccs_proxy::proxy::{
    healthz, proxy_handler, proxy_http, read_failed, send_failed, upgrade_rejected,
    websocket_connected, Action, ClientRequest, Connection, ConnectionStep, ProxyConfig,
};
use ccs_proxy::upstream::{RequestTarget, UpstreamUrl};
use ccs_proxy::websocket::{
    build_upstream_websocket_request, overlay_headers, to_axum_ws_message, to_tungstenite_message,
    websocket_handshake_error_response, CloseFrame, DownstreamMessage, UpstreamMessage,
};

fn config(url: &str, prefix: &str) -> ProxyConfig {
    ProxyConfig {
        listen: "127.0.0.1:0".to_string(),
        upstream_base_url: UpstreamUrl::parse(url).unwrap(),
        upstream_prefix: prefix.to_string(),
    }
}

fn request(method: &str, path: &str, query: Option<&str>, headers: HeaderMap) -> ClientRequest {
    ClientRequest {
        method: method.to_string(),
        target: RequestTarget { path: path.to_string(), query: query.map(str::to_string) },
        headers,
    }
}

fn headers(list: &[(&'static str, &'static str)]) -> HeaderMap {
    let mut headers = HeaderMap::new();
    for (name, value) in list {
        headers.append(*name, HeaderValue::from_static(value));
    }
    headers
}

fn websocket_headers() -> HeaderMap {
    headers(&[
        ("host", "localhost:8000"),
        ("connection", "Upgrade"),
        ("upgrade", "websocket"),
        ("sec-websocket-key", "dGhlIHNhbXBsZSBub25jZQ=="),
        ("sec-websocket-version", "13"),
        ("x-test", "yes"),
    ])
}

fn reply(action: Action) -> (u16, String) {
    match action {
        Action::Reply(answer) => (answer.status, answer.body),
        _ => panic!("no reply"),
    }
}

#[test]
fn healthz_is_local() {
    let response = healthz();
    assert_eq!(response.status, 200);
    assert_eq!(response.body.as_bytes(), b"ok\n");
}

#[test]
fn http_request_is_sent_with_method_path_query_and_headers() {
    let config = config("http://127.0.0.1:9/", "/api");
    let mut cache = AuthHeaderCache::new();
    let request = request("POST", "/echo", Some("name=codex"), headers(&[("x-test", "yes")]));
    match proxy_handler(&config, &mut cache, request) {
        Action::SendHttp { method, url, headers, forward_body, auth } => {
            assert_eq!(method, "POST");
            assert_eq!(url, "http://127.0.0.1:9/api/echo?name=codex");
            assert_eq!(headers.get("x-test").unwrap(), "yes");
            assert_eq!(headers.get("host").unwrap(), "127.0.0.1:9");
            assert_eq!(headers.len(), 2);
            assert!(forward_body);
            assert!(!auth.authorization_effective());
        }
        _ => panic!("not sent"),
    }
}

#[test]
fn http_request_gets_cached_login_headers() {
    let config = config("http://127.0.0.1:9", "/api");
    let mut cache = AuthHeaderCache::new();
    let first = headers(&[("authorization", "Bearer token-1"), ("chatgpt-account-id", "account-1")]);
    proxy_handler(&config, &mut cache, request("GET", "/echo", None, first));
    match proxy_handler(&config, &mut cache, request("GET", "/echo", None, HeaderMap::new())) {
        Action::SendHttp { headers, forward_body, auth, .. } => {
            assert_eq!(headers.get("authorization").unwrap(), "Bearer token-1");
            assert_eq!(headers.get("chatgpt-account-id").unwrap(), "account-1");
            assert!(auth.authorization_injected && auth.chatgpt_account_id_injected);
            assert!(!forward_body);
        }
        _ => panic!("not sent"),
    }
}

#[test]
fn websocket_request_gets_cached_login_headers() {
    let config = config("https://example.com", "/up");
    let mut cache = AuthHeaderCache::new();
    let first = headers(&[("authorization", "Bearer token-1"), ("chatgpt-account-id", "account-1")]);
    proxy_handler(&config, &mut cache, request("GET", "/echo", None, first));
    match proxy_handler(&config, &mut cache, request("GET", "/ws", None, websocket_headers())) {
        Action::ConnectWebSocket { url, headers, auth } => {
            assert_eq!(url, "wss://example.com/up/ws");
            assert_eq!(headers.get("host").unwrap(), "example.com");
            assert_eq!(headers.get("authorization").unwrap(), "Bearer token-1");
            assert_eq!(headers.get("chatgpt-account-id").unwrap(), "account-1");
            assert_eq!(headers.get("x-test").unwrap(), "yes");
            assert_eq!(headers.get("upgrade").unwrap(), "websocket");
            assert_eq!(headers.get("sec-websocket-key").unwrap(), "dGhlIHNhbXBsZSBub25jZQ==");
            assert!(auth.authorization_injected);
        }
        _ => panic!("not connected"),
    }
}

#[test]
fn requests_that_cannot_be_made_are_answered() {
    let mut cache = AuthHeaderCache::new();
    let no_host = config("data:text", "");
    let answer = reply(proxy_handler(&no_host, &mut cache, request("GET", "/a", None, HeaderMap::new())));
    assert_eq!(answer, (502, "upstream request failed: upstream base url is missing host\n".to_string()));
    let answer = reply(proxy_handler(&no_host, &mut cache, request("GET", "/a", None, websocket_headers())));
    assert_eq!(
        answer,
        (502, "invalid upstream websocket url: unsupported upstream scheme `data`\n".to_string())
    );
    let usual = config("https://example.com", "");
    let long = format!("/{}", "a".repeat(70_000));
    let answer = reply(proxy_handler(&usual, &mut cache, request("GET", &long, None, websocket_headers())));
    assert_eq!(answer.0, 502);
    assert!(answer.1.starts_with("invalid upstream websocket request: "), "{}", answer.1);
}

#[test]
fn login_headers_of_a_failed_request_are_remembered() {
    let mut cache = AuthHeaderCache::new();
    let seen = headers(&[("authorization", "Bearer token-1")]);
    proxy_handler(&config("data:text", ""), &mut cache, request("GET", "/a", None, seen));
    let mut later = HeaderMap::new();
    cache.apply(&mut later);
    assert_eq!(later.get("authorization").unwrap(), "Bearer token-1");
}

#[test]
fn refused_websocket_is_passed_on() {
    let upstream = headers(&[("x-reason", "no"), ("connection", "close"), ("content-length", "2")]);
    let connection =
        Connection::Refused { status: 404, headers: upstream, body: Some(b"no".to_vec()) };
    match websocket_connected(connection) {
        ConnectionStep::Respond(response) => {
            assert_eq!(response.status, 404);
            assert_eq!(response.body, b"no");
            assert_eq!(response.headers.get("x-reason").unwrap(), "no");
            assert!(!response.headers.contains_key("connection"));
        }
        _ => panic!("not passed on"),
    }
    let response = websocket_handshake_error_response(1000, &HeaderMap::new(), None);
    assert_eq!((response.status, response.body.len()), (502, 0));
    let response = websocket_handshake_error_response(99, &HeaderMap::new(), None);
    assert_eq!(response.status, 502);
}

#[test]
fn failed_websocket_is_answered() {
    assert!(matches!(websocket_connected(Connection::Connected), ConnectionStep::Upgrade));
    match websocket_connected(Connection::Failed("refused".to_string())) {
        ConnectionStep::Reply(answer) => {
            assert_eq!(answer.status, 502);
            assert_eq!(answer.body, "failed to connect upstream websocket: refused\n");
        }
        _ => panic!("not answered"),
    }
    let answer = upgrade_rejected("no key");
    assert_eq!((answer.status, answer.body.as_str()), (400, "invalid websocket upgrade request: no key\n"));
}

#[test]
fn only_successful_responses_are_streamed() {
    let upstream = headers(&[("x-a", "1"), ("transfer-encoding", "chunked")]);
    for (status, streamed) in [(199, false), (200, true), (299, true), (300, false), (404, false)] {
        let head = proxy_http(status, &upstream);
        assert_eq!(head.status, status);
        assert_eq!(head.stream_body, streamed);
        assert_eq!(head.headers, headers(&[("x-a", "1")]));
    }
}

#[test]
fn upstream_failures_are_answered_with_their_causes() {
    let causes = vec!["one".to_string(), "two".to_string()];
    let answer = send_failed("http://a/", &causes);
    assert_eq!(answer.status, 502);
    assert_eq!(
        answer.body,
        "upstream request failed: failed to send upstream request to http://a/: one: two\n"
    );
    let answer = read_failed("http://a/", &vec![]);
    assert_eq!(
        answer.body,
        "upstream request failed: failed to read upstream error response body from http://a/\n"
    );
}

#[test]
fn client_handshake_has_its_own_headers() {
    let base = UpstreamUrl::parse("http://example.com:81").unwrap();
    let mut client = websocket_headers();
    client.remove("sec-websocket-key");
    client.append("x-many", HeaderValue::from_static("first"));
    client.append("x-many", HeaderValue::from_static("last"));
    let request =
        build_upstream_websocket_request("ws://user:secret@other.test:7/", &client, &base).ok().unwrap();
    assert_eq!(request.get("host").unwrap(), "example.com:81");
    assert_eq!(request.get("connection").unwrap(), "Upgrade");
    assert_eq!(request.get("upgrade").unwrap(), "websocket");
    assert_eq!(request.get("sec-websocket-version").unwrap(), "13");
    assert_eq!(request.get("sec-websocket-key").unwrap().len(), 24);
    assert_eq!(request.get_all("x-many").iter().count(), 1);
    assert_eq!(request.get("x-many").unwrap(), "last");
    assert_eq!(request.keys_len(), 7);
}

#[test]
fn unusable_websocket_url_is_an_error() {
    let base = UpstreamUrl::parse("http://example.com").unwrap();
    let error = build_upstream_websocket_request("ws:///", &HeaderMap::new(), &base).err().unwrap();
    assert!(!error.message().is_empty());
}

#[test]
fn overlaid_headers_replace_those_that_are_there() {
    let mut base = headers(&[("x-a", "1"), ("x-a", "2"), ("x-b", "3")]);
    overlay_headers(&mut base, &headers(&[("x-a", "4"), ("x-c", "5")]));
    assert_eq!(base, headers(&[("x-a", "4"), ("x-b", "3"), ("x-c", "5")]));
}

#[test]
fn messages_are_passed_on_both_ways() {
    match to_tungstenite_message(DownstreamMessage::Text("hello".to_string())) {
        UpstreamMessage::Text(text) => assert_eq!(text, "hello"),
        _ => panic!("no text"),
    }
    let frame = CloseFrame { code: 1000, reason: "bye".to_string() };
    match to_axum_ws_message(to_tungstenite_message(DownstreamMessage::Close(Some(frame)))) {
        DownstreamMessage::Close(Some(frame)) => {
            assert_eq!((frame.code, frame.reason.as_str()), (1000, "bye"));
        }
        _ => panic!("no close frame"),
    }
    match to_axum_ws_message(UpstreamMessage::Binary(vec![1, 2])) {
        DownstreamMessage::Binary(bytes) => assert_eq!(bytes, [1, 2]),
        _ => panic!("no bytes"),
    }
    match to_axum_ws_message(UpstreamMessage::Ping(vec![3])) {
        DownstreamMessage::Ping(bytes) => assert_eq!(bytes, [3]),
        _ => panic!("no ping"),
    }
    match to_tungstenite_message(DownstreamMessage::Pong(vec![4])) {
        UpstreamMessage::Pong(bytes) => assert_eq!(bytes, [4]),
        _ => panic!("no pong"),
    }
}

#[test]
fn raw_frames_close_the_websocket() {
    match to_axum_ws_message(UpstreamMessage::Frame) {
        DownstreamMessage::Close(Some(frame)) => {
            assert_eq!(frame.code, axum::extract::ws::close_code::ERROR);
            assert_eq!(frame.reason, "unsupported raw websocket frame");
        }
        _ => panic!("not closed"),
    }
}
