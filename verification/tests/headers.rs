use axum::http::{header, HeaderMap, HeaderValue};
use ccs_proxy::error::ProxyError;
use ccs_proxy::forward::{
    connection_header_tokens, copy_end_to_end_headers, header_is_hop_by_hop, is_websocket_upgrade,
    proxy_request_headers, proxy_response_headers, proxy_websocket_headers,
    request_has_declared_body, request_should_forward_body, set_host_header,
};
use ccs_proxy::headers::{check_header_value, header_count, value_text};
use ccs_proxy::upstream::UpstreamUrl;

fn url(text: &str) -> UpstreamUrl {
    UpstreamUrl::parse(text).unwrap()
}

fn values(headers: &HeaderMap, name: &str) -> Vec<Vec<u8>> {
    headers.get_all(name).iter().map(|value| value.as_bytes().to_vec()).collect()
}

#[test]
fn proxy_headers_remove_hop_by_hop_and_connection_tokens() {
    let upstream = url("https://example.com:8443");
    let mut headers = HeaderMap::new();
    headers.insert(header::HOST, HeaderValue::from_static("localhost:8000"));
    headers.insert(header::CONNECTION, HeaderValue::from_static("keep-alive, x-remove-me"));
    headers.insert(header::UPGRADE, HeaderValue::from_static("websocket"));
    headers.insert(header::AUTHORIZATION, HeaderValue::from_static("Bearer token"));
    headers.insert("x-remove-me", HeaderValue::from_static("remove"));
    headers.insert("x-keep-me", HeaderValue::from_static("keep"));

    let result = proxy_request_headers(&headers, &upstream).ok().unwrap();

    assert_eq!(result.get(header::HOST).unwrap(), "example.com:8443");
    assert_eq!(result.get(header::AUTHORIZATION).unwrap(), "Bearer token");
    assert_eq!(result.get("x-keep-me").unwrap(), "keep");
    assert!(!result.contains_key(header::CONNECTION));
    assert!(!result.contains_key(header::UPGRADE));
    assert!(!result.contains_key("x-remove-me"));
}

#[test]
fn proxy_websocket_headers_keep_authorization() {
    let upstream = url("https://example.com");
    let mut headers = HeaderMap::new();
    headers.insert(header::HOST, HeaderValue::from_static("localhost:8000"));
    headers.insert(header::CONNECTION, HeaderValue::from_static("upgrade"));
    headers.insert(header::UPGRADE, HeaderValue::from_static("websocket"));
    headers.insert(header::AUTHORIZATION, HeaderValue::from_static("Bearer token"));
    headers.insert("x-keep-me", HeaderValue::from_static("keep"));

    let result = proxy_websocket_headers(&headers, &upstream).ok().unwrap();

    assert_eq!(result.get(header::HOST).unwrap(), "example.com");
    assert_eq!(result.get(header::AUTHORIZATION).unwrap(), "Bearer token");
    assert_eq!(result.get("x-keep-me").unwrap(), "keep");
    assert!(!result.contains_key(header::CONNECTION));
    assert!(!result.contains_key(header::UPGRADE));
}

#[test]
fn body_forwarding_skips_undeclared_get_and_head_bodies() {
    let headers = HeaderMap::new();
    assert!(!request_should_forward_body("GET", &headers));
    assert!(!request_should_forward_body("HEAD", &headers));
    assert!(request_should_forward_body("POST", &headers));

    let mut zero_length_headers = HeaderMap::new();
    zero_length_headers.insert(header::CONTENT_LENGTH, HeaderValue::from_static("0"));
    assert!(!request_should_forward_body("GET", &zero_length_headers));

    let mut nonzero_length_headers = HeaderMap::new();
    nonzero_length_headers.insert(header::CONTENT_LENGTH, HeaderValue::from_static("5"));
    assert!(request_should_forward_body("GET", &nonzero_length_headers));

    let mut transfer_encoding_headers = HeaderMap::new();
    transfer_encoding_headers
        .insert(header::TRANSFER_ENCODING, HeaderValue::from_static("chunked"));
    assert!(request_should_forward_body("GET", &transfer_encoding_headers));
}

#[test]
fn only_a_plain_zero_declares_no_body() {
    for (value, declared) in [
        ("0", false),
        (" 000 ", false),
        ("+0", false),
        ("5", true),
        ("", true),
        ("-0", true),
        ("0x0", true),
        ("18446744073709551616", true),
    ] {
        let mut headers = HeaderMap::new();
        headers.insert(header::CONTENT_LENGTH, HeaderValue::from_str(value).unwrap());
        assert_eq!(request_has_declared_body(&headers), declared, "{value:?}");
    }
    let mut headers = HeaderMap::new();
    headers.append(header::CONTENT_LENGTH, HeaderValue::from_static("0"));
    headers.append(header::CONTENT_LENGTH, HeaderValue::from_static("7"));
    assert!(request_has_declared_body(&headers));
    headers.insert(header::CONTENT_LENGTH, HeaderValue::from_bytes(b"\xff").unwrap());
    assert!(request_has_declared_body(&headers));
}

#[test]
fn all_values_of_a_name_are_passed_on_in_order() {
    let mut headers = HeaderMap::new();
    headers.append("set-cookie", HeaderValue::from_static("a=1"));
    headers.append("x-other", HeaderValue::from_static("other"));
    headers.append("set-cookie", HeaderValue::from_static("b=2"));
    headers.append("set-cookie", HeaderValue::from_bytes(b"c=\xfe").unwrap());
    headers.append("te", HeaderValue::from_static("trailers"));

    let result = proxy_response_headers(&headers);

    assert_eq!(header_count(&result), 2);
    assert_eq!(
        values(&result, "set-cookie"),
        [b"a=1".to_vec(), b"b=2".to_vec(), b"c=\xfe".to_vec()]
    );
    assert_eq!(values(&result, "x-other"), [b"other".to_vec()]);
}

#[test]
fn sensitive_headers_are_passed_on_as_such() {
    let mut secret = HeaderValue::from_static("secret");
    secret.set_sensitive(true);
    let mut headers = HeaderMap::new();
    headers.append("x-a", secret);
    headers.append("x-a", HeaderValue::from_static("open"));
    let result = proxy_response_headers(&headers);
    let marks: Vec<bool> = result.get_all("x-a").iter().map(HeaderValue::is_sensitive).collect();
    assert_eq!(marks, [true, false]);
}

#[test]
fn copied_headers_are_added_to_those_that_are_there() {
    let mut from = HeaderMap::new();
    from.append("x-a", HeaderValue::from_static("2"));
    from.append("host", HeaderValue::from_static("client"));
    from.append("x-gone", HeaderValue::from_static("gone"));
    from.append("connection", HeaderValue::from_static(" , X-Gone ,"));
    let mut to = HeaderMap::new();
    to.append("x-a", HeaderValue::from_static("1"));
    to.append("host", HeaderValue::from_static("upstream"));

    copy_end_to_end_headers(&from, &mut to);

    assert_eq!(values(&to, "x-a"), [b"1".to_vec(), b"2".to_vec()]);
    assert_eq!(values(&to, "host"), [b"upstream".to_vec()]);
    assert_eq!(header_count(&to), 2);
}

#[test]
fn filtering_twice_changes_nothing() {
    let mut headers = HeaderMap::new();
    headers.append("x-a", HeaderValue::from_static("1"));
    headers.append("connection", HeaderValue::from_static("close, x-b"));
    headers.append("x-b", HeaderValue::from_static("2"));
    let once = proxy_response_headers(&headers);
    let twice = proxy_response_headers(&once);
    assert_eq!(once, twice);
    assert_eq!(header_count(&once), 1);
}

#[test]
fn connection_tokens_are_trimmed_and_not_empty() {
    let mut headers = HeaderMap::new();
    headers.append("connection", HeaderValue::from_static(" Keep-Alive ,, x-one"));
    headers.append("connection", HeaderValue::from_bytes(b"x-\xff").unwrap());
    headers.append("connection", HeaderValue::from_static("\tx-two\t"));
    assert_eq!(connection_header_tokens(&headers), ["Keep-Alive", "x-one", "x-two"]);
}

#[test]
fn hop_by_hop_names_are_known_in_any_case() {
    for name in [
        "connection",
        "Keep-Alive",
        "PROXY-AUTHENTICATE",
        "proxy-authorization",
        "te",
        "trailer",
        "Transfer-Encoding",
        "upgrade",
    ] {
        assert!(header_is_hop_by_hop(name));
    }
    for name in ["host", "trailers", "x-connection", ""] {
        assert!(!header_is_hop_by_hop(name));
    }
}

#[test]
fn websocket_upgrade_needs_both_headers() {
    let mut headers = HeaderMap::new();
    assert!(!is_websocket_upgrade(&headers));
    headers.insert("upgrade", HeaderValue::from_static("WebSocket"));
    assert!(!is_websocket_upgrade(&headers));
    headers.insert("connection", HeaderValue::from_static("keep-alive, Upgrade"));
    assert!(is_websocket_upgrade(&headers));
    headers.insert("upgrade", HeaderValue::from_static("websocket, h2c"));
    assert!(!is_websocket_upgrade(&headers));
    let mut second = HeaderMap::new();
    second.append("upgrade", HeaderValue::from_static("websocket"));
    second.append("connection", HeaderValue::from_static("keep-alive"));
    second.append("connection", HeaderValue::from_static("upgrade"));
    assert!(!is_websocket_upgrade(&second));
}

#[test]
fn websocket_headers_keep_what_connection_lists() {
    let mut headers = HeaderMap::new();
    headers.append("connection", HeaderValue::from_static("upgrade, x-listed"));
    headers.append("x-listed", HeaderValue::from_static("kept"));
    let upstream = url("http://example.com:81");
    let result = proxy_websocket_headers(&headers, &upstream).ok().unwrap();
    assert_eq!(values(&result, "x-listed"), [b"kept".to_vec()]);
    assert_eq!(values(&result, "host"), [b"example.com:81".to_vec()]);
    assert_eq!(header_count(&result), 2);
}

#[test]
fn missing_host_is_an_error() {
    let mut headers = HeaderMap::new();
    headers.insert("host", HeaderValue::from_static("old"));
    let without_host = url("data:text");
    let error = set_host_header(&mut headers, &without_host).err().unwrap();
    assert!(matches!(error, ProxyError::MissingHost));
    assert_eq!(headers.get("host").unwrap(), "old");
    assert_eq!(ProxyError::InvalidHost.message(), "failed to parse header value");
    assert_eq!(ProxyError::SchemeNotSet.message(), "failed to set websocket scheme");
    assert!(set_host_header(&mut headers, &url("https://example.com")).is_ok());
    assert_eq!(headers.get("host").unwrap(), "example.com");
    assert!(proxy_request_headers(&headers, &without_host).is_err());
    assert!(proxy_websocket_headers(&headers, &without_host).is_err());
}

#[test]
fn header_values_are_checked_as_the_header_type_does() {
    for byte in 0..=255u8 {
        let value = [b'a', byte];
        assert_eq!(check_header_value(&value), HeaderValue::from_bytes(&value).is_ok());
        let text = HeaderValue::from_bytes(&value).ok().and_then(|v| v.to_str().ok().map(str::to_owned));
        if check_header_value(&value) {
            assert_eq!(value_text(&value), text);
        }
    }
}

#[test]
fn host_error_text_is_that_of_the_header_type() {
    let error = HeaderValue::from_str("a\nb").unwrap_err();
    assert_eq!(ProxyError::InvalidHost.message(), error.to_string());
}
