use axum::http::{header, HeaderMap, HeaderValue};
use ccs_proxy::auth::{non_empty_header, AuthHeaderCache};

const CHATGPT_ACCOUNT_ID_HEADER: &str = "chatgpt-account-id";

#[test]
fn auth_header_cache_replays_observed_headers() {
    let mut cache = AuthHeaderCache::default();
    let mut first_headers = HeaderMap::new();
    first_headers.insert(header::AUTHORIZATION, HeaderValue::from_static("Bearer token-1"));
    first_headers.insert(CHATGPT_ACCOUNT_ID_HEADER, HeaderValue::from_static("account-1"));

    let first_state = cache.apply(&mut first_headers);

    assert!(first_state.authorization_present);
    assert!(!first_state.authorization_injected);
    assert!(first_state.chatgpt_account_id_present);
    assert!(!first_state.chatgpt_account_id_injected);

    let mut second_headers = HeaderMap::new();
    let second_state = cache.apply(&mut second_headers);

    assert!(!second_state.authorization_present);
    assert!(second_state.authorization_injected);
    assert!(!second_state.chatgpt_account_id_present);
    assert!(second_state.chatgpt_account_id_injected);
    assert_eq!(second_headers.get(header::AUTHORIZATION).unwrap(), "Bearer token-1");
    assert_eq!(second_headers.get(CHATGPT_ACCOUNT_ID_HEADER).unwrap(), "account-1");
}

#[test]
fn auth_header_cache_does_not_pair_new_authorization_with_old_account_id() {
    let mut cache = AuthHeaderCache::default();
    let mut first_headers = HeaderMap::new();
    first_headers.insert(header::AUTHORIZATION, HeaderValue::from_static("Bearer token-1"));
    first_headers.insert(CHATGPT_ACCOUNT_ID_HEADER, HeaderValue::from_static("account-1"));
    cache.apply(&mut first_headers);

    let mut changed_headers = HeaderMap::new();
    changed_headers.insert(header::AUTHORIZATION, HeaderValue::from_static("Bearer token-2"));
    cache.apply(&mut changed_headers);

    let mut replay_headers = HeaderMap::new();
    let replay_state = cache.apply(&mut replay_headers);

    assert!(replay_state.authorization_injected);
    assert!(!replay_state.chatgpt_account_id_injected);
    assert_eq!(replay_headers.get(header::AUTHORIZATION).unwrap(), "Bearer token-2");
    assert!(!replay_headers.contains_key(CHATGPT_ACCOUNT_ID_HEADER));
}

#[test]
fn new_cache_adds_nothing() {
    let mut cache = AuthHeaderCache::new();
    let mut headers = HeaderMap::new();
    headers.insert("x-other", HeaderValue::from_static("other"));
    let state = cache.apply(&mut headers);
    assert!(!state.authorization_effective());
    assert!(!state.chatgpt_account_id_effective());
    assert_eq!(headers.len(), 1);
}

#[test]
fn same_authorization_keeps_the_account() {
    let mut cache = AuthHeaderCache::new();
    let mut first = HeaderMap::new();
    first.insert(header::AUTHORIZATION, HeaderValue::from_static("Bearer token"));
    first.insert(CHATGPT_ACCOUNT_ID_HEADER, HeaderValue::from_static("account"));
    cache.apply(&mut first);
    let mut second = HeaderMap::new();
    second.insert(header::AUTHORIZATION, HeaderValue::from_static("Bearer token"));
    let state = cache.apply(&mut second);
    assert!(state.authorization_effective() && state.chatgpt_account_id_effective());
    assert!(state.chatgpt_account_id_injected);
    assert_eq!(second.get(CHATGPT_ACCOUNT_ID_HEADER).unwrap(), "account");
}

#[test]
fn first_authorization_is_not_paired_with_an_older_account() {
    let mut cache = AuthHeaderCache::new();
    let mut first = HeaderMap::new();
    first.insert(CHATGPT_ACCOUNT_ID_HEADER, HeaderValue::from_static("account-1"));
    cache.apply(&mut first);
    let mut second = HeaderMap::new();
    second.insert(header::AUTHORIZATION, HeaderValue::from_static("Bearer token-1"));
    let state = cache.apply(&mut second);
    assert!(!state.chatgpt_account_id_injected);
    assert_eq!(second.len(), 1);
    assert_eq!(second.get(header::AUTHORIZATION).unwrap(), "Bearer token-1");
    let mut third = HeaderMap::new();
    cache.apply(&mut third);
    assert!(!third.contains_key(CHATGPT_ACCOUNT_ID_HEADER));
}

#[test]
fn account_alone_is_remembered() {
    let mut cache = AuthHeaderCache::new();
    let mut first = HeaderMap::new();
    first.insert(CHATGPT_ACCOUNT_ID_HEADER, HeaderValue::from_static("account-1"));
    cache.apply(&mut first);
    let mut second = HeaderMap::new();
    let state = cache.apply(&mut second);
    assert!(state.chatgpt_account_id_injected);
    assert_eq!(second.get(CHATGPT_ACCOUNT_ID_HEADER).unwrap(), "account-1");
}

#[test]
fn empty_login_headers_count_as_missing() {
    let mut cache = AuthHeaderCache::new();
    let mut first = HeaderMap::new();
    first.insert(header::AUTHORIZATION, HeaderValue::from_static("Bearer token"));
    cache.apply(&mut first);
    let mut second = HeaderMap::new();
    second.append(header::AUTHORIZATION, HeaderValue::from_static(""));
    second.append(header::AUTHORIZATION, HeaderValue::from_static("Bearer other"));
    let state = cache.apply(&mut second);
    assert!(!state.authorization_present && state.authorization_injected);
    assert_eq!(second.get_all(header::AUTHORIZATION).iter().count(), 1);
    assert_eq!(second.get(header::AUTHORIZATION).unwrap(), "Bearer token");
}

#[test]
fn last_seen_values_win() {
    let mut cache = AuthHeaderCache::new();
    for number in 1..=3 {
        let mut headers = HeaderMap::new();
        let token = format!("Bearer {number}");
        headers.insert(header::AUTHORIZATION, HeaderValue::from_str(&token).unwrap());
        headers.insert(CHATGPT_ACCOUNT_ID_HEADER, HeaderValue::from_static("account"));
        cache.apply(&mut headers);
        assert_eq!(headers.get(header::AUTHORIZATION).unwrap(), token.as_str());
    }
    let mut headers = HeaderMap::new();
    cache.apply(&mut headers);
    assert_eq!(headers.get(header::AUTHORIZATION).unwrap(), "Bearer 3");
}

#[test]
fn first_value_decides_whether_a_header_is_empty() {
    let first = |headers: &HeaderMap| non_empty_header(headers, "x-a").map(|value| value.bytes);
    let mut headers = HeaderMap::new();
    assert_eq!(first(&headers), None);
    headers.append("x-a", HeaderValue::from_static(""));
    headers.append("x-a", HeaderValue::from_static("b"));
    assert_eq!(first(&headers), None);
    headers.insert("x-a", HeaderValue::from_static("c"));
    headers.append("x-a", HeaderValue::from_static(""));
    assert_eq!(first(&headers), Some(b"c".to_vec()));
}

#[test]
fn sensitive_values_stay_sensitive() {
    let mut cache = AuthHeaderCache::new();
    let mut token = HeaderValue::from_static("Bearer token");
    token.set_sensitive(true);
    let mut first = HeaderMap::new();
    first.insert(header::AUTHORIZATION, token);
    first.insert(CHATGPT_ACCOUNT_ID_HEADER, HeaderValue::from_static("account"));
    cache.apply(&mut first);
    let mut second = HeaderMap::new();
    cache.apply(&mut second);
    assert!(second.get(header::AUTHORIZATION).unwrap().is_sensitive());
    assert!(!second.get(CHATGPT_ACCOUNT_ID_HEADER).unwrap().is_sensitive());
    let mut third = HeaderMap::new();
    third.insert(header::AUTHORIZATION, HeaderValue::from_static("Bearer token"));
    cache.apply(&mut third);
    assert_eq!(third.get(CHATGPT_ACCOUNT_ID_HEADER).unwrap(), "account");
}
