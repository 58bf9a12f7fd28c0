//! Promises on WebSockets.
use axum::http::HeaderMap;
use vstd::prelude::*;

use crate::error::ProxyError;
use crate::guarantees::headers::{has_sendable_host, is_end_to_end, lemma_end_to_end, travels_if};
use crate::guarantees::proxy::{is_websocket_request, lemma_websocket_request};
use crate::headers::header_values;
use crate::upstream::UpstreamUrl;
use crate::websocket::{
    build_upstream_websocket_request, client_request, overlay_headers, to_axum_ws_message,
    to_tungstenite_message, websocket_handshake_error_response, DownstreamMessage, ProxyResponse,
    UpstreamMessage,
};

verus! {

/// Whether two messages are the same, on either side of the proxy: a message of the same kind with
/// the same content.
pub open spec fn same_message(client: DownstreamMessage, upstream: UpstreamMessage) -> bool {
    match client {
        DownstreamMessage::Text(text) => upstream matches UpstreamMessage::Text(other) && text@
            == other@,
        DownstreamMessage::Binary(bytes) => upstream matches UpstreamMessage::Binary(other)
            && bytes@ == other@,
        DownstreamMessage::Ping(bytes) => upstream matches UpstreamMessage::Ping(other) && bytes@
            == other@,
        DownstreamMessage::Pong(bytes) => upstream matches UpstreamMessage::Pong(other) && bytes@
            == other@,
        DownstreamMessage::Close(None) => upstream matches UpstreamMessage::Close(None),
        DownstreamMessage::Close(Some(frame)) => upstream matches UpstreamMessage::Close(Some(other))
            && frame.code == other.code && frame.reason@ == other.reason@,
    }
}

/// Every message of the client goes upstream as the same message.
pub proof fn client_messages_go_upstream(message: DownstreamMessage, res: UpstreamMessage)
    requires
        call_ensures(to_tungstenite_message, (message,), res),
    ensures
        same_message(message, res),
{
}

/// Every upstream message goes to the client as the same message, but for a raw frame: the client's
/// WebSocket is closed then, with the code for an unexpected condition.
pub proof fn upstream_messages_go_to_the_client(message: UpstreamMessage, res: DownstreamMessage)
    requires
        call_ensures(to_axum_ws_message, (message,), res),
    ensures
        !(message is Frame) ==> same_message(res, message),
        message is Frame ==> (res matches DownstreamMessage::Close(Some(frame)) && frame.code == 1011
            && frame.reason@ == "unsupported raw websocket frame"@),
{
}

/// A refused handshake is handed to the client: the status if it has three digits, the headers that
/// travel from end to end, and the body if there is one.
pub proof fn refused_handshakes_are_handed_back(
    status: u16,
    headers: &HeaderMap,
    body: Option<Vec<u8>>,
    name: Seq<char>,
    res: ProxyResponse,
)
    requires
        call_ensures(websocket_handshake_error_response, (status, headers, body), res),
    ensures
        100 <= status <= 999 ==> res.status == status,
        status < 100 || status > 999 ==> res.status == 502,
        travels_if(
            header_values(res.headers),
            header_values(*headers),
            name,
            is_end_to_end(header_values(*headers), name),
        ),
        body matches Some(bytes) ==> res.body@ == bytes@,
        body is None ==> res.body@.len() == 0,
{
    lemma_end_to_end(header_values(*headers), name);
}

/// Headers that are laid over others replace them: each of their names has its last value and no
/// other, and every other name stays as it is.
pub proof fn overlaid_headers_replace_others(
    base: &mut HeaderMap,
    more: &HeaderMap,
    name: Seq<char>,
)
    requires
        call_ensures(overlay_headers, (base, more), ()),
    ensures
        ({
            let before = header_values(*old(base));
            let after = header_values(*final(base));
            let top = header_values(*more);
            &&& after.dom().contains(name) == (before.dom().contains(name) || top.dom().contains(
                name,
            ))
            &&& top.dom().contains(name) ==> after[name] == seq![top[name].last()]
            &&& !top.dom().contains(name) && before.dom().contains(name) ==> after[name]
                == before[name]
        }),
{
}

/// The upstream request for a client's WebSocket carries the client's headers under what a
/// WebSocket client has to send. It fails if the URL cannot be asked for a WebSocket, or if the
/// base URL has no host that can be sent; each with its own error.
pub proof fn websocket_requests_are_made(
    upstream_url: &str,
    downstream_headers: &HeaderMap,
    upstream_base_url: &UpstreamUrl,
    name: Seq<char>,
    res: Result<HeaderMap, ProxyError>,
)
    requires
        call_ensures(
            build_upstream_websocket_request,
            (upstream_url, downstream_headers, upstream_base_url),
            res,
        ),
    ensures
        client_request(upstream_url@) matches Err(text) ==> (
        res matches Err(ProxyError::Request(reason)) && reason@ == text),
        client_request(upstream_url@) is Ok && upstream_base_url@.host is None ==> (
        res matches Err(error) && error is MissingHost),
        client_request(upstream_url@) is Ok && upstream_base_url@.host is Some
            && !has_sendable_host(upstream_base_url@) ==> (res matches Err(error)
            && error is InvalidHost),
        client_request(upstream_url@) is Ok && has_sendable_host(upstream_base_url@) ==> (
        res matches Ok(sent) && is_websocket_request(
            header_values(sent),
            header_values(*downstream_headers),
            upstream_base_url@,
            name,
        )),
{
    lemma_websocket_request(
        upstream_url@,
        header_values(*downstream_headers),
        upstream_base_url@,
        name,
        res,
    );
}

} // verus!
