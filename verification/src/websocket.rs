//! WebSockets: the upstream handshake, and the messages that are passed on.
use axum::http::HeaderMap;
use tokio_tungstenite::tungstenite::client::IntoClientRequest;
use vstd::prelude::*;

use crate::error::ProxyError;
use crate::forward::{
    asks_for_websocket, end_to_end, first_value_is, has_piece, host_value,
    is_hop_by_hop, proxy_response_headers, proxy_websocket_headers, websocket_request_headers,
};
use crate::headers::{
    entries, entries_of, enumerates, has_room, header_values, insert, plain_value, text_of,
    values_in, values_of, Headers, Value,
};
use crate::text::{lowered, split, trimmed, Separator};
use crate::upstream::{UpstreamUrl, UrlView};

verus! {

/// Why a WebSocket is closed.
pub struct CloseFrame {
    pub code: u16,
    pub reason: String,
}

/// A message of the upstream WebSocket.
pub enum UpstreamMessage {
    Text(String),
    Binary(Vec<u8>),
    Ping(Vec<u8>),
    Pong(Vec<u8>),
    Close(Option<CloseFrame>),
    /// A raw frame, which has no counterpart on the client's side.
    Frame,
}

/// A message of the client's WebSocket.
pub enum DownstreamMessage {
    Text(String),
    Binary(Vec<u8>),
    Ping(Vec<u8>),
    Pong(Vec<u8>),
    Close(Option<CloseFrame>),
}

/// The close code for an unexpected condition.
pub const CLOSE_CODE_ERROR: u16 = 1011;

/// A client's message as it goes upstream.
pub open spec fn sent_upstream(message: DownstreamMessage) -> UpstreamMessage {
    match message {
        DownstreamMessage::Text(text) => UpstreamMessage::Text(text),
        DownstreamMessage::Binary(bytes) => UpstreamMessage::Binary(bytes),
        DownstreamMessage::Ping(bytes) => UpstreamMessage::Ping(bytes),
        DownstreamMessage::Pong(bytes) => UpstreamMessage::Pong(bytes),
        DownstreamMessage::Close(frame) => UpstreamMessage::Close(frame),
    }
}

/// A client's message as it goes upstream.
pub fn to_tungstenite_message(message: DownstreamMessage) -> (res: UpstreamMessage)
    ensures
        res == sent_upstream(message),
{
    match message {
        DownstreamMessage::Text(text) => UpstreamMessage::Text(text),
        DownstreamMessage::Binary(bytes) => UpstreamMessage::Binary(bytes),
        DownstreamMessage::Ping(bytes) => UpstreamMessage::Ping(bytes),
        DownstreamMessage::Pong(bytes) => UpstreamMessage::Pong(bytes),
        DownstreamMessage::Close(frame) => UpstreamMessage::Close(frame),
    }
}

/// Whether `res` is what the client gets for an upstream message: the same message, or a close
/// frame with an error for a raw frame.
pub open spec fn sent_downstream(message: UpstreamMessage, res: DownstreamMessage) -> bool {
    match message {
        UpstreamMessage::Text(text) => res == DownstreamMessage::Text(text),
        UpstreamMessage::Binary(bytes) => res == DownstreamMessage::Binary(bytes),
        UpstreamMessage::Ping(bytes) => res == DownstreamMessage::Ping(bytes),
        UpstreamMessage::Pong(bytes) => res == DownstreamMessage::Pong(bytes),
        UpstreamMessage::Close(frame) => res == DownstreamMessage::Close(frame),
        UpstreamMessage::Frame => res matches DownstreamMessage::Close(Some(frame)) && frame.code
            == CLOSE_CODE_ERROR && frame.reason@ == "unsupported raw websocket frame"@,
    }
}

/// An upstream message as the client gets it.
pub fn to_axum_ws_message(message: UpstreamMessage) -> (res: DownstreamMessage)
    ensures
        sent_downstream(message, res),
{
    match message {
        UpstreamMessage::Text(text) => DownstreamMessage::Text(text),
        UpstreamMessage::Binary(bytes) => DownstreamMessage::Binary(bytes),
        UpstreamMessage::Ping(bytes) => DownstreamMessage::Ping(bytes),
        UpstreamMessage::Pong(bytes) => DownstreamMessage::Pong(bytes),
        UpstreamMessage::Close(frame) => DownstreamMessage::Close(frame),
        UpstreamMessage::Frame => DownstreamMessage::Close(
            Some(
                CloseFrame {
                    code: CLOSE_CODE_ERROR,
                    reason: "unsupported raw websocket frame".to_owned(),
                },
            ),
        ),
    }
}

/// Passing messages on loses nothing: a client's message that comes back is the same, and so is
/// every upstream message but a raw frame.
pub proof fn messages_survive_the_round_trip(
    sent: DownstreamMessage,
    received: UpstreamMessage,
    passed_on: DownstreamMessage,
)
    ensures
        sent_downstream(sent_upstream(sent), passed_on) ==> passed_on == sent,
        sent_downstream(received, passed_on) && !(received is Frame) ==> sent_upstream(passed_on)
            == received,
{
}

/// What the client gets in answer to a request.
pub struct ProxyResponse {
    pub status: u16,
    pub headers: HeaderMap,
    pub body: Vec<u8>,
}

/// The status code "Bad Gateway".
pub const BAD_GATEWAY: u16 = 502;

/// A status code that can be sent: one of three digits, or else "Bad Gateway".
pub open spec fn sendable_status(status: u16) -> u16 {
    if 100 <= status < 1000 {
        status
    } else {
        BAD_GATEWAY
    }
}

/// The answer to a client whose WebSocket the upstream service refused with an HTTP response.
pub fn websocket_handshake_error_response(
    status: u16,
    headers: &HeaderMap,
    body: Option<Vec<u8>>,
) -> (res: ProxyResponse)
    requires
        has_room(header_values(*headers), 1),
    ensures
        res.status == sendable_status(status),
        header_values(res.headers) == end_to_end(header_values(*headers)),
        match body {
            Some(body) => res.body == body,
            None => res.body@ == Seq::<u8>::empty(),
        },
{
    let headers = proxy_response_headers(headers);
    let body = match body {
        Some(body) => body,
        None => Vec::new(),
    };
    let status: u16 = if 100 <= status && status < 1000 {
        status
    } else {
        BAD_GATEWAY
    };
    ProxyResponse { status, headers, body }
}

/// What becomes of a URL as the target of a WebSocket request: the `Host` of the request, or the
/// text of the error.
pub uninterp spec fn client_request(url: Seq<char>) -> Result<Seq<u8>, Seq<char>>;

/// The bytes of an ASCII text.
pub open spec fn ascii(text: Seq<char>) -> Seq<u8> {
    text.map_values(|c: char| c as u8)
}

/// Whether these are the headers that a WebSocket client starts with. The key is any single value.
pub open spec fn is_client_handshake(headers: Headers, host: Seq<u8>) -> bool {
    &&& headers.dom() == set![
        "host"@,
        "connection"@,
        "upgrade"@,
        "sec-websocket-version"@,
        "sec-websocket-key"@,
    ]
    &&& headers["host"@] == seq![plain_value(host)]
    &&& headers["connection"@] == seq![plain_value(ascii("Upgrade"@))]
    &&& headers["upgrade"@] == seq![plain_value(ascii("websocket"@))]
    &&& headers["sec-websocket-version"@] == seq![plain_value(ascii("13"@))]
    &&& headers["sec-websocket-key"@].len() == 1
}

/// `IntoClientRequest::into_client_request` for a text: the headers of the request, or the text of
/// the error. The key is chosen at random; nothing else is.
#[verifier::external_body]
fn client_request_headers(url: &str) -> (res: Result<HeaderMap, String>)
    ensures
        match res {
            Ok(headers) => client_request(url@) matches Ok(host) && is_client_handshake(
                header_values(headers),
                host,
            ),
            Err(text) => client_request(url@) == Err::<Seq<u8>, _>(text@),
        },
{
    match url.into_client_request() {
        Ok(request) => Ok(request.into_parts().0.headers),
        Err(error) => Err(error.to_string()),
    }
}

/// The headers of `base`, where each name of `more` has its last value there and no other.
pub open spec fn overlaid(base: Headers, more: Headers) -> Headers {
    Map::new(
        |name: Seq<char>| base.dom().contains(name) || more.dom().contains(name),
        |name: Seq<char>|
            if more.dom().contains(name) {
                seq![more[name].last()]
            } else {
                base[name]
            },
    )
}

/// Whether `now` holds for `name` what `base` holds, or the last value in `entries`.
spec fn overlaid_name(
    now: Headers,
    base: Headers,
    entries: Seq<(Seq<char>, Value)>,
    name: Seq<char>,
) -> bool {
    let values = values_in(entries, name);
    &&& now.dom().contains(name) <==> (base.dom().contains(name) || values.len() > 0)
    &&& values_of(now, name) == (if values.len() > 0 {
        seq![values.last()]
    } else {
        values_of(base, name)
    })
}

/// Sets every header of `more` in `base`. Of several values the last one counts.
pub fn overlay_headers(base: &mut HeaderMap, more: &HeaderMap)
    requires
        crate::forward::fit_together(header_values(*more), header_values(*old(base))),
    ensures
        header_values(*final(base)) == overlaid(header_values(*old(base)), header_values(*more)),
{
    let list = entries(more);
    let ghost all = entries_of(list@);
    let ghost start = header_values(*base);
    let ghost source = header_values(*more);
    let mut i: usize = 0;
    assert(all.take(0) =~= Seq::<(Seq<char>, Value)>::empty());
    while i < list.len()
        invariant
            i <= list@.len(),
            all == entries_of(list@),
            source == header_values(*more),
            enumerates(all, source),
            crate::forward::fit_together(source, start),
            forall|name: Seq<char>| #[trigger]
                overlaid_name(header_values(*base), start, all.take(i as int), name),
        decreases list@.len() - i,
    {
        let ghost now = header_values(*base);
        let ghost entry = all[i as int];
        proof {
            assert(entry == (list@[i as int].0@, list@[i as int].1@));
            assert(all.take(i + 1).drop_last() =~= all.take(i as int));
            assert(all.take(i + 1).last() == entry);
            lemma_overlaid_room(now, start, source, all, i as int);
        }
        insert(base, list[i].0.as_str(), &list[i].1);
        proof {
            assert forall|name: Seq<char>| #[trigger]
                overlaid_name(header_values(*base), start, all.take(i + 1), name) by {
                assert(overlaid_name(now, start, all.take(i as int), name));
            }
        }
        i = i + 1;
    }
    proof {
        assert(all.take(all.len() as int) =~= all);
        let done = overlaid(start, source);
        let now = header_values(*base);
        assert forall|name: Seq<char>| now.dom().contains(name) == done.dom().contains(name) by {
            assert(overlaid_name(now, start, all, name));
            assert(values_of(source, name) == values_in(all, name));
        }
        assert forall|name: Seq<char>| now.dom().contains(name) implies now[name] == done[name] by {
            assert(overlaid_name(now, start, all, name));
            assert(values_of(source, name) == values_in(all, name));
        }
        assert(now =~= done);
    }
}

proof fn lemma_overlaid_room(
    now: Headers,
    base: Headers,
    more: Headers,
    all: Seq<(Seq<char>, Value)>,
    count: int,
)
    requires
        0 <= count <= all.len(),
        enumerates(all, more),
        forall|name: Seq<char>| #[trigger] overlaid_name(now, base, all.take(count), name),
        crate::forward::fit_together(more, base),
    ensures
        has_room(now, 1),
{
    let names = more.dom().union(base.dom());
    assert forall|name: Seq<char>| now.dom().contains(name) implies names.contains(name) by {
        assert(overlaid_name(now, base, all.take(count), name));
        if !base.dom().contains(name) {
            crate::forward::lemma_values_in_grow(all, count, name);
            assert(values_of(more, name) == values_in(all, name));
        }
    }
    vstd::set_lib::lemma_len_subset(now.dom(), names);
}

/// Whether `headers` are those of the upstream request for a client's WebSocket: what a WebSocket
/// client starts with, under the headers of the client's request that are passed on.
pub open spec fn is_upstream_handshake(headers: Headers, host: Seq<u8>, passed_on: Headers) -> bool {
    exists|start: Headers| #[trigger]
        is_client_handshake(start, host) && headers == overlaid(start, passed_on)
}

/// What comes of making the upstream request for a client's WebSocket.
pub open spec fn websocket_request(
    url: Seq<char>,
    headers: Headers,
    base: UrlView,
    res: Result<HeaderMap, ProxyError>,
) -> bool {
    match client_request(url) {
        Err(text) => res matches Err(ProxyError::Request(reason)) && reason@ == text,
        Ok(host) => match websocket_request_headers(headers, base) {
            Err(error) => res == Err::<HeaderMap, _>(error),
            Ok(passed_on) => res matches Ok(request) && is_upstream_handshake(
                header_values(request),
                host,
                passed_on,
            ),
        },
    }
}

proof fn lemma_handshake_fits(start: Headers, host: Seq<u8>, headers: Headers, base: UrlView)
    requires
        is_client_handshake(start, host),
        has_room(headers, 6),
        websocket_request_headers(headers, base) is Ok,
    ensures
        crate::forward::fit_together(websocket_request_headers(headers, base)->Ok_0, start),
{
    let passed_on = websocket_request_headers(headers, base)->Ok_0;
    assert(start.dom().contains("host"@));
    assert(passed_on.dom().union(start.dom()).subset_of(headers.dom().union(start.dom())));
    vstd::set_lib::lemma_len_union(headers.dom(), start.dom());
    vstd::set_lib::lemma_len_subset(
        passed_on.dom().union(start.dom()),
        headers.dom().union(start.dom()),
    );
    vstd::set_lib::lemma_len_subset(passed_on.dom(), headers.dom().union(start.dom()));
}

/// The headers of the upstream request for a client's WebSocket.
pub fn build_upstream_websocket_request(
    upstream_url: &str,
    downstream_headers: &HeaderMap,
    upstream_base_url: &UpstreamUrl,
) -> (res: Result<HeaderMap, ProxyError>)
    requires
        has_room(header_values(*downstream_headers), 6),
    ensures
        websocket_request(
            upstream_url@,
            header_values(*downstream_headers),
            upstream_base_url@,
            res,
        ),
{
    let mut request = match client_request_headers(upstream_url) {
        Ok(request) => request,
        Err(text) => return Err(ProxyError::Request(text)),
    };
    let passed_on = match proxy_websocket_headers(downstream_headers, upstream_base_url) {
        Ok(headers) => headers,
        Err(error) => return Err(error),
    };
    proof {
        lemma_handshake_fits(
            header_values(request),
            client_request(upstream_url@)->Ok_0,
            header_values(*downstream_headers),
            upstream_base_url@,
        );
    }
    overlay_headers(&mut request, &passed_on);
    Ok(request)
}

/// The upstream request for a client's WebSocket asks for a WebSocket, at the upstream host.
pub proof fn upstream_handshake_asks_for_websocket(
    headers: Headers,
    host: Seq<u8>,
    client: Headers,
    base: UrlView,
)
    requires
        websocket_request_headers(client, base) is Ok,
        is_upstream_handshake(headers, host, websocket_request_headers(client, base)->Ok_0),
    ensures
        asks_for_websocket(headers),
        values_of(headers, "host"@) == seq![plain_value(host_value(base)->Ok_0)],
{
    let passed_on = websocket_request_headers(client, base)->Ok_0;
    let start = choose|start: Headers| #[trigger]
        is_client_handshake(start, host) && headers == overlaid(start, passed_on);
    assert(is_hop_by_hop("connection"@));
    assert(is_hop_by_hop("upgrade"@));
    reveal_strlit("host");
    reveal_strlit("connection");
    reveal_strlit("upgrade");
    reveal_strlit("Upgrade");
    reveal_strlit("websocket");
    assert("connection"@.len() != "host"@.len());
    assert("upgrade"@.len() != "host"@.len());
    assert(values_of(headers, "connection"@) == seq![plain_value(ascii("Upgrade"@))]);
    assert(values_of(headers, "upgrade"@) == seq![plain_value(ascii("websocket"@))]);
    assert(text_of(ascii("Upgrade"@)) == Some("Upgrade"@)) by {
        assert(ascii("Upgrade"@).map_values(|b: u8| b as char) =~= "Upgrade"@);
    }
    assert(text_of(ascii("websocket"@)) == Some("websocket"@)) by {
        assert(ascii("websocket"@).map_values(|b: u8| b as char) =~= "websocket"@);
    }
    assert(first_value_is(values_of(headers, "upgrade"@), "websocket"@));
    let pieces = split("Upgrade"@, Separator::Comma);
    assert(pieces == seq!["Upgrade"@]) by {
        lemma_split_without_separator("Upgrade"@, Separator::Comma);
    }
    assert(trimmed("Upgrade"@, Separator::Whitespace) == "Upgrade"@);
    assert(lowered("Upgrade"@) =~= lowered("upgrade"@));
    assert(pieces[0] == "Upgrade"@);
    assert(has_piece(pieces, "upgrade"@));
}

proof fn lemma_split_without_separator(s: Seq<char>, sep: Separator)
    requires
        forall|i: int| 0 <= i < s.len() ==> !sep.has(#[trigger] s[i]),
    ensures
        split(s, sep) == seq![s],
    decreases s.len(),
{
    if s.len() > 0 {
        lemma_split_without_separator(s.drop_last(), sep);
        assert(split(s, sep) =~= seq![s]) by {
            assert(s.drop_last().push(s.last()) =~= s);
        }
    }
}

} // verus!
