//! Which headers travel on to the upstream service and back to the client.
use axum::http::HeaderMap;
use vstd::prelude::*;

use crate::error::ProxyError;
use crate::headers::{
    append, appended, check_header_value, contains_key, entries, entries_of, enumerates, get,
    get_all, has_room, header_values, insert, is_header_name, is_header_value, list_of, new_headers,
    no_headers, plain_value, replaced, text_of, value_text, values_in, values_of, FieldValue, Headers,
    Value, NAME_LIMIT,
};
use crate::text::{
    eq_ignore_ascii_case, lowered, parse_number, parse_u64, same_text, split, split_text, texts,
    trim, trimmed, Separator,
};
use crate::upstream::{host_header, upstream_host_header, UpstreamUrl, UrlView};

verus! {

/// Whether a header speaks of one connection only.
pub open spec fn is_hop_by_hop(name: Seq<char>) -> bool {
    ||| lowered(name) == lowered("connection"@)
    ||| lowered(name) == lowered("keep-alive"@)
    ||| lowered(name) == lowered("proxy-authenticate"@)
    ||| lowered(name) == lowered("proxy-authorization"@)
    ||| lowered(name) == lowered("te"@)
    ||| lowered(name) == lowered("trailer"@)
    ||| lowered(name) == lowered("transfer-encoding"@)
    ||| lowered(name) == lowered("upgrade"@)
}

/// Whether a header speaks of one connection only.
pub fn header_is_hop_by_hop(name: &str) -> (res: bool)
    ensures
        res == is_hop_by_hop(name@),
{
    eq_ignore_ascii_case(name, "connection") || eq_ignore_ascii_case(name, "keep-alive")
        || eq_ignore_ascii_case(name, "proxy-authenticate") || eq_ignore_ascii_case(
        name,
        "proxy-authorization",
    ) || eq_ignore_ascii_case(name, "te") || eq_ignore_ascii_case(name, "trailer")
        || eq_ignore_ascii_case(name, "transfer-encoding") || eq_ignore_ascii_case(name, "upgrade")
}

/// The texts of `pieces` without the white space around them, and without the empty ones.
pub open spec fn tokens_among(pieces: Seq<Seq<char>>) -> Seq<Seq<char>>
    decreases pieces.len(),
{
    if pieces.len() == 0 {
        Seq::empty()
    } else {
        let before = tokens_among(pieces.drop_last());
        let token = trimmed(pieces.last(), Separator::Whitespace);
        if token.len() > 0 {
            before.push(token)
        } else {
            before
        }
    }
}

/// The comma-separated tokens of one header value; none if the value is not visible ASCII.
pub open spec fn tokens_of(value: Seq<u8>) -> Seq<Seq<char>> {
    match text_of(value) {
        Some(text) => tokens_among(split(text, Separator::Comma)),
        None => Seq::empty(),
    }
}

/// The comma-separated tokens of several header values.
pub open spec fn all_tokens(values: Seq<Value>) -> Seq<Seq<char>>
    decreases values.len(),
{
    if values.len() == 0 {
        Seq::empty()
    } else {
        all_tokens(values.drop_last()) + tokens_of(values.last().bytes)
    }
}

/// The names that the `Connection` headers list.
pub open spec fn connection_tokens(headers: Headers) -> Seq<Seq<char>> {
    all_tokens(values_of(headers, "connection"@))
}

/// Adds the tokens of one header value to `tokens`.
fn push_tokens(tokens: &mut Vec<String>, value: &[u8])
    ensures
        texts(final(tokens)@) == texts(old(tokens)@) + tokens_of(value@),
{
    let text = match value_text(value) {
        Some(text) => text,
        None => {
            assert(texts(tokens@) =~= texts(old(tokens)@) + tokens_of(value@));
            return ;
        },
    };
    let pieces = split_text(text.as_str(), Separator::Comma);
    let ghost all = texts(pieces@);
    let ghost before = texts(tokens@);
    let mut i: usize = 0;
    assert(all.take(0) =~= Seq::<Seq<char>>::empty());
    assert(texts(tokens@) =~= before + tokens_among(all.take(0)));
    while i < pieces.len()
        invariant
            i <= pieces@.len(),
            all == texts(pieces@),
            texts(tokens@) == before + tokens_among(all.take(i as int)),
        decreases pieces@.len() - i,
    {
        proof {
            assert(all.take(i + 1).drop_last() =~= all.take(i as int));
            assert(all.take(i + 1).last() == pieces@[i as int]@);
        }
        let ghost so_far = texts(tokens@);
        let token = trim(pieces[i].as_str(), Separator::Whitespace);
        if !token.as_str().is_empty() {
            tokens.push(token);
            assert(texts(tokens@) =~= so_far.push(token@));
        }
        i = i + 1;
        assert(texts(tokens@) =~= before + tokens_among(all.take(i as int)));
    }
    assert(all.take(all.len() as int) =~= all);
}

/// The names that the `Connection` headers list.
pub fn connection_header_tokens(headers: &HeaderMap) -> (res: Vec<String>)
    ensures
        texts(res@) == connection_tokens(header_values(*headers)),
{
    proof {
        lemma_known_names();
    }
    let values = get_all(headers, "connection");
    let ghost all = list_of(values@);
    let mut tokens: Vec<String> = Vec::new();
    let mut i: usize = 0;
    assert(all.take(0) =~= Seq::<Value>::empty());
    assert(texts(tokens@) =~= all_tokens(all.take(0)));
    while i < values.len()
        invariant
            i <= values@.len(),
            all == list_of(values@),
            texts(tokens@) == all_tokens(all.take(i as int)),
        decreases values@.len() - i,
    {
        proof {
            assert(all.take(i + 1).drop_last() =~= all.take(i as int));
            assert(all.take(i + 1).last() == values@[i as int]@);
        }
        push_tokens(&mut tokens, values[i].bytes.as_slice());
        i = i + 1;
    }
    assert(all.take(all.len() as int) =~= all);
    tokens
}

/// Whether a list of texts holds `name`, whatever the case of its letters.
pub open spec fn lists(tokens: Seq<Seq<char>>, name: Seq<char>) -> bool {
    exists|i: int| 0 <= i < tokens.len() && lowered(#[trigger] tokens[i]) == lowered(name)
}

/// Whether a list of texts holds `name`, whatever the case of its letters.
fn list_has(tokens: &Vec<String>, name: &str) -> (res: bool)
    ensures
        res == lists(texts(tokens@), name@),
{
    let ghost all = texts(tokens@);
    let mut i: usize = 0;
    while i < tokens.len()
        invariant
            i <= tokens@.len(),
            all == texts(tokens@),
            forall|j: int| 0 <= j < i ==> lowered(#[trigger] all[j]) != lowered(name@),
        decreases tokens@.len() - i,
    {
        assert(all[i as int] == tokens@[i as int]@);
        if eq_ignore_ascii_case(tokens[i].as_str(), name) {
            return true;
        }
        i = i + 1;
    }
    false
}

/// Whether the first value of a header is the text `wanted`, whatever the case of its letters.
pub open spec fn first_value_is(values: Seq<Value>, wanted: Seq<char>) -> bool {
    values.len() > 0 && (text_of(values[0].bytes) matches Some(text) && lowered(text) == lowered(wanted))
}

/// Whether one of the comma-separated pieces of the first value of a header is the text `wanted`,
/// whatever the case of its letters and the white space around it.
pub open spec fn first_value_lists(values: Seq<Value>, wanted: Seq<char>) -> bool {
    values.len() > 0 && (text_of(values[0].bytes) matches Some(text) && has_piece(
        split(text, Separator::Comma),
        wanted,
    ))
}

/// Whether `wanted` is one of the pieces, whatever the case of its letters and the white space
/// around it.
pub open spec fn has_piece(pieces: Seq<Seq<char>>, wanted: Seq<char>) -> bool {
    exists|i: int|
        0 <= i < pieces.len() && lowered(trimmed(#[trigger] pieces[i], Separator::Whitespace))
            == lowered(wanted)
}

/// Whether a request asks for a WebSocket.
pub open spec fn asks_for_websocket(headers: Headers) -> bool {
    &&& first_value_is(values_of(headers, "upgrade"@), "websocket"@)
    &&& first_value_lists(values_of(headers, "connection"@), "upgrade"@)
}

fn pieces_have(text: &str, wanted: &str) -> (res: bool)
    ensures
        res == has_piece(split(text@, Separator::Comma), wanted@),
{
    let pieces = split_text(text, Separator::Comma);
    let ghost all = texts(pieces@);
    let mut i: usize = 0;
    while i < pieces.len()
        invariant
            i <= pieces@.len(),
            all == texts(pieces@),
            all == split(text@, Separator::Comma),
            forall|j: int|
                0 <= j < i ==> lowered(trimmed(#[trigger] all[j], Separator::Whitespace))
                    != lowered(wanted@),
        decreases pieces@.len() - i,
    {
        assert(all[i as int] == pieces@[i as int]@);
        let piece = trim(pieces[i].as_str(), Separator::Whitespace);
        if eq_ignore_ascii_case(piece.as_str(), wanted) {
            assert(has_piece(all, wanted@));
            return true;
        }
        i = i + 1;
    }
    false
}

/// Whether a request asks for a WebSocket.
pub fn is_websocket_upgrade(headers: &HeaderMap) -> (res: bool)
    ensures
        res == asks_for_websocket(header_values(*headers)),
{
    proof {
        lemma_known_names();
    }
    let upgrade = match get(headers, "upgrade") {
        Some(value) => match value_text(value.bytes.as_slice()) {
            Some(text) => eq_ignore_ascii_case(text.as_str(), "websocket"),
            None => false,
        },
        None => false,
    };
    if !upgrade {
        return false;
    }
    match get(headers, "connection") {
        Some(value) => match value_text(value.bytes.as_slice()) {
            Some(text) => pieces_have(text.as_str(), "upgrade"),
            None => false,
        },
        None => false,
    }
}

/// Whether a `Content-Length` value says that there is no body.
pub open spec fn is_zero_length(value: Seq<u8>) -> bool {
    text_of(value) matches Some(text) && parse_u64(trimmed(text, Separator::Whitespace)) == Some(
        0u64,
    )
}

/// Whether the headers of a request announce a body: a `Transfer-Encoding`, or a `Content-Length`
/// that is not a plain zero.
pub open spec fn declares_body(headers: Headers) -> bool {
    ||| headers.dom().contains("transfer-encoding"@)
    ||| exists|k: int|
        0 <= k < values_of(headers, "content-length"@).len() && !is_zero_length(
            (#[trigger] values_of(headers, "content-length"@)[k]).bytes,
        )
}

/// Whether the headers of a request announce a body.
pub fn request_has_declared_body(headers: &HeaderMap) -> (res: bool)
    ensures
        res == declares_body(header_values(*headers)),
{
    proof {
        lemma_known_names();
    }
    if contains_key(headers, "transfer-encoding") {
        return true;
    }
    let values = get_all(headers, "content-length");
    let ghost all = values_of(header_values(*headers), "content-length"@);
    let mut i: usize = 0;
    while i < values.len()
        invariant
            i <= values@.len(),
            all == list_of(values@),
            all == values_of(header_values(*headers), "content-length"@),
            forall|j: int| 0 <= j < i ==> is_zero_length((#[trigger] all[j]).bytes),
        decreases values@.len() - i,
    {
        assert(all[i as int] == values@[i as int]@);
        let zero = match value_text(values[i].bytes.as_slice()) {
            Some(text) => {
                let number = trim(text.as_str(), Separator::Whitespace);
                match parse_number(number.as_str()) {
                    Some(length) => length == 0,
                    None => false,
                }
            },
            None => false,
        };
        if !zero {
            assert(!is_zero_length(all[i as int].bytes));
            return true;
        }
        i = i + 1;
    }
    false
}

/// Whether the body of a request is passed on: always, but for `GET` and `HEAD` only if the headers
/// announce one.
pub open spec fn forwards_body(method: Seq<char>, headers: Headers) -> bool {
    (method == "GET"@ || method == "HEAD"@) ==> declares_body(headers)
}

/// Whether the body of a request is passed on.
pub fn request_should_forward_body(method: &str, headers: &HeaderMap) -> (res: bool)
    ensures
        res == forwards_body(method@, header_values(*headers)),
{
    if same_text(method, "GET") || same_text(method, "HEAD") {
        return request_has_declared_body(headers);
    }
    true
}

/// Whether a header is passed on: not `Host`, not one for a single connection, and not one of
/// `tokens`.
pub open spec fn is_forwarded(tokens: Seq<Seq<char>>, name: Seq<char>) -> bool {
    name != "host"@ && !is_hop_by_hop(name) && !lists(tokens, name)
}

/// The headers that are passed on.
pub open spec fn selected(headers: Headers, tokens: Seq<Seq<char>>) -> Headers {
    Map::new(
        |name: Seq<char>| headers.dom().contains(name) && is_forwarded(tokens, name),
        |name: Seq<char>| headers[name],
    )
}

/// The headers of a message that travel from end to end: all but `Host`, those for a single
/// connection, and those that a `Connection` header lists.
pub open spec fn end_to_end(headers: Headers) -> Headers {
    selected(headers, connection_tokens(headers))
}

/// The headers of a WebSocket request that are passed on: all but `Host` and those for a single
/// connection.
pub open spec fn websocket_headers(headers: Headers) -> Headers {
    selected(headers, Seq::empty())
}

/// The headers of `to`, each name followed by its values in `more`.
pub open spec fn extended(to: Headers, more: Headers) -> Headers {
    Map::new(
        |name: Seq<char>| to.dom().contains(name) || more.dom().contains(name),
        |name: Seq<char>| values_of(to, name) + values_of(more, name),
    )
}

/// Whether the names of both header maps fit into one.
pub open spec fn fit_together(from: Headers, to: Headers) -> bool {
    from.dom().finite() && to.dom().finite() && from.dom().union(to.dom()).len() < NAME_LIMIT
}

/// Whether `now` holds for `name` what `to` holds, and the values in `entries` if it is forwarded.
spec fn copied_name(
    now: Headers,
    to: Headers,
    entries: Seq<(Seq<char>, Value)>,
    tokens: Seq<Seq<char>>,
    name: Seq<char>,
) -> bool {
    let more = if is_forwarded(tokens, name) {
        values_in(entries, name)
    } else {
        Seq::empty()
    };
    &&& now.dom().contains(name) <==> (to.dom().contains(name) || more.len() > 0)
    &&& values_of(now, name) == values_of(to, name) + more
}

/// Whether `now` is `to` with the forwarded ones of `entries` added.
spec fn copied(
    now: Headers,
    to: Headers,
    entries: Seq<(Seq<char>, Value)>,
    tokens: Seq<Seq<char>>,
) -> bool {
    forall|name: Seq<char>| #[trigger] copied_name(now, to, entries, tokens, name)
}

proof fn lemma_copied_step(
    now: Headers,
    to: Headers,
    entries: Seq<(Seq<char>, Value)>,
    tokens: Seq<Seq<char>>,
    entry: (Seq<char>, Value),
)
    requires
        copied(now, to, entries, tokens),
    ensures
        is_forwarded(tokens, entry.0) ==> copied(
            appended(now, entry.0, entry.1),
            to,
            entries.push(entry),
            tokens,
        ),
        !is_forwarded(tokens, entry.0) ==> copied(now, to, entries.push(entry), tokens),
{
    let more = entries.push(entry);
    assert(more.drop_last() =~= entries);
    let next = appended(now, entry.0, entry.1);
    if is_forwarded(tokens, entry.0) {
        assert forall|name: Seq<char>| #[trigger] copied_name(next, to, more, tokens, name) by {
            assert(copied_name(now, to, entries, tokens, name));
            if name == entry.0 {
                assert(values_of(next, name) =~= values_of(to, name) + values_in(more, name));
            }
        }
    } else {
        assert forall|name: Seq<char>| #[trigger] copied_name(now, to, more, tokens, name) by {
            assert(copied_name(now, to, entries, tokens, name));
        }
    }
}

/// While entries of `from` are copied, the names stay within those of `from` and `to`.
proof fn lemma_copied_room(
    now: Headers,
    to: Headers,
    from: Headers,
    all: Seq<(Seq<char>, Value)>,
    count: int,
    tokens: Seq<Seq<char>>,
)
    requires
        0 <= count <= all.len(),
        enumerates(all, from),
        copied(now, to, all.take(count), tokens),
        fit_together(from, to),
    ensures
        has_room(now, 1),
{
    let names = from.dom().union(to.dom());
    assert forall|name: Seq<char>| now.dom().contains(name) implies names.contains(name) by {
        assert(copied_name(now, to, all.take(count), tokens, name));
        if !to.dom().contains(name) {
            lemma_values_in_grow(all, count, name);
            assert(values_of(from, name) == values_in(all, name));
        }
    }
    vstd::set_lib::lemma_len_subset(now.dom(), names);
}

pub(crate) proof fn lemma_values_in_grow(all: Seq<(Seq<char>, Value)>, count: int, name: Seq<char>)
    requires
        0 <= count <= all.len(),
    ensures
        values_in(all.take(count), name).len() <= values_in(all, name).len(),
    decreases all.len() - count,
{
    if count < all.len() {
        lemma_values_in_grow(all.drop_last(), count, name);
        assert(all.drop_last().take(count) =~= all.take(count));
    } else {
        assert(all.take(count) =~= all);
    }
}

/// Copies the headers that are passed on.
fn copy_selected(from: &HeaderMap, tokens: &Vec<String>, to: &mut HeaderMap)
    requires
        fit_together(header_values(*from), header_values(*old(to))),
    ensures
        header_values(*final(to)) == extended(
            header_values(*old(to)),
            selected(header_values(*from), texts(tokens@)),
        ),
{
    let list = entries(from);
    let ghost all = entries_of(list@);
    let ghost names = texts(tokens@);
    let ghost start = header_values(*to);
    let ghost source = header_values(*from);
    let mut i: usize = 0;
    assert(all.take(0) =~= Seq::<(Seq<char>, Value)>::empty());
    assert(copied(start, start, all.take(0), names)) by {
        assert forall|name: Seq<char>| #[trigger]
            copied_name(start, start, all.take(0), names, name) by {
            assert(values_of(start, name) =~= values_of(start, name) + Seq::empty());
        }
    }
    while i < list.len()
        invariant
            i <= list@.len(),
            all == entries_of(list@),
            names == texts(tokens@),
            source == header_values(*from),
            enumerates(all, source),
            fit_together(source, start),
            copied(header_values(*to), start, all.take(i as int), names),
        decreases list@.len() - i,
    {
        let name = list[i].0.as_str();
        let ghost entry = all[i as int];
        proof {
            assert(entry == (list@[i as int].0@, list@[i as int].1@));
            assert(all.take(i + 1) =~= all.take(i as int).push(entry));
            lemma_copied_step(header_values(*to), start, all.take(i as int), names, entry);
            lemma_copied_room(header_values(*to), start, source, all, i as int, names);
        }
        if !(same_text(name, "host") || header_is_hop_by_hop(name) || list_has(tokens, name)) {
            append(to, name, &list[i].1);
        }
        i = i + 1;
    }
    proof {
        assert(all.take(all.len() as int) =~= all);
        let done = extended(start, selected(source, names));
        let now = header_values(*to);
        assert forall|name: Seq<char>| now.dom().contains(name) == done.dom().contains(name) by {
            assert(copied_name(now, start, all, names, name));
            assert(values_of(source, name) == values_in(all, name));
        }
        assert forall|name: Seq<char>| now.dom().contains(name) implies now[name] == done[name] by {
            assert(copied_name(now, start, all, names, name));
            assert(values_of(source, name) == values_in(all, name));
            assert(done[name] =~= now[name]);
        }
        assert(now =~= done);
    }
}

/// Adds to `to` the headers of `from` that travel from end to end.
pub fn copy_end_to_end_headers(from: &HeaderMap, to: &mut HeaderMap)
    requires
        fit_together(header_values(*from), header_values(*old(to))),
    ensures
        header_values(*final(to)) == extended(
            header_values(*old(to)),
            end_to_end(header_values(*from)),
        ),
{
    let tokens = connection_header_tokens(from);
    copy_selected(from, &tokens, to);
}

proof fn lemma_extended_from_nothing(more: Headers)
    ensures
        extended(no_headers(), more) == more,
{
    assert forall|name: Seq<char>| more.dom().contains(name) implies extended(
        no_headers(),
        more,
    )[name] == more[name] by {
        assert(extended(no_headers(), more)[name] =~= more[name]);
    }
    assert(extended(no_headers(), more) =~= more);
}

proof fn lemma_fresh_fits(from: Headers)
    requires
        has_room(from, 1),
    ensures
        fit_together(from, no_headers()),
{
    assert(from.dom().union(no_headers().dom()) =~= from.dom());
}

proof fn lemma_selected_room(headers: Headers, tokens: Seq<Seq<char>>)
    requires
        has_room(headers, 1),
    ensures
        has_room(selected(headers, tokens), 1),
{
    vstd::set_lib::lemma_len_subset(selected(headers, tokens).dom(), headers.dom());
}

/// The headers that a response hands back to the client.
pub fn proxy_response_headers(headers: &HeaderMap) -> (res: HeaderMap)
    requires
        has_room(header_values(*headers), 1),
    ensures
        header_values(res) == end_to_end(header_values(*headers)),
{
    let mut result = new_headers();
    proof {
        lemma_fresh_fits(header_values(*headers));
        lemma_extended_from_nothing(end_to_end(header_values(*headers)));
    }
    copy_end_to_end_headers(headers, &mut result);
    result
}

/// The bytes of the `Host` header of upstream requests, or why there is none.
pub open spec fn host_value(url: UrlView) -> Result<Seq<u8>, ProxyError> {
    match host_header(url) {
        Some(host) => if is_header_value(vstd::utf8::encode_utf8(host)) {
            Ok(vstd::utf8::encode_utf8(host))
        } else {
            Err(ProxyError::InvalidHost)
        },
        None => Err(ProxyError::MissingHost),
    }
}

/// Sets the `Host` header to the host of the upstream service. Without such a host, the headers
/// stay as they are.
pub fn set_host_header(headers: &mut HeaderMap, upstream_base_url: &UpstreamUrl) -> (res: Result<
    (),
    ProxyError,
>)
    requires
        has_room(header_values(*old(headers)), 1),
    ensures
        match host_value(upstream_base_url@) {
            Ok(host) => res is Ok && header_values(*final(headers)) == replaced(
                header_values(*old(headers)),
                "host"@,
                plain_value(host),
            ),
            Err(error) => res == Err::<(), _>(error) && header_values(*final(headers))
                == header_values(*old(headers)),
        },
{
    let host = match upstream_host_header(upstream_base_url) {
        Ok(host) => host,
        Err(error) => return Err(error),
    };
    let value = host.as_str().as_bytes();
    if !check_header_value(value) {
        return Err(ProxyError::InvalidHost);
    }
    proof {
        lemma_known_names();
    }
    let mut bytes: Vec<u8> = Vec::new();
    bytes.extend_from_slice(value);
    let field = FieldValue { bytes, sensitive: false };
    assert(field.bytes@ =~= value@);
    insert(headers, "host", &field);
    Ok(())
}

/// The headers of an upstream HTTP request, or why there are none.
pub open spec fn request_headers(headers: Headers, url: UrlView) -> Result<Headers, ProxyError> {
    match host_value(url) {
        Ok(host) => Ok(replaced(end_to_end(headers), "host"@, plain_value(host))),
        Err(error) => Err(error),
    }
}

/// The headers of an upstream HTTP request.
pub fn proxy_request_headers(headers: &HeaderMap, upstream_base_url: &UpstreamUrl) -> (res: Result<
    HeaderMap,
    ProxyError,
>)
    requires
        has_room(header_values(*headers), 1),
    ensures
        match request_headers(header_values(*headers), upstream_base_url@) {
            Ok(wanted) => res matches Ok(result) && header_values(result) == wanted,
            Err(error) => res == Err::<HeaderMap, _>(error),
        },
{
    let mut result = new_headers();
    proof {
        let all = header_values(*headers);
        lemma_fresh_fits(all);
        lemma_extended_from_nothing(end_to_end(all));
        lemma_selected_room(all, connection_tokens(all));
    }
    copy_end_to_end_headers(headers, &mut result);
    match set_host_header(&mut result, upstream_base_url) {
        Ok(()) => Ok(result),
        Err(error) => Err(error),
    }
}

/// The headers of a client's WebSocket request that go into the upstream one, or why there are
/// none.
pub open spec fn websocket_request_headers(headers: Headers, url: UrlView) -> Result<
    Headers,
    ProxyError,
> {
    match host_value(url) {
        Ok(host) => Ok(replaced(websocket_headers(headers), "host"@, plain_value(host))),
        Err(error) => Err(error),
    }
}

/// The headers of a client's WebSocket request that go into the upstream one.
pub fn proxy_websocket_headers(headers: &HeaderMap, upstream_base_url: &UpstreamUrl) -> (res: Result<
    HeaderMap,
    ProxyError,
>)
    requires
        has_room(header_values(*headers), 1),
    ensures
        match websocket_request_headers(header_values(*headers), upstream_base_url@) {
            Ok(wanted) => res matches Ok(result) && header_values(result) == wanted,
            Err(error) => res == Err::<HeaderMap, _>(error),
        },
{
    let mut result = new_headers();
    let tokens: Vec<String> = Vec::new();
    proof {
        let all = header_values(*headers);
        assert(texts(tokens@) =~= Seq::<Seq<char>>::empty());
        lemma_fresh_fits(all);
        lemma_extended_from_nothing(websocket_headers(all));
        lemma_selected_room(all, Seq::empty());
    }
    copy_selected(headers, &tokens, &mut result);
    match set_host_header(&mut result, upstream_base_url) {
        Ok(()) => Ok(result),
        Err(error) => Err(error),
    }
}

/// What goes upstream carries the upstream host and no other, none of the headers for a single
/// connection, none that a `Connection` header lists, and every other header with all its values.
pub proof fn request_headers_are_clean(headers: Headers, url: UrlView, name: Seq<char>)
    requires
        request_headers(headers, url) is Ok,
    ensures
        ({
            let sent = request_headers(headers, url)->Ok_0;
            &&& name == "host"@ ==> values_of(sent, name) == seq![plain_value(host_value(url)->Ok_0)]
            &&& name != "host"@ && (is_hop_by_hop(name) || lists(connection_tokens(headers), name))
                ==> !sent.dom().contains(name)
            &&& name != "host"@ && !is_hop_by_hop(name) && !lists(connection_tokens(headers), name)
                ==> values_of(sent, name) == values_of(headers, name)
        }),
{
}

/// What a response hands back to the client carries no `Host`, none of the headers for a single
/// connection, none that a `Connection` header lists, and every other header with all its values.
pub proof fn response_headers_are_clean(headers: Headers, name: Seq<char>)
    ensures
        name == "host"@ || is_hop_by_hop(name) || lists(connection_tokens(headers), name)
            ==> !end_to_end(headers).dom().contains(name),
        name != "host"@ && !is_hop_by_hop(name) && !lists(connection_tokens(headers), name)
            ==> values_of(end_to_end(headers), name) == values_of(headers, name),
{
}

/// What travels from end to end passes a second proxy unchanged.
pub proof fn end_to_end_is_stable(headers: Headers)
    ensures
        end_to_end(end_to_end(headers)) == end_to_end(headers),
{
    let once = end_to_end(headers);
    assert(is_hop_by_hop("connection"@));
    assert(!once.dom().contains("connection"@));
    assert(connection_tokens(once) =~= Seq::<Seq<char>>::empty());
    assert(end_to_end(once) =~= once);
}

/// The header names that the code looks up are header names.
pub(crate) proof fn lemma_known_names()
    ensures
        is_header_name("connection"@),
        is_header_name("upgrade"@),
        is_header_name("host"@),
        is_header_name("transfer-encoding"@),
        is_header_name("content-length"@),
        is_header_name("authorization"@),
        is_header_name("chatgpt-account-id"@),
{
    reveal_strlit("connection");
    reveal_strlit("upgrade");
    reveal_strlit("host");
    reveal_strlit("transfer-encoding");
    reveal_strlit("content-length");
    reveal_strlit("authorization");
    reveal_strlit("chatgpt-account-id");
}

} // verus!
