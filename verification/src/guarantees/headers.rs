//! Promises on the headers and the bodies that travel on.
use axum::http::HeaderMap;
use vstd::prelude::*;
use vstd::utf8::encode_utf8;

use crate::error::ProxyError;
use crate::forward::{
    all_tokens, asks_for_websocket, connection_header_tokens, connection_tokens,
    copy_end_to_end_headers, declares_body, end_to_end, has_piece, header_is_hop_by_hop,
    is_hop_by_hop, is_websocket_upgrade, is_zero_length, lists, proxy_request_headers,
    proxy_response_headers, proxy_websocket_headers, request_has_declared_body,
    request_should_forward_body, set_host_header, tokens_among, tokens_of,
};
use crate::guarantees::text::{
    all_separate, is_bare, lemma_lowered, lemma_split_some, lemma_trimmed_core,
    lemma_trimming_exists, same_letter, same_letters, separates,
};
use crate::guarantees::upstream::{is_host_and_port, lemma_host_and_port};
use crate::headers::{
    check_header_value, header_count, header_values, is_header_value, text_of, value_text,
    values_of, Headers, Value,
};
use crate::text::{
    all_digits, decimal_value, is_digit, lowered, split, texts, trimmed, unsigned, Separator,
};
use crate::upstream::{UpstreamUrl, UrlView};

verus! {

/// Whether a piece of a text reaches from one separator, or the start, to the next, or the end.
spec fn piece_at(s: Seq<char>, sep: Separator, from: int, to: int) -> bool {
    &&& 0 <= from <= to <= s.len()
    &&& from == 0 || separates(sep, s[from - 1])
    &&& to == s.len() || separates(sep, s[to])
    &&& forall|i: int| from <= i < to ==> !separates(sep, #[trigger] s[i])
}

proof fn lemma_pieces_are_slices(s: Seq<char>, sep: Separator, i: int) -> (res: (int, int))
    requires
        0 <= i < split(s, sep).len(),
    ensures
        piece_at(s, sep, res.0, res.1),
        split(s, sep)[i] == s.subrange(res.0, res.1),
        i == split(s, sep).len() - 1 <==> res.1 == s.len(),
    decreases s.len(),
{
    if s.len() == 0 {
        assert(s.subrange(0, 0) =~= s);
        (0, 0)
    } else {
        let rest = s.drop_last();
        let before = split(rest, sep);
        lemma_split_some(rest, sep);
        assert(forall|k: int| 0 <= k < rest.len() ==> #[trigger] s[k] == rest[k]);
        if separates(sep, s.last()) {
            if i == before.len() {
                assert(s.subrange(s.len() as int, s.len() as int) =~= Seq::<char>::empty());
                (s.len() as int, s.len() as int)
            } else {
                let (from, to) = lemma_pieces_are_slices(rest, sep, i);
                assert(rest.subrange(from, to) =~= s.subrange(from, to));
                (from, to)
            }
        } else if i == before.len() - 1 {
            let (from, to) = lemma_pieces_are_slices(rest, sep, i);
            assert(rest.subrange(from, to).push(s.last()) =~= s.subrange(from, s.len() as int));
            assert forall|k: int| from <= k < s.len() implies !separates(sep, #[trigger] s[k]) by {
                if k < rest.len() {
                    assert(!separates(sep, rest[k]));
                }
            }
            (from, s.len() as int)
        } else {
            let (from, to) = lemma_pieces_are_slices(rest, sep, i);
            assert(rest.subrange(from, to) =~= s.subrange(from, to));
            (from, to)
        }
    }
}

proof fn lemma_slices_are_pieces(s: Seq<char>, sep: Separator, from: int, to: int) -> (i: int)
    requires
        piece_at(s, sep, from, to),
    ensures
        0 <= i < split(s, sep).len(),
        split(s, sep)[i] == s.subrange(from, to),
        i == split(s, sep).len() - 1 <==> to == s.len(),
    decreases s.len(),
{
    if s.len() == 0 {
        assert(s.subrange(0, 0) =~= s);
        0
    } else {
        let rest = s.drop_last();
        let before = split(rest, sep);
        lemma_split_some(rest, sep);
        if to == s.len() && from == to {
            assert(s.subrange(from, to) =~= Seq::<char>::empty());
            before.len() as int
        } else if to == s.len() {
            assert(!separates(sep, s[to - 1]));
            let i = lemma_slices_are_pieces(rest, sep, from, to - 1);
            assert(rest.subrange(from, to - 1).push(s.last()) =~= s.subrange(from, to));
            i
        } else {
            let i = lemma_slices_are_pieces(rest, sep, from, to);
            assert(rest.subrange(from, to) =~= s.subrange(from, to));
            i
        }
    }
}

/// The blanks that may stand around a token: the space and the tab.
pub open spec fn is_blank(byte: u8) -> bool {
    byte == 32 || byte == 9
}

/// Whether a header value is visible ASCII, with spaces and tabs.
pub open spec fn is_visible(value: Seq<u8>) -> bool {
    forall|i: int| 0 <= i < value.len() ==> (32 <= #[trigger] value[i] <= 126 || value[i] == 9)
}

/// Whether nothing but blanks stands between a comma, or the start, and `at`.
pub open spec fn opens_at(value: Seq<u8>, from: int, at: int) -> bool {
    &&& 0 <= from <= at <= value.len()
    &&& from == 0 || value[from - 1] == 44
    &&& forall|i: int| from <= i < at ==> is_blank(#[trigger] value[i])
}

/// Whether nothing but blanks stands between `at` and a comma, or the end.
pub open spec fn closes_at(value: Seq<u8>, at: int, to: int) -> bool {
    &&& 0 <= at <= to <= value.len()
    &&& to == value.len() || value[to] == 44
    &&& forall|i: int| at <= i < to ==> is_blank(#[trigger] value[i])
}

/// Whether a token of a comma-separated value reaches from `a` to `b`.
pub open spec fn token_at(value: Seq<u8>, a: int, b: int) -> bool {
    &&& 0 <= a < b <= value.len()
    &&& !is_blank(value[a])
    &&& !is_blank(value[b - 1])
    &&& forall|i: int| a <= i < b ==> #[trigger] value[i] != 44
    &&& exists|from: int| #[trigger] opens_at(value, from, a)
    &&& exists|to: int| #[trigger] closes_at(value, b, to)
}

/// Whether bytes spell a name, whatever the case of its letters.
pub open spec fn is_spelled(bytes: Seq<u8>, name: Seq<char>) -> bool {
    bytes.len() == name.len() && forall|i: int|
        0 <= i < bytes.len() ==> same_letter(#[trigger] bytes[i] as char, name[i])
}

/// Whether one of the comma-separated tokens of a header value is `name`.
pub open spec fn has_token(value: Seq<u8>, name: Seq<char>) -> bool {
    is_visible(value) && exists|a: int, b: int| #[trigger]
        token_at(value, a, b) && is_spelled(value.subrange(a, b), name)
}

/// Whether one of the `Connection` headers names a header.
pub open spec fn connection_names(headers: Headers, name: Seq<char>) -> bool {
    headers.dom().contains("connection"@) && exists|k: int|
        0 <= k < headers["connection"@].len() && has_token(
            (#[trigger] headers["connection"@][k]).bytes,
            name,
        )
}

/// Whether `name` is one of the pieces without the white space around it.
spec fn has_trimmed(pieces: Seq<Seq<char>>, name: Seq<char>) -> bool {
    exists|i: int|
        0 <= i < pieces.len() && trimmed(#[trigger] pieces[i], Separator::Whitespace).len() > 0
            && lowered(trimmed(pieces[i], Separator::Whitespace)) == lowered(name)
}

proof fn lemma_tokens_among(pieces: Seq<Seq<char>>, name: Seq<char>)
    ensures
        lists(tokens_among(pieces), name) == has_trimmed(pieces, name),
    decreases pieces.len(),
{
    if pieces.len() > 0 {
        let rest = pieces.drop_last();
        let before = tokens_among(rest);
        let token = trimmed(pieces.last(), Separator::Whitespace);
        lemma_tokens_among(rest, name);
        let all = tokens_among(pieces);
        if lists(all, name) {
            let i = choose|i: int| 0 <= i < all.len() && lowered(#[trigger] all[i]) == lowered(name);
            if i < before.len() {
                assert(before[i] == all[i]);
                assert(lists(before, name));
                let k = choose|k: int|
                    0 <= k < rest.len() && trimmed(#[trigger] rest[k], Separator::Whitespace).len()
                        > 0 && lowered(trimmed(rest[k], Separator::Whitespace)) == lowered(name);
                assert(pieces[k] == rest[k]);
            } else {
                assert(pieces[pieces.len() - 1] == pieces.last());
            }
            assert(has_trimmed(pieces, name));
        }
        if has_trimmed(pieces, name) {
            let k = choose|k: int|
                0 <= k < pieces.len() && trimmed(#[trigger] pieces[k], Separator::Whitespace).len()
                    > 0 && lowered(trimmed(pieces[k], Separator::Whitespace)) == lowered(name);
            if k < rest.len() {
                assert(rest[k] == pieces[k]);
                assert(has_trimmed(rest, name));
                let i = choose|i: int|
                    0 <= i < before.len() && lowered(#[trigger] before[i]) == lowered(name);
                assert(all[i] == before[i]);
            } else {
                assert(all[all.len() - 1] == token);
            }
            assert(lists(all, name));
        }
    }
}

/// What a visible value is as text.
pub(crate) proof fn lemma_text(value: Seq<u8>)
    ensures
        is_visible(value) == text_of(value) is Some,
        text_of(value) matches Some(text) ==> text.len() == value.len() && forall|i: int|
            0 <= i < value.len() ==> #[trigger] text[i] == value[i] as char && separates(
                Separator::Comma,
                text[i],
            ) == (value[i] == 44) && separates(Separator::Whitespace, text[i]) == is_blank(value[i]),
{
}

proof fn lemma_piece_is_token(value: Seq<u8>, name: Seq<char>, i: int)
    requires
        text_of(value) is Some,
        0 <= i < split(text_of(value)->0, Separator::Comma).len(),
        trimmed(split(text_of(value)->0, Separator::Comma)[i], Separator::Whitespace).len() > 0,
        lowered(trimmed(split(text_of(value)->0, Separator::Comma)[i], Separator::Whitespace))
            == lowered(name),
    ensures
        has_token(value, name),
{
    let text = text_of(value)->0;
    lemma_text(value);
    let (from, to) = lemma_pieces_are_slices(text, Separator::Comma, i);
    let piece = text.subrange(from, to);
    let (x, y) = lemma_trimming_exists(piece, Separator::Whitespace);
    let (a, b) = (from + x, from + y);
    let token = text.subrange(a, b);
    assert(piece.subrange(x, y) =~= token);
    assert forall|k: int| from <= k < a implies is_blank(#[trigger] value[k]) by {
        assert(piece.take(x)[k - from] == text[k]);
    }
    assert forall|k: int| b <= k < to implies is_blank(#[trigger] value[k]) by {
        assert(piece.skip(y)[k - b] == text[k]);
    }
    assert(token[0] == text[a] && token.last() == text[b - 1]);
    assert(opens_at(value, from, a)) by {
        if from > 0 {
            assert(separates(Separator::Comma, text[from - 1]));
        }
    }
    assert(closes_at(value, b, to)) by {
        if to < text.len() {
            assert(separates(Separator::Comma, text[to]));
        }
    }
    assert forall|k: int| a <= k < b implies #[trigger] value[k] != 44 by {
        assert(!separates(Separator::Comma, text[k]));
    }
    assert(token_at(value, a, b));
    lemma_lowered(token, name);
    assert(is_spelled(value.subrange(a, b), name)) by {
        assert forall|k: int| 0 <= k < value.subrange(a, b).len() implies same_letter(
            #[trigger] value.subrange(a, b)[k] as char,
            name[k],
        ) by {
            assert(token[k] == text[a + k]);
        }
    }
}

proof fn lemma_token_is_piece(value: Seq<u8>, name: Seq<char>) -> (i: int)
    requires
        has_token(value, name),
    ensures
        text_of(value) is Some,
        0 <= i < split(text_of(value)->0, Separator::Comma).len(),
        trimmed(split(text_of(value)->0, Separator::Comma)[i], Separator::Whitespace).len() > 0,
        lowered(trimmed(split(text_of(value)->0, Separator::Comma)[i], Separator::Whitespace))
            == lowered(name),
{
    lemma_text(value);
    let text = text_of(value)->0;
    let (a, b) = choose|a: int, b: int| #[trigger]
        token_at(value, a, b) && is_spelled(value.subrange(a, b), name);
    let from = choose|from: int| #[trigger] opens_at(value, from, a);
    let to = choose|to: int| #[trigger] closes_at(value, b, to);
    assert(piece_at(text, Separator::Comma, from, to)) by {
        if from > 0 {
            assert(text[from - 1] == value[from - 1] as char);
        }
        if to < text.len() {
            assert(text[to] == value[to] as char);
        }
        assert forall|k: int| from <= k < to implies !separates(
            Separator::Comma,
            #[trigger] text[k],
        ) by {
            assert(text[k] == value[k] as char);
            if k < a {
                assert(is_blank(value[k]));
            } else if k >= b {
                assert(is_blank(value[k]));
            } else {
                assert(value[k] != 44);
            }
        }
    }
    let i = lemma_slices_are_pieces(text, Separator::Comma, from, to);
    let before = text.subrange(from, a);
    let token = text.subrange(a, b);
    let after = text.subrange(b, to);
    assert(text.subrange(from, to) =~= before + token + after);
    assert(all_separate(Separator::Whitespace, before)) by {
        assert forall|k: int| 0 <= k < before.len() implies separates(
            Separator::Whitespace,
            #[trigger] before[k],
        ) by {
            assert(before[k] == text[from + k]);
            assert(is_blank(value[from + k]));
        }
    }
    assert(all_separate(Separator::Whitespace, after)) by {
        assert forall|k: int| 0 <= k < after.len() implies separates(
            Separator::Whitespace,
            #[trigger] after[k],
        ) by {
            assert(after[k] == text[b + k]);
            assert(is_blank(value[b + k]));
        }
    }
    assert(is_bare(Separator::Whitespace, token)) by {
        assert(token[0] == text[a]);
        assert(token.last() == text[b - 1]);
    }
    lemma_trimmed_core(before, token, after, Separator::Whitespace);
    assert(same_letters(token, name)) by {
        assert forall|k: int| 0 <= k < token.len() implies same_letter(#[trigger] token[k], name[k]) by {
            assert(token[k] == text[a + k]);
            assert(value.subrange(a, b)[k] == value[a + k]);
        }
    }
    lemma_lowered(token, name);
    i
}

pub(crate) proof fn lemma_tokens_of(value: Seq<u8>, name: Seq<char>)
    ensures
        lists(tokens_of(value), name) == has_token(value, name),
{
    lemma_text(value);
    if let Some(text) = text_of(value) {
        let pieces = split(text, Separator::Comma);
        lemma_tokens_among(pieces, name);
        if has_trimmed(pieces, name) {
            let i = choose|i: int|
                0 <= i < pieces.len() && trimmed(#[trigger] pieces[i], Separator::Whitespace).len()
                    > 0 && lowered(trimmed(pieces[i], Separator::Whitespace)) == lowered(name);
            lemma_piece_is_token(value, name, i);
        }
        if has_token(value, name) {
            let i = lemma_token_is_piece(value, name);
            assert(trimmed(pieces[i], Separator::Whitespace).len() > 0);
        }
    } else {
        assert(tokens_of(value).len() == 0);
    }
}

proof fn lemma_all_tokens(values: Seq<Value>, name: Seq<char>)
    ensures
        lists(all_tokens(values), name) == (exists|k: int|
            0 <= k < values.len() && has_token((#[trigger] values[k]).bytes, name)),
    decreases values.len(),
{
    if values.len() > 0 {
        let rest = values.drop_last();
        lemma_all_tokens(rest, name);
        lemma_tokens_of(values.last().bytes, name);
        let before = all_tokens(rest);
        let last = tokens_of(values.last().bytes);
        let all = all_tokens(values);
        if lists(all, name) {
            let i = choose|i: int| 0 <= i < all.len() && lowered(#[trigger] all[i]) == lowered(name);
            if i < before.len() {
                assert(before[i] == all[i]);
                let k = choose|k: int|
                    0 <= k < rest.len() && has_token((#[trigger] rest[k]).bytes, name);
                assert(values[k] == rest[k]);
            } else {
                assert(last[i - before.len()] == all[i]);
                assert(values[values.len() - 1] == values.last());
            }
        }
        if exists|k: int| 0 <= k < values.len() && has_token((#[trigger] values[k]).bytes, name) {
            let k = choose|k: int|
                0 <= k < values.len() && has_token((#[trigger] values[k]).bytes, name);
            if k < rest.len() {
                assert(rest[k] == values[k]);
                let i = choose|i: int|
                    0 <= i < before.len() && lowered(#[trigger] before[i]) == lowered(name);
                assert(all[i] == before[i]);
            } else {
                let i = choose|i: int|
                    0 <= i < last.len() && lowered(#[trigger] last[i]) == lowered(name);
                assert(all[before.len() + i] == last[i]);
            }
        }
    }
}

pub(crate) proof fn lemma_connection_names(headers: Headers, name: Seq<char>)
    ensures
        lists(connection_tokens(headers), name) == connection_names(headers, name),
{
    if headers.dom().contains("connection"@) {
        lemma_all_tokens(headers["connection"@], name);
    }
}

/// Whether a name is one of the eight that speak of one connection only.
pub open spec fn is_for_one_connection(name: Seq<char>) -> bool {
    ||| same_letters(name, "connection"@)
    ||| same_letters(name, "keep-alive"@)
    ||| same_letters(name, "proxy-authenticate"@)
    ||| same_letters(name, "proxy-authorization"@)
    ||| same_letters(name, "te"@)
    ||| same_letters(name, "trailer"@)
    ||| same_letters(name, "transfer-encoding"@)
    ||| same_letters(name, "upgrade"@)
}

pub(crate) proof fn lemma_hop_by_hop(name: Seq<char>)
    ensures
        is_hop_by_hop(name) == is_for_one_connection(name),
{
    lemma_lowered(name, "connection"@);
    lemma_lowered(name, "keep-alive"@);
    lemma_lowered(name, "proxy-authenticate"@);
    lemma_lowered(name, "proxy-authorization"@);
    lemma_lowered(name, "te"@);
    lemma_lowered(name, "trailer"@);
    lemma_lowered(name, "transfer-encoding"@);
    lemma_lowered(name, "upgrade"@);
}

/// Exactly eight names are for one connection only, in capital or small letters.
pub proof fn eight_headers_are_for_one_connection(name: &str, res: bool)
    requires
        call_ensures(header_is_hop_by_hop, (name,), res),
    ensures
        res == is_for_one_connection(name@),
{
    lemma_hop_by_hop(name@);
}

/// Whether `after` holds for a name what `before` holds if the header travels on, and nothing
/// otherwise.
pub open spec fn travels_if(after: Headers, before: Headers, name: Seq<char>, on: bool) -> bool {
    &&& after.dom().contains(name) == (before.dom().contains(name) && on)
    &&& after.dom().contains(name) ==> after[name] == before[name]
}

/// Whether a name travels from end to end: it is not `host`, not for one connection only, and no
/// `Connection` header names it.
pub open spec fn is_end_to_end(headers: Headers, name: Seq<char>) -> bool {
    name != "host"@ && !is_for_one_connection(name) && !connection_names(headers, name)
}

pub(crate) proof fn lemma_end_to_end(headers: Headers, name: Seq<char>)
    ensures
        travels_if(end_to_end(headers), headers, name, is_end_to_end(headers, name)),
{
    lemma_hop_by_hop(name);
    lemma_connection_names(headers, name);
}

/// The names that the `Connection` headers list are their comma-separated tokens, without the
/// blanks around them.
pub proof fn connection_tokens_are_listed(headers: &HeaderMap, name: Seq<char>, res: Vec<String>)
    requires
        call_ensures(connection_header_tokens, (headers,), res),
    ensures
        connection_names(header_values(*headers), name) == (exists|i: int|
            0 <= i < res@.len() && same_letters((#[trigger] res@[i])@, name)),
{
    let h = header_values(*headers);
    lemma_connection_names(h, name);
    let tokens = connection_tokens(h);
    assert(texts(res@).len() == res@.len());
    if lists(tokens, name) {
        let i = choose|i: int|
            0 <= i < tokens.len() && lowered(#[trigger] tokens[i]) == lowered(name);
        lemma_lowered(tokens[i], name);
        assert(tokens[i] == res@[i]@);
    }
    if exists|i: int| 0 <= i < res@.len() && same_letters((#[trigger] res@[i])@, name) {
        let i = choose|i: int| 0 <= i < res@.len() && same_letters((#[trigger] res@[i])@, name);
        lemma_lowered(res@[i]@, name);
        assert(tokens[i] == res@[i]@);
    }
}

/// A response hands back every header that travels from end to end, with all its values, and no
/// other.
pub proof fn response_headers_travel_back(headers: &HeaderMap, name: Seq<char>, res: HeaderMap)
    requires
        call_ensures(proxy_response_headers, (headers,), res),
    ensures
        travels_if(
            header_values(res),
            header_values(*headers),
            name,
            is_end_to_end(header_values(*headers), name),
        ),
{
    lemma_end_to_end(header_values(*headers), name);
}

/// Whether a name is one of the usual names of headers that speak of the content or the client.
pub open spec fn is_ordinary(name: Seq<char>) -> bool {
    ||| name == "content-type"@
    ||| name == "content-length"@
    ||| name == "accept"@
    ||| name == "cookie"@
    ||| name == "set-cookie"@
    ||| name == "authorization"@
    ||| name == "chatgpt-account-id"@
}

proof fn lemma_ordinary(name: Seq<char>)
    requires
        is_ordinary(name),
    ensures
        name != "host"@,
        !is_for_one_connection(name),
{
    reveal_strlit("content-type");
    reveal_strlit("content-length");
    reveal_strlit("accept");
    reveal_strlit("cookie");
    reveal_strlit("set-cookie");
    reveal_strlit("authorization");
    reveal_strlit("chatgpt-account-id");
    reveal_strlit("host");
    reveal_strlit("connection");
    reveal_strlit("keep-alive");
    reveal_strlit("proxy-authenticate");
    reveal_strlit("proxy-authorization");
    reveal_strlit("te");
    reveal_strlit("trailer");
    reveal_strlit("transfer-encoding");
    reveal_strlit("upgrade");
    let connection = "connection"@;
    let keep = "keep-alive"@;
    let proxy = "proxy-authenticate"@;
    assert(connection[0] == 'c' && keep[0] == 'k' && proxy[0] == 'p');
    assert("host"@.len() == 4 && connection.len() == 10 && keep.len() == 10 && proxy.len() == 18);
    assert("proxy-authorization"@.len() == 19 && "te"@.len() == 2 && "trailer"@.len() == 7);
    assert("transfer-encoding"@.len() == 17 && "upgrade"@.len() == 7);
    if name == "set-cookie"@ {
        assert(name[0] == 's');
        assert(!same_letter(name[0], connection[0]) && !same_letter(name[0], keep[0]));
    }
    if name == "chatgpt-account-id"@ {
        assert(name[0] == 'c');
        assert(!same_letter(name[0], proxy[0]));
    }
}

/// The headers that speak of the content or the client go upstream and come back with all their
/// values, unless a `Connection` header names them.
pub proof fn ordinary_headers_travel(
    headers: &HeaderMap,
    upstream_base_url: &UpstreamUrl,
    name: Seq<char>,
    sent: Result<HeaderMap, ProxyError>,
    returned: HeaderMap,
)
    requires
        is_ordinary(name),
        !connection_names(header_values(*headers), name),
        header_values(*headers).dom().contains(name),
        call_ensures(proxy_request_headers, (headers, upstream_base_url), sent),
        call_ensures(proxy_response_headers, (headers,), returned),
    ensures
        sent matches Ok(map) ==> header_values(map).dom().contains(name) && header_values(map)[name]
            == header_values(*headers)[name],
        header_values(returned).dom().contains(name) && header_values(returned)[name]
            == header_values(*headers)[name],
{
    lemma_ordinary(name);
    lemma_end_to_end(header_values(*headers), name);
}

/// Headers that travel from end to end are added behind those that are there.
pub proof fn headers_are_added_behind_others(
    from: &HeaderMap,
    to: &mut HeaderMap,
    name: Seq<char>,
)
    requires
        call_ensures(copy_end_to_end_headers, (from, to), ()),
    ensures
        ({
            let source = header_values(*from);
            let before = header_values(*old(to));
            let after = header_values(*final(to));
            let on = is_end_to_end(source, name) && source.dom().contains(name);
            &&& after.dom().contains(name) == (before.dom().contains(name) || on)
            &&& before.dom().contains(name) && on ==> after[name] == before[name] + source[name]
            &&& before.dom().contains(name) && !on ==> after[name] == before[name]
            &&& !before.dom().contains(name) && on ==> after[name] == source[name]
        }),
{
    let source = header_values(*from);
    lemma_end_to_end(source, name);
    let before = header_values(*old(to));
    let after = header_values(*final(to));
    if after.dom().contains(name) {
        if !before.dom().contains(name) {
            assert(after[name] =~= source[name]);
        } else if !(is_end_to_end(source, name) && source.dom().contains(name)) {
            assert(after[name] =~= before[name]);
        }
    }
}

/// Whether a header map has the host of the base URL as the only `Host`: its text, and the port
/// unless it is the usual one.
pub open spec fn has_upstream_host(headers: Headers, url: UrlView) -> bool {
    &&& headers.dom().contains("host"@)
    &&& headers["host"@].len() == 1
    &&& !headers["host"@][0].sensitive
    &&& url.host matches Some(host)
    &&& exists|text: Seq<char>| #[trigger]
        is_host_and_port(text, host, url.port) && headers["host"@][0].bytes == encode_utf8(text)
}

/// Whether a base URL has a host that can be a header value: every byte is visible, a space, a tab
/// or not ASCII.
pub open spec fn has_sendable_host(url: UrlView) -> bool {
    &&& url.host matches Some(host)
    &&& exists|text: Seq<char>| #[trigger]
        is_host_and_port(text, host, url.port) && forall|i: int|
            0 <= i < encode_utf8(text).len() ==> {
                ||| (#[trigger] encode_utf8(text)[i]) == 9
                ||| 32 <= encode_utf8(text)[i] <= 126
                ||| encode_utf8(text)[i] >= 128
            }
}

proof fn lemma_one_spelling(a: Seq<char>, b: Seq<char>, n: nat)
    requires
        crate::guarantees::text::spells(a, n),
        crate::guarantees::text::spells(b, n),
        a.len() == b.len(),
    ensures
        a == b,
    decreases a.len(),
{
    if a.len() > 0 {
        lemma_one_spelling(a.drop_last(), b.drop_last(), n / 10);
        assert(a.last() == b.last());
        assert(a =~= a.drop_last().push(a.last()));
        assert(b =~= b.drop_last().push(b.last()));
    } else {
        assert(a =~= b);
    }
}

proof fn lemma_spelling_length(a: Seq<char>, n: nat)
    requires
        crate::guarantees::text::spells(a, n),
        a.len() > 0,
        n > 0 ==> a[0] != '0',
        n == 0 ==> a.len() == 1,
    ensures
        a.len() == crate::text::decimal(n).len(),
    decreases a.len(),
{
    if a.len() == 1 {
        assert(crate::guarantees::text::spells(a.drop_last(), n / 10));
        assert(n / 10 == 0);
    } else {
        let rest = a.drop_last();
        assert(rest[0] == a[0]);
        if n / 10 == 0 {
            lemma_zero_spelling(rest);
            assert(false);
        }
        lemma_spelling_length(rest, n / 10);
    }
}

proof fn lemma_zero_spelling(a: Seq<char>)
    requires
        crate::guarantees::text::spells(a, 0),
        a.len() > 0,
    ensures
        a[0] == '0',
    decreases a.len(),
{
    if a.len() > 1 {
        lemma_zero_spelling(a.drop_last());
        assert(a.drop_last()[0] == a[0]);
    }
}

/// There is one way to write a host and a port.
proof fn lemma_one_host_and_port(text: Seq<char>, host: Seq<char>, port: Option<u16>)
    requires
        is_host_and_port(text, host, port),
    ensures
        text == (match port {
            Some(port) => host + seq![':'] + crate::text::decimal(port as nat),
            None => host,
        }),
{
    if let Some(n) = port {
        let digits = text.skip(host.len() as int + 1);
        let expected = crate::text::decimal(n as nat);
        crate::guarantees::text::lemma_decimal_spells(n as nat);
        assert(digits[0] == text[host.len() as int + 1]);
        lemma_spelling_length(digits, n as nat);
        lemma_one_spelling(digits, expected, n as nat);
        assert(text =~= host + seq![':'] + digits) by {
            assert forall|i: int| 0 <= i < text.len() implies text[i] == (host + seq![':']
                + digits)[i] by {
                if i < host.len() {
                    assert(text.take(host.len() as int)[i] == host[i]);
                } else if i > host.len() {
                    assert(digits[i - host.len() - 1] == text[i]);
                }
            }
        }
    }
}

pub(crate) proof fn lemma_host(url: UrlView)
    ensures
        has_sendable_host(url) == crate::forward::host_value(url) is Ok,
        crate::forward::host_value(url) matches Ok(bytes) ==> (url.host matches Some(host)
            && exists|text: Seq<char>| #[trigger]
            is_host_and_port(text, host, url.port) && bytes == encode_utf8(text)),
        url.host is None ==> crate::forward::host_value(url) == Err::<Seq<u8>, _>(
            ProxyError::MissingHost,
        ),
        url.host is Some && !has_sendable_host(url) ==> crate::forward::host_value(url) == Err::<
            Seq<u8>,
            _,
        >(ProxyError::InvalidHost),
{
    if let Some(host) = url.host {
        let text = match url.port {
            Some(port) => host + seq![':'] + crate::text::decimal(port as nat),
            None => host,
        };
        lemma_host_and_port(host, url.port);
        assert(is_host_and_port(text, host, url.port));
        if has_sendable_host(url) {
            let other = choose|other: Seq<char>| #[trigger]
                is_host_and_port(other, host, url.port) && forall|i: int|
                    0 <= i < encode_utf8(other).len() ==> {
                        ||| (#[trigger] encode_utf8(other)[i]) == 9
                        ||| 32 <= encode_utf8(other)[i] <= 126
                        ||| encode_utf8(other)[i] >= 128
                    };
            lemma_one_host_and_port(other, host, url.port);
            assert(is_header_value(encode_utf8(text)));
        }
    }
}

/// An upstream HTTP request carries every header of the client that travels from end to end, with
/// all its values, the host of the base URL, and nothing else. It is an error only if the base URL
/// has no host, or one that cannot be a header value.
pub proof fn request_headers_travel_on(
    headers: &HeaderMap,
    upstream_base_url: &UpstreamUrl,
    name: Seq<char>,
    res: Result<HeaderMap, ProxyError>,
)
    requires
        call_ensures(proxy_request_headers, (headers, upstream_base_url), res),
    ensures
        res is Ok == has_sendable_host(upstream_base_url@),
        res matches Ok(sent) ==> has_upstream_host(header_values(sent), upstream_base_url@),
        res matches Ok(sent) ==> (name != "host"@ ==> travels_if(
            header_values(sent),
            header_values(*headers),
            name,
            is_end_to_end(header_values(*headers), name),
        )),
        upstream_base_url@.host is None ==> (res matches Err(error) && error is MissingHost),
        upstream_base_url@.host is Some && res is Err ==> res->Err_0 is InvalidHost,
{
    lemma_end_to_end(header_values(*headers), name);
    lemma_host(upstream_base_url@);
}

/// An upstream WebSocket request is given every header of the client but the eight that are for one
/// connection only, with all its values, and the host of the base URL. It is an error only if the
/// base URL has no host, or one that cannot be a header value.
pub proof fn websocket_headers_travel_on(
    headers: &HeaderMap,
    upstream_base_url: &UpstreamUrl,
    name: Seq<char>,
    res: Result<HeaderMap, ProxyError>,
)
    requires
        call_ensures(proxy_websocket_headers, (headers, upstream_base_url), res),
    ensures
        res is Ok == has_sendable_host(upstream_base_url@),
        res matches Ok(sent) ==> has_upstream_host(header_values(sent), upstream_base_url@),
        res matches Ok(sent) ==> (name != "host"@ ==> travels_if(
            header_values(sent),
            header_values(*headers),
            name,
            !is_for_one_connection(name),
        )),
        upstream_base_url@.host is None ==> (res matches Err(error) && error is MissingHost),
        upstream_base_url@.host is Some && res is Err ==> res->Err_0 is InvalidHost,
{
    lemma_hop_by_hop(name);
    lemma_host(upstream_base_url@);
}

/// Setting the host replaces every `Host` and touches no other header; without a host that can be
/// sent, the headers stay as they are.
pub proof fn only_the_host_is_set(
    headers: &mut HeaderMap,
    upstream_base_url: &UpstreamUrl,
    name: Seq<char>,
    res: Result<(), ProxyError>,
)
    requires
        call_ensures(set_host_header, (headers, upstream_base_url), res),
    ensures
        res is Ok == has_sendable_host(upstream_base_url@),
        res is Ok ==> has_upstream_host(header_values(*final(headers)), upstream_base_url@),
        res is Err || name != "host"@ ==> travels_if(
            header_values(*final(headers)),
            header_values(*old(headers)),
            name,
            true,
        ),
        upstream_base_url@.host is None ==> (res matches Err(error) && error is MissingHost),
        upstream_base_url@.host is Some && res is Err ==> res->Err_0 is InvalidHost,
{
    lemma_host(upstream_base_url@);
}

/// Whether the headers of a request ask for a WebSocket: the first `Upgrade` is `websocket`, and
/// the first `Connection` lists `upgrade`, in capital or small letters.
pub open spec fn wants_websocket(headers: Headers) -> bool {
    &&& headers.dom().contains("upgrade"@)
    &&& headers["upgrade"@].len() > 0
    &&& is_spelled(headers["upgrade"@][0].bytes, "websocket"@)
    &&& headers.dom().contains("connection"@)
    &&& headers["connection"@].len() > 0
    &&& has_token(headers["connection"@][0].bytes, "upgrade"@)
}

pub(crate) proof fn lemma_wants_websocket(headers: Headers)
    ensures
        asks_for_websocket(headers) == wants_websocket(headers),
{
    reveal_strlit("websocket");
    reveal_strlit("upgrade");
    if headers.dom().contains("upgrade"@) && headers["upgrade"@].len() > 0 {
        let value = headers["upgrade"@][0].bytes;
        lemma_text(value);
        if let Some(text) = text_of(value) {
            lemma_lowered(text, "websocket"@);
            assert(same_letters(text, "websocket"@) == is_spelled(value, "websocket"@)) by {
                if is_spelled(value, "websocket"@) {
                    assert forall|i: int| 0 <= i < text.len() implies same_letter(
                        #[trigger] text[i],
                        "websocket"@[i],
                    ) by {
                        assert(same_letter(value[i] as char, "websocket"@[i]));
                    }
                }
                if same_letters(text, "websocket"@) {
                    assert forall|i: int| 0 <= i < value.len() implies same_letter(
                        #[trigger] value[i] as char,
                        "websocket"@[i],
                    ) by {
                        assert(same_letter(text[i], "websocket"@[i]));
                    }
                }
            }
        } else if is_spelled(value, "websocket"@) {
            assert forall|i: int| 0 <= i < value.len() implies (32 <= #[trigger] value[i] <= 126
                || value[i] == 9) by {
                assert(same_letter(value[i] as char, "websocket"@[i]));
            }
            assert(false);
        }
    }
    if headers.dom().contains("connection"@) && headers["connection"@].len() > 0 {
        let value = headers["connection"@][0].bytes;
        lemma_text(value);
        if let Some(text) = text_of(value) {
            let pieces = split(text, Separator::Comma);
            if has_piece(pieces, "upgrade"@) {
                let i = choose|i: int|
                    0 <= i < pieces.len() && lowered(
                        trimmed(#[trigger] pieces[i], Separator::Whitespace),
                    ) == lowered("upgrade"@);
                lemma_lowered(trimmed(pieces[i], Separator::Whitespace), "upgrade"@);
                lemma_piece_is_token(value, "upgrade"@, i);
            }
            if has_token(value, "upgrade"@) {
                let i = lemma_token_is_piece(value, "upgrade"@);
                assert(lowered(trimmed(pieces[i], Separator::Whitespace)) == lowered("upgrade"@));
            }
        }
    }
}

/// A request asks for a WebSocket exactly if its first `Upgrade` and its first `Connection` say so.
pub proof fn websockets_are_recognised(headers: &HeaderMap, res: bool)
    requires
        call_ensures(is_websocket_upgrade, (headers,), res),
    ensures
        res == wants_websocket(header_values(*headers)),
{
    lemma_wants_websocket(header_values(*headers));
}

/// Whether a value is a row of zeros, with or without a plus sign before it, between blanks.
pub open spec fn is_zero(value: Seq<u8>) -> bool {
    is_visible(value) && exists|a: int, b: int| #[trigger] zeros_at(value, a, b)
}

/// Whether a row of zeros reaches from `a` to `b`, and nothing but blanks stands around it.
pub open spec fn zeros_at(value: Seq<u8>, a: int, b: int) -> bool {
    let start = if value[a] == 43 {
        a + 1
    } else {
        a
    };
    &&& 0 <= a < b <= value.len()
    &&& start < b
    &&& forall|i: int| 0 <= i < a ==> is_blank(#[trigger] value[i])
    &&& forall|i: int| b <= i < value.len() ==> is_blank(#[trigger] value[i])
    &&& forall|i: int| start <= i < b ==> #[trigger] value[i] == 48
}

proof fn lemma_zero_digits(digits: Seq<char>)
    requires
        all_digits(digits),
    ensures
        (decimal_value(digits) == 0) == (forall|i: int|
            0 <= i < digits.len() ==> #[trigger] digits[i] == '0'),
    decreases digits.len(),
{
    if digits.len() > 0 {
        let rest = digits.drop_last();
        assert(is_digit(digits[digits.len() - 1]));
        assert(all_digits(rest));
        lemma_zero_digits(rest);
        if decimal_value(digits) == 0 {
            assert forall|i: int| 0 <= i < digits.len() implies #[trigger] digits[i] == '0' by {
                if i < rest.len() {
                    assert(rest[i] == digits[i]);
                }
            }
        }
        if forall|i: int| 0 <= i < digits.len() ==> #[trigger] digits[i] == '0' {
            assert forall|i: int| 0 <= i < rest.len() implies #[trigger] rest[i] == '0' by {
                assert(rest[i] == digits[i]);
            }
            assert(digits.last() == '0');
        }
    }
}

proof fn lemma_is_zero(value: Seq<u8>)
    ensures
        is_zero_length(value) == is_zero(value),
{
    lemma_text(value);
    if let Some(text) = text_of(value) {
        let (a, b) = lemma_trimming_exists(text, Separator::Whitespace);
        let core = text.subrange(a, b);
        assert forall|i: int| 0 <= i < a implies is_blank(#[trigger] value[i]) by {
            assert(text.take(a)[i] == text[i]);
        }
        assert forall|i: int| b <= i < value.len() implies is_blank(#[trigger] value[i]) by {
            assert(text.skip(b)[i - b] == text[i]);
        }
        if is_zero_length(value) {
            let digits = unsigned(core);
            lemma_zero_digits(digits);
            let start = if value[a] == 43 {
                a + 1
            } else {
                a
            };
            assert(core[0] == text[a]);
            assert forall|i: int| start <= i < b implies #[trigger] value[i] == 48 by {
                assert(digits[i - start] == text[i]);
            }
            assert(zeros_at(value, a, b));
        }
        if is_zero(value) {
            let (x, y) = choose|x: int, y: int| #[trigger] zeros_at(value, x, y);
            let start = if value[x] == 43 {
                x + 1
            } else {
                x
            };
            let zeros = text.subrange(x, y);
            assert(text =~= text.take(x) + zeros + text.skip(y));
            assert(all_separate(Separator::Whitespace, text.take(x))) by {
                assert forall|i: int| 0 <= i < x implies separates(
                    Separator::Whitespace,
                    #[trigger] text.take(x)[i],
                ) by {
                    assert(is_blank(value[i]));
                    assert(text.take(x)[i] == text[i]);
                }
            }
            assert(all_separate(Separator::Whitespace, text.skip(y))) by {
                assert forall|i: int| 0 <= i < text.len() - y implies separates(
                    Separator::Whitespace,
                    #[trigger] text.skip(y)[i],
                ) by {
                    assert(is_blank(value[y + i]));
                    assert(text.skip(y)[i] == text[y + i]);
                }
            }
            assert(is_bare(Separator::Whitespace, zeros)) by {
                assert(zeros[0] == text[x]);
                assert(zeros.last() == text[y - 1]);
                assert(value[y - 1] == 48);
            }
            lemma_trimmed_core(text.take(x), zeros, text.skip(y), Separator::Whitespace);
            let digits = unsigned(zeros);
            assert(zeros[0] == text[x]);
            assert forall|i: int| 0 <= i < digits.len() implies #[trigger] digits[i] == '0' by {
                assert(value[start + i] == 48);
                assert(digits[i] == text[start + i]);
            }
            assert(all_digits(digits));
            lemma_zero_digits(digits);
        }
    }
}

/// Whether the headers of a request announce a body: there is a `Transfer-Encoding`, or a
/// `Content-Length` that is not zero.
pub open spec fn announces_body(headers: Headers) -> bool {
    ||| headers.dom().contains("transfer-encoding"@)
    ||| headers.dom().contains("content-length"@) && exists|k: int|
        0 <= k < headers["content-length"@].len() && !is_zero(
            (#[trigger] headers["content-length"@][k]).bytes,
        )
}

pub(crate) proof fn lemma_announces_body(headers: Headers)
    ensures
        declares_body(headers) == announces_body(headers),
{
    if headers.dom().contains("content-length"@) {
        let values = headers["content-length"@];
        assert(values == values_of(headers, "content-length"@));
        assert forall|k: int| 0 <= k < values.len() implies is_zero_length(
            (#[trigger] values[k]).bytes,
        ) == is_zero(values[k].bytes) by {
            lemma_is_zero(values[k].bytes);
        }
    }
}

/// Headers announce a body by a `Transfer-Encoding`, or by a `Content-Length` that is not zero.
pub proof fn bodies_are_announced(headers: &HeaderMap, res: bool)
    requires
        call_ensures(request_has_declared_body, (headers,), res),
    ensures
        res == announces_body(header_values(*headers)),
{
    lemma_announces_body(header_values(*headers));
}

pub(crate) proof fn lemma_methods_with_bodies(method: Seq<char>)
    ensures
        method == "POST"@ || method == "PUT"@ || method == "PATCH"@ || method == "DELETE"@ || method
            == "OPTIONS"@ ==> method != "GET"@ && method != "HEAD"@,
{
    reveal_strlit("GET");
    reveal_strlit("HEAD");
    reveal_strlit("POST");
    reveal_strlit("PUT");
    reveal_strlit("PATCH");
    reveal_strlit("DELETE");
    reveal_strlit("OPTIONS");
    assert("GET"@[0] == 'G' && "HEAD"@[0] == 'H');
    if method == "POST"@ || method == "PUT"@ || method == "PATCH"@ {
        assert(method[0] == 'P');
    }
    if method == "DELETE"@ {
        assert(method[0] == 'D');
    }
    if method == "OPTIONS"@ {
        assert(method[0] == 'O');
    }
}

/// The body of every request is passed on, whatever its headers are, unless the method is `GET` or
/// `HEAD`; for these it is passed on exactly if the headers announce one.
pub proof fn bodies_are_passed_on(method: &str, headers: &HeaderMap, res: bool)
    requires
        call_ensures(request_should_forward_body, (method, headers), res),
    ensures
        method@ != "GET"@ && method@ != "HEAD"@ ==> res,
        method@ == "POST"@ || method@ == "PUT"@ || method@ == "PATCH"@ || method@ == "DELETE"@
            || method@ == "OPTIONS"@ ==> res,
        method@ == "GET"@ || method@ == "HEAD"@ ==> res == announces_body(header_values(*headers)),
{
    lemma_announces_body(header_values(*headers));
    lemma_methods_with_bodies(method@);
}

/// A value can be sent unless it holds a control character other than the tab; it is a text if it
/// is visible ASCII, and then the text has the same characters.
pub proof fn header_values_are_checked(value: &[u8], sendable: bool, text: Option<String>)
    requires
        call_ensures(check_header_value, (value,), sendable),
        call_ensures(value_text, (value,), text),
    ensures
        sendable == (forall|i: int|
            0 <= i < value@.len() ==> ((#[trigger] value@[i]) == 9 || 32 <= value@[i] <= 126
                || value@[i] >= 128)),
        text is Some == is_visible(value@),
        text matches Some(text) ==> text@.len() == value@.len() && forall|i: int|
            0 <= i < value@.len() ==> #[trigger] text@[i] as int == value@[i] as int,
{
    lemma_text(value@);
}

/// The count of a header map is the number of its different names.
pub proof fn names_are_counted(map: &HeaderMap, res: usize)
    requires
        call_ensures(header_count, (map,), res),
    ensures
        header_values(*map).dom().finite(),
        header_values(*map).dom().len() == res,
{
}

} // verus!
