//! Promises on what the proxy does with requests and responses.
use axum::http::HeaderMap;
use vstd::prelude::*;

use crate::auth::{AuthHeaderCache, AuthHeaderState, CachedAuthHeaders};
use crate::error::ProxyError;
use crate::guarantees::headers::{
    announces_body, connection_names, has_sendable_host, has_upstream_host, is_end_to_end,
    is_for_one_connection, lemma_announces_body, lemma_end_to_end, lemma_host, lemma_hop_by_hop,
    lemma_methods_with_bodies, lemma_wants_websocket, travels_if, wants_websocket,
};
use crate::guarantees::login::{brings, is_completed, lemma_completed, remembers, stays};
use crate::guarantees::upstream::{
    is_between_slashes, is_upstream_path, is_websocket_url, lemma_combined_is_upstream_path,
    optional_text,
};
use crate::headers::{header_values, Headers};
use crate::preview::format_error_chain;
use crate::proxy::{
    healthz, proxy_handler, proxy_http, read_failed, send_failed, upgrade_rejected,
    websocket_connected, Action, ClientRequest, Connection, ConnectionStep, LocalResponse,
    ProxyConfig, ResponseHead,
};
use crate::text::texts;
use crate::upstream::{
    combined_path, upstream_websocket_url, url_with_scheme, url_with_target, RequestTarget, UrlView,
};
use crate::websocket::{client_request, websocket_request};

verus! {

/// Whether a reply is this text, a line break behind it, with this status.
pub open spec fn says(reply: LocalResponse, status: u16, text: Seq<char>) -> bool {
    reply.status == status && reply.body@ == text + "\n"@
}

/// Whether a URL is the base URL with the path that is put together and the query of the request.
pub open spec fn is_request_url(
    url: Seq<char>,
    upstream: UrlView,
    target: RequestTarget,
    base: Seq<char>,
    prefix: Seq<char>,
) -> bool {
    exists|path: Seq<char>|
        is_upstream_path(path, base, prefix, target.path@) && url == (#[trigger] url_with_target(
            upstream.text,
            path,
            optional_text(target.query),
        )).href
}

/// Whether a report tells which login headers a request brought along and which it was given, where
/// `remembered` is what is remembered after it.
pub open spec fn tells(
    report: AuthHeaderState,
    seen: Headers,
    remembered: CachedAuthHeaders,
) -> bool {
    &&& report.authorization_present == brings(seen, "authorization"@) is Some
    &&& report.authorization_injected == (brings(seen, "authorization"@) is None
        && remembered.authorization is Some)
    &&& report.chatgpt_account_id_present == brings(seen, "chatgpt-account-id"@) is Some
    &&& report.chatgpt_account_id_injected == (brings(seen, "chatgpt-account-id"@) is None
        && remembered.chatgpt_account_id is Some)
}

proof fn lemma_login_names()
    ensures
        "connection"@ != "authorization"@,
        "connection"@ != "chatgpt-account-id"@,
        "transfer-encoding"@ != "authorization"@,
        "transfer-encoding"@ != "chatgpt-account-id"@,
        "content-length"@ != "authorization"@,
        "content-length"@ != "chatgpt-account-id"@,
{
    reveal_strlit("connection");
    reveal_strlit("authorization");
    reveal_strlit("chatgpt-account-id");
    reveal_strlit("transfer-encoding");
    reveal_strlit("content-length");
    assert("connection"@.len() == 10 && "authorization"@.len() == 13);
    assert("chatgpt-account-id"@.len() == 18 && "transfer-encoding"@.len() == 17);
    assert("content-length"@.len() == 14);
}

proof fn lemma_same_connection(full: Headers, seen: Headers, remembered: CachedAuthHeaders)
    requires
        is_completed(full, seen, remembered),
    ensures
        announces_body(full) == announces_body(seen),
        forall|name: Seq<char>| #[trigger]
            is_end_to_end(full, name) == is_end_to_end(seen, name),
{
    lemma_login_names();
    assert(stays(full, seen, "connection"@));
    assert(stays(full, seen, "transfer-encoding"@));
    assert(stays(full, seen, "content-length"@));
    assert forall|name: Seq<char>| #[trigger]
        is_end_to_end(full, name) == is_end_to_end(seen, name) by {
        assert(connection_names(full, name) == connection_names(seen, name));
    }
}

/// Whatever is done with a request, its login headers are remembered.
pub proof fn every_request_is_taken_note_of(
    config: &ProxyConfig,
    cache: &mut AuthHeaderCache,
    request: ClientRequest,
    res: Action,
)
    requires
        call_ensures(proxy_handler, (config, cache, request), res),
    ensures
        remembers(final(cache)@, old(cache)@, header_values(request.headers)),
{
}

/// A request that asks for no WebSocket is sent upstream with its own method, to the base URL with
/// the path that is put together and its own query. It carries the headers that travel from end to
/// end, the login headers that it lacks, the host of the base URL, and no other. Its body goes with
/// it unless the method is `GET` or `HEAD` and no body is announced.
pub proof fn requests_are_sent_upstream(
    config: &ProxyConfig,
    cache: &mut AuthHeaderCache,
    request: ClientRequest,
    base: Seq<char>,
    prefix: Seq<char>,
    full: Headers,
    name: Seq<char>,
    res: Action,
)
    requires
        call_ensures(proxy_handler, (config, cache, request), res),
        is_between_slashes(config.upstream_base_url@.path, base),
        is_between_slashes(config.upstream_prefix@, prefix),
        is_completed(full, header_values(request.headers), final(cache)@),
        !wants_websocket(header_values(request.headers)),
        has_sendable_host(config.upstream_base_url@),
    ensures
        ({
            let seen = header_values(request.headers);
            res matches Action::SendHttp { method, url, headers, forward_body, auth } && {
                &&& method@ == request.method@
                &&& is_request_url(
                    url@,
                    config.upstream_base_url@,
                    request.target,
                    base,
                    prefix,
                )
                &&& has_upstream_host(header_values(headers), config.upstream_base_url@)
                &&& name != "host"@ ==> travels_if(
                    header_values(headers),
                    full,
                    name,
                    is_end_to_end(seen, name),
                )
                &&& method@ != "GET"@ && method@ != "HEAD"@ ==> forward_body
                &&& method@ == "POST"@ || method@ == "PUT"@ || method@ == "PATCH"@ || method@
                    == "DELETE"@ || method@ == "OPTIONS"@ ==> forward_body
                &&& method@ == "GET"@ || method@ == "HEAD"@ ==> forward_body == announces_body(seen)
                &&& tells(auth, seen, final(cache)@)
            }
        }),
{
    let seen = header_values(request.headers);
    lemma_completed(full, seen, old(cache)@, final(cache)@);
    lemma_same_connection(full, seen, final(cache)@);
    lemma_wants_websocket(seen);
    lemma_announces_body(full);
    lemma_methods_with_bodies(request.method@);
    lemma_end_to_end(full, name);
    lemma_host(config.upstream_base_url@);
    assert(is_end_to_end(full, name) == is_end_to_end(seen, name));
    let path = combined_path(
        config.upstream_base_url@.path,
        config.upstream_prefix@,
        request.target.path@,
    );
    lemma_combined_is_upstream_path(
        config.upstream_base_url@.path,
        config.upstream_prefix@,
        request.target.path@,
        base,
        prefix,
    );
    assert(url_with_target(
        config.upstream_base_url@.text,
        path,
        optional_text(request.target.query),
    ).href == res->SendHttp_url@);
}

/// A request that asks for no WebSocket is answered by the proxy itself only if the base URL has no
/// host, or one that cannot be a header value. The answer says which.
pub proof fn requests_without_host_are_refused(
    config: &ProxyConfig,
    cache: &mut AuthHeaderCache,
    request: ClientRequest,
    res: Action,
)
    requires
        call_ensures(proxy_handler, (config, cache, request), res),
        !wants_websocket(header_values(request.headers)),
    ensures
        res is Reply == !has_sendable_host(config.upstream_base_url@),
        res is SendHttp == has_sendable_host(config.upstream_base_url@),
        res matches Action::Reply(reply) ==> if config.upstream_base_url@.host is None {
            says(
                reply,
                502,
                "upstream request failed: "@ + "upstream base url is missing host"@,
            )
        } else {
            says(reply, 502, "upstream request failed: "@ + "failed to parse header value"@)
        },
{
    lemma_wants_websocket(header_values(request.headers));
    lemma_host(config.upstream_base_url@);
}

/// Whether the headers of an upstream WebSocket request are the client's own, with the last value
/// of each name, under what a WebSocket client has to send: the `Host` of the base URL,
/// `Connection` and `Upgrade` for a WebSocket, version 13 and some key. The eight headers for one
/// connection only do not come from the client.
pub open spec fn is_websocket_request(
    sent: Headers,
    full: Headers,
    upstream: UrlView,
    name: Seq<char>,
) -> bool {
    &&& has_upstream_host(sent, upstream)
    &&& is_plain(sent, "connection"@, "Upgrade"@)
    &&& is_plain(sent, "upgrade"@, "websocket"@)
    &&& !full.dom().contains("sec-websocket-version"@) ==> is_plain(
        sent,
        "sec-websocket-version"@,
        "13"@,
    )
    &&& sent.dom().contains("sec-websocket-key"@) && sent["sec-websocket-key"@].len() == 1
    &&& name != "host"@ && !is_for_one_connection(name) && full.dom().contains(name)
        ==> sent.dom().contains(name) && sent[name] == seq![full[name].last()]
    &&& sent.dom().contains(name) && !full.dom().contains(name) ==> name == "host"@ || name
        == "connection"@ || name == "upgrade"@ || name == "sec-websocket-version"@ || name
        == "sec-websocket-key"@
    &&& sent.dom().contains(name) && is_for_one_connection(name) ==> name == "connection"@ || name
        == "upgrade"@
}

/// Whether a header has one value, these ASCII characters, which is not marked as sensitive.
pub open spec fn is_plain(headers: Headers, name: Seq<char>, text: Seq<char>) -> bool {
    &&& headers.dom().contains(name)
    &&& headers[name].len() == 1
    &&& !headers[name][0].sensitive
    &&& headers[name][0].bytes.len() == text.len()
    &&& forall|i: int|
        0 <= i < text.len() ==> (#[trigger] headers[name][0].bytes[i]) as int == text[i] as int
}

proof fn lemma_special_names()
    ensures
        "host"@ != "connection"@,
        "host"@ != "upgrade"@,
        "host"@ != "sec-websocket-version"@,
        "host"@ != "sec-websocket-key"@,
        "connection"@ != "upgrade"@,
        "connection"@ != "sec-websocket-version"@,
        "connection"@ != "sec-websocket-key"@,
        "upgrade"@ != "sec-websocket-version"@,
        "upgrade"@ != "sec-websocket-key"@,
        "sec-websocket-version"@ != "sec-websocket-key"@,
        is_for_one_connection("connection"@),
        is_for_one_connection("upgrade"@),
        !is_for_one_connection("host"@),
        !is_for_one_connection("sec-websocket-version"@),
        !is_for_one_connection("sec-websocket-key"@),
{
    reveal_strlit("host");
    reveal_strlit("connection");
    reveal_strlit("upgrade");
    reveal_strlit("sec-websocket-version");
    reveal_strlit("sec-websocket-key");
    reveal_strlit("keep-alive");
    reveal_strlit("proxy-authenticate");
    reveal_strlit("proxy-authorization");
    reveal_strlit("te");
    reveal_strlit("trailer");
    reveal_strlit("transfer-encoding");
    assert("host"@.len() == 4 && "connection"@.len() == 10 && "upgrade"@.len() == 7);
    assert("sec-websocket-version"@.len() == 21 && "sec-websocket-key"@.len() == 17);
    let key = "sec-websocket-key"@;
    let coding = "transfer-encoding"@;
    assert(key[0] == 's' && coding[0] == 't');
    assert(!crate::guarantees::text::same_letter(key[0], coding[0]));
}

pub(crate) proof fn lemma_websocket_request(
    url: Seq<char>,
    full: Headers,
    upstream: UrlView,
    name: Seq<char>,
    made: Result<HeaderMap, ProxyError>,
)
    requires
        websocket_request(url, full, upstream, made),
    ensures
        client_request(url) matches Err(text) ==> (made matches Err(ProxyError::Request(reason))
            && reason@ == text),
        client_request(url) is Ok && upstream.host is None ==> (made matches Err(error)
            && error is MissingHost),
        client_request(url) is Ok && upstream.host is Some && !has_sendable_host(upstream) ==> (
        made matches Err(error) && error is InvalidHost),
        client_request(url) is Ok && has_sendable_host(upstream) ==> (made matches Ok(sent)
            && is_websocket_request(header_values(sent), full, upstream, name)),
{
    lemma_host(upstream);
    lemma_hop_by_hop(name);
    lemma_hop_by_hop("connection"@);
    lemma_hop_by_hop("upgrade"@);
    lemma_hop_by_hop("sec-websocket-version"@);
    lemma_hop_by_hop("sec-websocket-key"@);
    lemma_special_names();
    if client_request(url) is Ok && has_sendable_host(upstream) {
        let passed_on = crate::forward::websocket_request_headers(full, upstream)->Ok_0;
        let sent = header_values(made->Ok_0);
        let host = client_request(url)->Ok_0;
        let start = choose|start: Headers| #[trigger]
            crate::websocket::is_client_handshake(start, host) && sent
                == crate::websocket::overlaid(start, passed_on);
        assert(start.dom().contains("host"@));
        assert(start.dom().contains("connection"@));
        assert(start.dom().contains("upgrade"@));
        assert(start.dom().contains("sec-websocket-version"@));
        assert(start.dom().contains("sec-websocket-key"@));
        assert(sent["host"@] =~= passed_on["host"@]);
        assert(is_plain(sent, "connection"@, "Upgrade"@)) by {
            reveal_strlit("Upgrade");
            let text = "Upgrade"@;
            assert(text.len() == 7);
            assert(crate::websocket::ascii(text).len() == 7);
        }
        assert(is_plain(sent, "upgrade"@, "websocket"@)) by {
            reveal_strlit("websocket");
        }
        if !full.dom().contains("sec-websocket-version"@) {
            assert(is_plain(sent, "sec-websocket-version"@, "13"@)) by {
                reveal_strlit("13");
            }
        }
        assert(has_upstream_host(sent, upstream));
        assert(sent["sec-websocket-key"@].len() == 1);
        assert(name != "host"@ && !is_for_one_connection(name) && full.dom().contains(name)
            ==> sent.dom().contains(name) && sent[name] == seq![full[name].last()]);
        assert(sent.dom().contains(name) && !full.dom().contains(name) ==> name == "host"@ || name
            == "connection"@ || name == "upgrade"@ || name == "sec-websocket-version"@ || name
            == "sec-websocket-key"@);
        assert(sent.dom().contains(name) && is_for_one_connection(name) ==> name == "connection"@
            || name == "upgrade"@);
    }
}

/// The scheme of a WebSocket in place of `https` or `http`.
pub open spec fn socket_scheme(scheme: Seq<char>) -> Seq<char> {
    if scheme == "https"@ {
        "wss"@
    } else {
        "ws"@
    }
}

/// A request for a WebSocket is sent upstream as one, where the HTTP request would go, with `wss`
/// for `https` and `ws` for `http`. It carries the client's own headers and the login headers that
/// it lacks.
pub proof fn websockets_are_connected(
    config: &ProxyConfig,
    cache: &mut AuthHeaderCache,
    request: ClientRequest,
    base: Seq<char>,
    prefix: Seq<char>,
    full: Headers,
    name: Seq<char>,
    res: Action,
)
    requires
        call_ensures(proxy_handler, (config, cache, request), res),
        is_between_slashes(config.upstream_base_url@.path, base),
        is_between_slashes(config.upstream_prefix@, prefix),
        is_completed(full, header_values(request.headers), final(cache)@),
        wants_websocket(header_values(request.headers)),
    ensures
        ({
            let upstream = config.upstream_base_url@;
            &&& !(res is SendHttp)
            &&& upstream.scheme != "https"@ && upstream.scheme != "http"@ ==> (
            res matches Action::Reply(reply) && says(
                reply,
                502,
                "invalid upstream websocket url: "@ + ("unsupported upstream scheme `"@
                    + upstream.scheme + "`"@),
            ))
            &&& upstream.scheme == "https"@ || upstream.scheme == "http"@ ==> exists|made: String|
                {
                    &&& #[trigger] is_websocket_url(
                        Ok(made),
                        upstream.text,
                        socket_scheme(upstream.scheme),
                        &request.target,
                        base,
                        prefix,
                        upstream.host,
                        upstream.port,
                    )
                    &&& match client_request(made@) {
                        Err(text) => res matches Action::Reply(reply) && says(
                            reply,
                            502,
                            "invalid upstream websocket request: "@ + text,
                        ),
                        Ok(_) => if upstream.host is None {
                            res matches Action::Reply(reply) && says(
                                reply,
                                502,
                                "invalid upstream websocket request: "@
                                    + "upstream base url is missing host"@,
                            )
                        } else if !has_sendable_host(upstream) {
                            res matches Action::Reply(reply) && says(
                                reply,
                                502,
                                "invalid upstream websocket request: "@
                                    + "failed to parse header value"@,
                            )
                        } else {
                            res matches Action::ConnectWebSocket { url, headers, auth } && url@
                                == made@ && is_websocket_request(
                                header_values(headers),
                                full,
                                upstream,
                                name,
                            ) && tells(auth, header_values(request.headers), final(cache)@)
                        },
                    }
                }
        }),
{
    let seen = header_values(request.headers);
    let upstream = config.upstream_base_url@;
    lemma_completed(full, seen, old(cache)@, final(cache)@);
    lemma_wants_websocket(seen);
    let path = combined_path(upstream.path, config.upstream_prefix@, request.target.path@);
    lemma_combined_is_upstream_path(
        upstream.path,
        config.upstream_prefix@,
        request.target.path@,
        base,
        prefix,
    );
    reveal_strlit("http");
    reveal_strlit("https");
    assert("http"@.len() != "https"@.len());
    let built = choose|built: Result<String, ProxyError>| #[trigger]
        upstream_websocket_url(upstream, config.upstream_prefix@, request.target, built) && (
        match built {
            Err(error) => res matches Action::Reply(answer) && crate::proxy::is_reply(
                answer,
                502,
                "invalid upstream websocket url: "@,
                error.text(),
            ),
            Ok(url) => exists|made: Result<HeaderMap, ProxyError>| #[trigger]
                websocket_request(url@, full, upstream, made) && (match made {
                    Err(error) => res matches Action::Reply(answer) && crate::proxy::is_reply(
                        answer,
                        502,
                        "invalid upstream websocket request: "@,
                        error.text(),
                    ),
                    Ok(made) => res == (Action::ConnectWebSocket {
                        url,
                        headers: made,
                        auth: old(cache)@.report(seen),
                    }),
                }),
        });
    if let Ok(url) = built {
        let made = choose|made: Result<HeaderMap, ProxyError>| #[trigger]
            websocket_request(url@, full, upstream, made) && (match made {
                Err(error) => res matches Action::Reply(answer) && crate::proxy::is_reply(
                    answer,
                    502,
                    "invalid upstream websocket request: "@,
                    error.text(),
                ),
                Ok(made) => res == (Action::ConnectWebSocket {
                    url,
                    headers: made,
                    auth: old(cache)@.report(seen),
                }),
            });
        lemma_websocket_request(url@, full, upstream, name, made);
        let scheme = socket_scheme(upstream.scheme);
        assert(url_with_scheme(
            upstream.text,
            path,
            optional_text(request.target.query),
            scheme,
        ) is Some);
        assert(is_websocket_url(
            Ok(url),
            upstream.text,
            scheme,
            &request.target,
            base,
            prefix,
            upstream.host,
            upstream.port,
        ));
    }
}

/// An upstream response is handed back with its own status and the headers that travel from end to
/// end. Its body is passed on as it arrives exactly if the status says that all went well.
pub proof fn responses_are_handed_back(
    status: u16,
    headers: &HeaderMap,
    name: Seq<char>,
    res: ResponseHead,
)
    requires
        call_ensures(proxy_http, (status, headers), res),
    ensures
        res.status == status,
        res.stream_body == (200 <= status <= 299),
        travels_if(
            header_values(res.headers),
            header_values(*headers),
            name,
            is_end_to_end(header_values(*headers), name),
        ),
{
    lemma_end_to_end(header_values(*headers), name);
}

/// The client's WebSocket is accepted exactly if the upstream one is there. If the upstream service
/// answered with a response instead, the client gets it, with its status if it has three digits,
/// its body and the headers that travel from end to end. If there was no answer, the client is told
/// why.
pub proof fn clients_learn_what_came_of_their_websocket(
    connection: Connection,
    name: Seq<char>,
    res: ConnectionStep,
)
    requires
        call_ensures(websocket_connected, (connection,), res),
    ensures
        res is Upgrade == connection is Connected,
        connection matches Connection::Refused { status, headers, body } ==> (
        res matches ConnectionStep::Respond(response) && {
            &&& 100 <= status <= 999 ==> response.status == status
            &&& !(100 <= status <= 999) ==> response.status == 502
            &&& travels_if(
                header_values(response.headers),
                header_values(headers),
                name,
                is_end_to_end(header_values(headers), name),
            )
            &&& body matches Some(bytes) ==> response.body@ == bytes@
            &&& body is None ==> response.body@.len() == 0
        }),
        connection matches Connection::Failed(reason) ==> (
        res matches ConnectionStep::Reply(reply) && says(
            reply,
            502,
            "failed to connect upstream websocket: "@ + reason@,
        )),
{
    if let Connection::Refused { status, headers, body } = connection {
        lemma_end_to_end(header_values(headers), name);
    }
}

/// A client whose own WebSocket request cannot be accepted is told why.
pub proof fn rejected_upgrades_are_explained(reason: &str, res: LocalResponse)
    requires
        call_ensures(upgrade_rejected, (reason,), res),
    ensures
        says(res, 400, "invalid websocket upgrade request: "@ + reason@),
{
}

/// A health check is answered.
pub proof fn health_checks_are_answered(res: LocalResponse)
    requires
        call_ensures(healthz, (), res),
    ensures
        res.status == 200,
        res.body@ == "ok\n"@,
{
}

/// A failed request is answered with what was tried, at which URL, and every cause in turn.
pub proof fn failed_requests_are_explained(
    url: &str,
    causes: &Vec<String>,
    sending: &Vec<String>,
    reading: &Vec<String>,
    sending_chain: String,
    reading_chain: String,
    unsent: LocalResponse,
    unread: LocalResponse,
)
    requires
        sending@.len() == causes@.len() + 1,
        sending@[0]@ == "failed to send upstream request to "@ + url@,
        reading@.len() == causes@.len() + 1,
        reading@[0]@ == "failed to read upstream error response body from "@ + url@,
        forall|i: int|
            0 <= i < causes@.len() ==> (#[trigger] causes@[i])@ == sending@[i + 1]@ && causes@[i]@
                == reading@[i + 1]@,
        call_ensures(format_error_chain, (sending,), sending_chain),
        call_ensures(format_error_chain, (reading,), reading_chain),
        call_ensures(send_failed, (url, causes), unsent),
        call_ensures(read_failed, (url, causes), unread),
    ensures
        says(unsent, 502, "upstream request failed: "@ + sending_chain@),
        says(unread, 502, "upstream request failed: "@ + reading_chain@),
{
    let list = texts(causes@);
    assert(list.len() == causes@.len());
    assert forall|i: int| 0 <= i < causes@.len() implies list[i] == (#[trigger] causes@[i])@ by {
    }
    assert(texts(sending@) =~= seq!["failed to send upstream request to "@ + url@] + list) by {
        assert forall|i: int| 0 <= i < sending@.len() implies texts(sending@)[i] == (seq![
            "failed to send upstream request to "@ + url@,
        ] + list)[i] by {
            if i > 0 {
                assert(causes@[i - 1]@ == sending@[i - 1 + 1]@);
            }
        }
    }
    assert(texts(reading@) =~= seq!["failed to read upstream error response body from "@ + url@]
        + list) by {
        assert forall|i: int| 0 <= i < reading@.len() implies texts(reading@)[i] == (seq![
            "failed to read upstream error response body from "@ + url@,
        ] + list)[i] by {
            if i > 0 {
                assert(causes@[i - 1]@ == reading@[i - 1 + 1]@);
            }
        }
    }
}

} // verus!
