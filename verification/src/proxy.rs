//! What the proxy does with a request, step by step.
//!
//! The network is left to the caller: it hands over what came in, does what it is told, and hands
//! over what came of it.
use axum::http::HeaderMap;
use vstd::prelude::*;

use crate::auth::{
    completed_headers_stay_small, missing_login_headers_are_replayed, non_empty,
    own_headers_are_kept, AuthHeaderCache, AuthHeaderState, CachedAuthHeaders,
};
use crate::error::ProxyError;
use crate::forward::{
    asks_for_websocket, connection_tokens, end_to_end, forwards_body, is_hop_by_hop,
    is_websocket_upgrade, lists, proxy_request_headers, proxy_response_headers, request_headers,
    request_should_forward_body, websocket_request_headers,
};
use crate::headers::{has_room, header_values, values_of, Headers};
use crate::preview::format_error_chain;
use crate::text::{joined, lowered, texts};
use crate::upstream::{
    build_upstream_url, build_upstream_websocket_url, fits, upstream_url, upstream_websocket_url,
    RequestTarget, UpstreamUrl, UrlView,
};
use crate::websocket::{
    build_upstream_websocket_request, is_upstream_handshake, sendable_status,
    websocket_handshake_error_response, websocket_request, ProxyResponse, BAD_GATEWAY,
};

verus! {

/// How the proxy is set up.
#[derive(Clone)]
pub struct ProxyConfig {
    /// The address to listen on.
    pub listen: String,
    /// The upstream service.
    pub upstream_base_url: UpstreamUrl,
    /// A path that is put before the path of every request.
    pub upstream_prefix: String,
}

/// A request of a client, without its body.
pub struct ClientRequest {
    pub method: String,
    pub target: RequestTarget,
    pub headers: HeaderMap,
}

/// A short text that the proxy itself answers with.
pub struct LocalResponse {
    pub status: u16,
    pub body: String,
}

/// The status code "OK".
pub const OK: u16 = 200;

/// The status code "Bad Request".
pub const BAD_REQUEST: u16 = 400;

/// What is to be done with a request.
pub enum Action {
    /// Connect to the upstream WebSocket.
    ConnectWebSocket { url: String, headers: HeaderMap, auth: AuthHeaderState },
    /// Send the request upstream, with its body if `forward_body` says so.
    SendHttp {
        method: String,
        url: String,
        headers: HeaderMap,
        forward_body: bool,
        auth: AuthHeaderState,
    },
    /// Answer at once.
    Reply(LocalResponse),
}

/// The answer to a health check.
pub fn healthz() -> (res: LocalResponse)
    ensures
        res.status == OK,
        res.body@ == "ok\n"@,
{
    LocalResponse { status: OK, body: "ok\n".to_owned() }
}

/// Whether `res` is a line of text with this status.
pub open spec fn is_reply(
    res: LocalResponse,
    status: u16,
    intro: Seq<char>,
    text: Seq<char>,
) -> bool {
    res.status == status && res.body@ == intro + text + "\n"@
}

/// A line of text with this status.
fn reply(status: u16, intro: &str, text: &str) -> (res: LocalResponse)
    ensures
        is_reply(res, status, intro@, text@),
{
    let mut body = intro.to_owned();
    body.append(text);
    body.append("\n");
    LocalResponse { status, body }
}

/// What is done with a request for a WebSocket whose headers are complete.
pub open spec fn websocket_action(
    config: ProxyConfig,
    target: RequestTarget,
    headers: Headers,
    auth: AuthHeaderState,
    action: Action,
) -> bool {
    exists|url: Result<String, ProxyError>| #[trigger]
        upstream_websocket_url(config.upstream_base_url@, config.upstream_prefix@, target, url) && (
        match url {
            Err(error) => action matches Action::Reply(answer) && is_reply(
                answer,
                BAD_GATEWAY,
                "invalid upstream websocket url: "@,
                error.text(),
            ),
            Ok(url) => exists|request: Result<HeaderMap, ProxyError>| #[trigger]
                websocket_request(url@, headers, config.upstream_base_url@, request) && (
                match request {
                    Err(error) => action matches Action::Reply(answer) && is_reply(
                        answer,
                        BAD_GATEWAY,
                        "invalid upstream websocket request: "@,
                        error.text(),
                    ),
                    Ok(request) => action == (Action::ConnectWebSocket {
                        url,
                        headers: request,
                        auth,
                    }),
                }),
        })
}

/// What is done with any other request whose headers are complete.
pub open spec fn http_action(
    config: ProxyConfig,
    request: ClientRequest,
    headers: Headers,
    auth: AuthHeaderState,
    action: Action,
) -> bool {
    match request_headers(headers, config.upstream_base_url@) {
        Err(error) => action matches Action::Reply(answer) && is_reply(
            answer,
            BAD_GATEWAY,
            "upstream request failed: "@,
            error.text(),
        ),
        Ok(wanted_headers) => {
            &&& action matches Action::SendHttp {
                method,
                url,
                headers: sent,
                forward_body,
                auth: sent_auth,
            }
            &&& method == request.method
            &&& url@ == upstream_url(
                config.upstream_base_url@,
                config.upstream_prefix@,
                request.target,
            ).href
            &&& header_values(sent) == wanted_headers
            &&& forward_body == forwards_body(request.method@, headers)
            &&& sent_auth == auth
        },
    }
}

/// What is done with a request, given the login headers that were seen before.
pub open spec fn handled(
    config: ProxyConfig,
    cache: CachedAuthHeaders,
    request: ClientRequest,
    action: Action,
) -> bool {
    let seen = header_values(request.headers);
    if asks_for_websocket(seen) {
        websocket_action(
            config,
            request.target,
            cache.completed(seen),
            cache.report(seen),
            action,
        )
    } else {
        http_action(config, request, cache.completed(seen), cache.report(seen), action)
    }
}

/// Decides what is done with a request. Its login headers are taken note of, and those that it
/// lacks are added.
pub fn proxy_handler(config: &ProxyConfig, cache: &mut AuthHeaderCache, request: ClientRequest) -> (res:
    Action)
    requires
        fits(config.upstream_base_url@, config.upstream_prefix@, request.target),
        has_room(header_values(request.headers), 8),
    ensures
        final(cache)@ == old(cache)@.after(header_values(request.headers)),
        handled(*config, old(cache)@, request, res),
{
    let ghost before = cache@;
    let ghost seen = header_values(request.headers);
    let websocket = is_websocket_upgrade(&request.headers);
    let ClientRequest { method, target, mut headers } = request;
    let auth = cache.apply(&mut headers);
    proof {
        completed_headers_stay_small(before, seen, 6);
    }
    if websocket {
        connect_websocket(config, &target, &headers, auth)
    } else {
        send_http(config, ClientRequest { method, target, headers }, auth)
    }
}

/// Decides what is done with a request for a WebSocket.
fn connect_websocket(
    config: &ProxyConfig,
    target: &RequestTarget,
    headers: &HeaderMap,
    auth: AuthHeaderState,
) -> (res: Action)
    requires
        fits(config.upstream_base_url@, config.upstream_prefix@, *target),
        has_room(header_values(*headers), 6),
    ensures
        websocket_action(*config, *target, header_values(*headers), auth, res),
{
    let built = build_upstream_websocket_url(
        &config.upstream_base_url,
        config.upstream_prefix.as_str(),
        target,
    );
    let ghost built_url = built;
    let url = match built {
        Ok(url) => url,
        Err(error) => {
            let text = error.message();
            let answer = reply(BAD_GATEWAY, "invalid upstream websocket url: ", text.as_str());
            assert(upstream_websocket_url(
                config.upstream_base_url@,
                config.upstream_prefix@,
                *target,
                built_url,
            ));
            return Action::Reply(answer);
        },
    };
    let request = build_upstream_websocket_request(
        url.as_str(),
        headers,
        &config.upstream_base_url,
    );
    let ghost built_request = request;
    assert(upstream_websocket_url(
        config.upstream_base_url@,
        config.upstream_prefix@,
        *target,
        built_url,
    ));
    assert(websocket_request(
        url@,
        header_values(*headers),
        config.upstream_base_url@,
        built_request,
    ));
    match request {
        Ok(request) => Action::ConnectWebSocket { url, headers: request, auth },
        Err(error) => {
            let text = error.message();
            Action::Reply(
                reply(BAD_GATEWAY, "invalid upstream websocket request: ", text.as_str()),
            )
        },
    }
}

/// Decides what is done with a request that asks for no WebSocket.
fn send_http(config: &ProxyConfig, request: ClientRequest, auth: AuthHeaderState) -> (res: Action)
    requires
        fits(config.upstream_base_url@, config.upstream_prefix@, request.target),
        has_room(header_values(request.headers), 1),
    ensures
        http_action(*config, request, header_values(request.headers), auth, res),
{
    let url = match build_upstream_url(
        &config.upstream_base_url,
        config.upstream_prefix.as_str(),
        &request.target,
    ) {
        Ok(url) => url,
        Err(error) => return failed(error),
    };
    let headers = match proxy_request_headers(&request.headers, &config.upstream_base_url) {
        Ok(headers) => headers,
        Err(error) => return failed(error),
    };
    let forward_body = request_should_forward_body(request.method.as_str(), &request.headers);
    Action::SendHttp { method: request.method, url, headers, forward_body, auth }
}

/// The answer to a request that cannot be sent upstream.
fn failed(error: ProxyError) -> (res: Action)
    ensures
        res matches Action::Reply(answer) && is_reply(
            answer,
            BAD_GATEWAY,
            "upstream request failed: "@,
            error.text(),
        ),
{
    let text = error.message();
    Action::Reply(reply(BAD_GATEWAY, "upstream request failed: ", text.as_str()))
}

/// What came of connecting to the upstream WebSocket.
pub enum Connection {
    Connected,
    /// The upstream service answered with an HTTP response.
    Refused { status: u16, headers: HeaderMap, body: Option<Vec<u8>> },
    /// There was no answer, for this reason.
    Failed(String),
}

/// What is to be done once the upstream WebSocket has been tried.
pub enum ConnectionStep {
    /// Accept the client's WebSocket and pass messages on.
    Upgrade,
    /// Hand the upstream response to the client.
    Respond(ProxyResponse),
    /// Answer with a text.
    Reply(LocalResponse),
}

/// Decides what is done once the upstream WebSocket has been tried.
pub fn websocket_connected(connection: Connection) -> (res: ConnectionStep)
    requires
        connection matches Connection::Refused { headers, .. } ==> has_room(
            header_values(headers),
            1,
        ),
    ensures
        match connection {
            Connection::Connected => res is Upgrade,
            Connection::Refused { status, headers, body } => {
                &&& res matches ConnectionStep::Respond(response)
                &&& response.status == sendable_status(status)
                &&& header_values(response.headers) == end_to_end(header_values(headers))
                &&& match body {
                    Some(body) => response.body == body,
                    None => response.body@ == Seq::<u8>::empty(),
                }
            },
            Connection::Failed(reason) => res matches ConnectionStep::Reply(answer) && is_reply(
                answer,
                BAD_GATEWAY,
                "failed to connect upstream websocket: "@,
                reason@,
            ),
        },
{
    match connection {
        Connection::Connected => ConnectionStep::Upgrade,
        Connection::Refused { status, headers, body } => ConnectionStep::Respond(
            websocket_handshake_error_response(status, &headers, body),
        ),
        Connection::Failed(reason) => ConnectionStep::Reply(
            reply(BAD_GATEWAY, "failed to connect upstream websocket: ", reason.as_str()),
        ),
    }
}

/// The answer to a client whose own WebSocket request cannot be accepted.
pub fn upgrade_rejected(reason: &str) -> (res: LocalResponse)
    ensures
        is_reply(res, BAD_REQUEST, "invalid websocket upgrade request: "@, reason@),
{
    reply(BAD_REQUEST, "invalid websocket upgrade request: ", reason)
}

/// How an upstream response is handed to the client.
pub struct ResponseHead {
    pub status: u16,
    pub headers: HeaderMap,
    /// Whether the body is passed on as it arrives; otherwise it is read whole first.
    pub stream_body: bool,
}

/// Whether a status code says that all went well.
pub open spec fn is_success(status: u16) -> bool {
    200 <= status < 300
}

/// Decides how an upstream response is handed to the client.
pub fn proxy_http(status: u16, headers: &HeaderMap) -> (res: ResponseHead)
    requires
        has_room(header_values(*headers), 1),
    ensures
        res.status == status,
        header_values(res.headers) == end_to_end(header_values(*headers)),
        res.stream_body == is_success(status),
{
    let headers = proxy_response_headers(headers);
    ResponseHead { status, headers, stream_body: 200 <= status && status < 300 }
}

/// The text of an upstream failure: what was tried, at which URL, and the causes, outermost first.
pub open spec fn failure_text(intro: Seq<char>, url: Seq<char>, causes: Seq<Seq<char>>) -> Seq<
    char,
> {
    joined(seq![intro + url] + causes, ": "@)
}

fn failure(intro: &str, url: &str, causes: &Vec<String>) -> (res: LocalResponse)
    ensures
        is_reply(
            res,
            BAD_GATEWAY,
            "upstream request failed: "@,
            failure_text(intro@, url@, texts(causes@)),
        ),
{
    let mut first = intro.to_owned();
    first.append(url);
    let mut messages: Vec<String> = Vec::new();
    messages.push(first);
    let mut i: usize = 0;
    assert(texts(messages@) =~= seq![first@] + texts(causes@).take(0));
    while i < causes.len()
        invariant
            i <= causes@.len(),
            texts(messages@) == seq![first@] + texts(causes@).take(i as int),
        decreases causes@.len() - i,
    {
        let ghost so_far = texts(messages@);
        messages.push(causes[i].clone());
        assert(texts(messages@) =~= so_far.push(causes@[i as int]@));
        assert(texts(causes@).take(i + 1) =~= texts(causes@).take(i as int).push(
            causes@[i as int]@,
        ));
        i = i + 1;
        assert(texts(messages@) =~= seq![first@] + texts(causes@).take(i as int));
    }
    assert(texts(causes@).take(causes@.len() as int) =~= texts(causes@));
    let text = format_error_chain(&messages);
    reply(BAD_GATEWAY, "upstream request failed: ", text.as_str())
}

/// The answer to a client whose request could not be sent to `url`.
pub fn send_failed(url: &str, causes: &Vec<String>) -> (res: LocalResponse)
    ensures
        is_reply(
            res,
            BAD_GATEWAY,
            "upstream request failed: "@,
            failure_text("failed to send upstream request to "@, url@, texts(causes@)),
        ),
{
    failure("failed to send upstream request to ", url, causes)
}

/// The answer to a client for whom the body of an upstream error response could not be read.
pub fn read_failed(url: &str, causes: &Vec<String>) -> (res: LocalResponse)
    ensures
        is_reply(
            res,
            BAD_GATEWAY,
            "upstream request failed: "@,
            failure_text("failed to read upstream error response body from "@, url@, texts(causes@)),
        ),
{
    failure("failed to read upstream error response body from ", url, causes)
}

proof fn lemma_login_headers_are_forwarded()
    ensures
        "authorization"@ != "host"@,
        "authorization"@ != "connection"@,
        !is_hop_by_hop("authorization"@),
        "chatgpt-account-id"@ != "host"@,
        "chatgpt-account-id"@ != "connection"@,
        !is_hop_by_hop("chatgpt-account-id"@),
{
    reveal_strlit("authorization");
    reveal_strlit("chatgpt-account-id");
    reveal_strlit("host");
    reveal_strlit("connection");
    reveal_strlit("keep-alive");
    reveal_strlit("proxy-authenticate");
    reveal_strlit("proxy-authorization");
    reveal_strlit("te");
    reveal_strlit("trailer");
    reveal_strlit("transfer-encoding");
    reveal_strlit("upgrade");
    let account = lowered("chatgpt-account-id"@);
    let other = lowered("proxy-authenticate"@);
    assert(account[0] == 'c');
    assert(other[0] == 'p');
    assert(lowered("authorization"@).len() == 13);
    assert(account.len() == 18);
    assert(lowered("connection"@).len() == 10);
    assert(lowered("keep-alive"@).len() == 10);
    assert(lowered("proxy-authorization"@).len() == 19);
    assert(lowered("te"@).len() == 2);
    assert(lowered("trailer"@).len() == 7);
    assert(lowered("transfer-encoding"@).len() == 17);
    assert(lowered("upgrade"@).len() == 7);
}

/// A login header that a request lacks reaches the upstream service, if the cache holds one once it
/// has seen the request; unless the request's own `Connection` header says that it is for this
/// connection only.
pub proof fn cached_login_headers_go_upstream(
    cache: CachedAuthHeaders,
    headers: Headers,
    base: UrlView,
)
    requires
        request_headers(cache.completed(headers), base) is Ok,
    ensures
        non_empty(headers, "authorization"@) is None && !lists(
            connection_tokens(headers),
            "authorization"@,
        ) ==> (cache.authorization matches Some(value) ==> values_of(
            request_headers(cache.completed(headers), base)->Ok_0,
            "authorization"@,
        ) == seq![value]),
        non_empty(headers, "chatgpt-account-id"@) is None && !lists(
            connection_tokens(headers),
            "chatgpt-account-id"@,
        ) ==> (cache.after(headers).chatgpt_account_id matches Some(value) ==> values_of(
            request_headers(cache.completed(headers), base)->Ok_0,
            "chatgpt-account-id"@,
        ) == seq![value]),
{
    lemma_login_headers_are_forwarded();
    missing_login_headers_are_replayed(cache, headers);
    own_headers_are_kept(cache, headers, "connection"@);
}

/// A login header that a WebSocket request lacks reaches the upstream service, if the cache holds
/// one once it has seen the request.
pub proof fn cached_login_headers_go_upstream_with_websockets(
    cache: CachedAuthHeaders,
    headers: Headers,
    base: UrlView,
    sent: Headers,
    host: Seq<u8>,
)
    requires
        websocket_request_headers(cache.completed(headers), base) is Ok,
        is_upstream_handshake(
            sent,
            host,
            websocket_request_headers(cache.completed(headers), base)->Ok_0,
        ),
    ensures
        non_empty(headers, "authorization"@) is None ==> (cache.authorization matches Some(value)
            ==> values_of(sent, "authorization"@) == seq![value]),
        non_empty(headers, "chatgpt-account-id"@) is None ==> (cache.after(
            headers,
        ).chatgpt_account_id matches Some(value) ==> values_of(sent, "chatgpt-account-id"@)
            == seq![value]),
{
    lemma_login_headers_are_forwarded();
    missing_login_headers_are_replayed(cache, headers);
}

} // verus!
