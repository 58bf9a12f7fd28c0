//! Where requests go: the base URL of the upstream service, and the URL of each request.
use url::Url;
use vstd::prelude::*;

use crate::error::ProxyError;
use crate::text::{
    decimal, join, joined, same_text, texts, trim, trim_end, trim_start, trimmed, write_decimal,
    Separator,
};

verus! {

/// The base URL of the upstream service: the text that it was read from, and its parts.
pub struct UrlView {
    pub text: Seq<char>,
    pub href: Seq<char>,
    pub scheme: Seq<char>,
    pub host: Option<Seq<char>>,
    pub port: Option<u16>,
    pub path: Seq<char>,
}

/// The base URL of the upstream service.
#[derive(Debug)]
pub struct UpstreamUrl {
    /// The text that it was read from.
    text: String,
    /// The whole URL, in its usual form.
    href: String,
    scheme: String,
    host: Option<String>,
    /// The port, unless it is the usual one of the scheme.
    port: Option<u16>,
    path: String,
}

/// The parts of the URL of a request.
pub struct RequestUrlView {
    pub href: Seq<char>,
    pub scheme: Seq<char>,
    pub host: Option<Seq<char>>,
    pub port: Option<u16>,
    pub path: Seq<char>,
    pub query: Option<Seq<char>>,
}

/// The URL of a request.
struct RequestUrl {
    href: String,
    scheme: String,
    host: Option<String>,
    port: Option<u16>,
    path: String,
    query: Option<String>,
}

/// The view of an optional string.
pub open spec fn text_view(text: Option<String>) -> Option<Seq<char>> {
    match text {
        Some(text) => Some(text@),
        None => None,
    }
}

impl View for UpstreamUrl {
    type V = UrlView;

    closed spec fn view(&self) -> UrlView {
        UrlView {
            text: self.text@,
            href: self.href@,
            scheme: self.scheme@,
            host: text_view(self.host),
            port: self.port,
            path: self.path@,
        }
    }
}

impl View for RequestUrl {
    type V = RequestUrlView;

    closed spec fn view(&self) -> RequestUrlView {
        RequestUrlView {
            href: self.href@,
            scheme: self.scheme@,
            host: text_view(self.host),
            port: self.port,
            path: self.path@,
            query: text_view(self.query),
        }
    }
}

/// The path and the query that a client asked for.
pub struct RequestTarget {
    pub path: String,
    pub query: Option<String>,
}

/// What `Url::parse` makes of a text: the parts of the URL, or nothing if the text is no URL.
pub uninterp spec fn url_parts(text: Seq<char>) -> Option<UrlView>;

/// The URL that `Url::set_path` and `Url::set_query` make of the URL in a text.
pub uninterp spec fn url_with_target(
    text: Seq<char>,
    path: Seq<char>,
    query: Option<Seq<char>>,
) -> RequestUrlView;

/// The URL that `Url::set_scheme` makes of the URL in a text once it has this path and this query;
/// nothing if the scheme cannot be set.
pub uninterp spec fn url_with_scheme(
    text: Seq<char>,
    path: Seq<char>,
    query: Option<Seq<char>>,
    scheme: Seq<char>,
) -> Option<RequestUrlView>;

/// How many characters a URL, its new path, its new query and its new scheme may have together. A
/// URL must not grow beyond 4 GB when it is put together.
pub const URL_LIMIT: usize = 0x100_0000;

/// The WebSocket scheme that goes with a scheme.
pub open spec fn websocket_scheme(scheme: Seq<char>) -> Option<Seq<char>> {
    if scheme == "https"@ {
        Some("wss"@)
    } else if scheme == "http"@ {
        Some("ws"@)
    } else {
        None
    }
}

/// Whether the URL of a request has the scheme of the base URL, its host and its port, if it is one
/// for HTTP or HTTPS.
pub open spec fn keeps_place(base: UrlView, url: RequestUrlView) -> bool {
    websocket_scheme(base.scheme) is Some ==> {
        &&& url.scheme == base.scheme
        &&& url.host is Some
        &&& url.host == base.host
        &&& url.port == base.port
    }
}

/// Whether a URL has this scheme and differs from another one in nothing else.
pub open spec fn differs_in_scheme(
    url: RequestUrlView,
    other: RequestUrlView,
    scheme: Seq<char>,
) -> bool {
    &&& url.scheme == scheme
    &&& url.host == other.host
    &&& url.port == other.port
    &&& url.path == other.path
    &&& url.query == other.query
}

/// Whether there is a URL that differs from another one in the scheme alone, and leads to the host
/// and the port of the base URL, if the new scheme is the WebSocket scheme that goes with that of the
/// base URL.
pub open spec fn switches(
    base: UrlView,
    other: RequestUrlView,
    switched: Option<RequestUrlView>,
    scheme: Seq<char>,
) -> bool {
    websocket_scheme(base.scheme) == Some(scheme) ==> (switched matches Some(url)
        && differs_in_scheme(url, other, scheme) && url.host == base.host && url.port
        == base.port)
}

/// The view of an optional URL.
spec fn request_view(url: Option<RequestUrl>) -> Option<RequestUrlView> {
    match url {
        Some(url) => Some(url@),
        None => None,
    }
}

/// `Url::parse`, with what `as_str`, `scheme`, `host_str`, `port` and `path` say of the result.
#[verifier::external_body]
fn parse_url(text: &str) -> (res: Option<UpstreamUrl>)
    ensures
        match res {
            Some(url) => url_parts(text@) == Some(url@),
            None => url_parts(text@) is None,
        },
        res matches Some(url) ==> url@.text == text@,
{
    Url::parse(text).ok().map(|url| UpstreamUrl {
        text: text.to_owned(),
        href: url.as_str().to_owned(),
        scheme: url.scheme().to_owned(),
        host: url.host_str().map(str::to_owned),
        port: url.port(),
        path: url.path().to_owned(),
    })
}

/// `Url::set_path` and `Url::set_query` on the URL in a text, with what `as_str`, `scheme`,
/// `host_str`, `port`, `path` and `query` say of the result. For HTTP and HTTPS the setters keep the
/// scheme, the host and the port. They panic on a URL beyond 4 GB; the length of the arguments keeps
/// the result far below that.
#[verifier::external_body]
fn with_target(text: &str, path: &str, query: Option<&str>) -> (res: RequestUrl)
    requires
        url_parts(text@) is Some,
        text@.len() + path@.len() + query_length(query) <= URL_LIMIT,
    ensures
        res@ == url_with_target(text@, path@, query_view(query)),
        keeps_place(url_parts(text@)->0, res@),
{
    let mut url = Url::parse(text).unwrap();
    url.set_path(path);
    url.set_query(query);
    RequestUrl {
        href: url.as_str().to_owned(),
        scheme: url.scheme().to_owned(),
        host: url.host_str().map(str::to_owned),
        port: url.port(),
        path: url.path().to_owned(),
        query: url.query().map(str::to_owned),
    }
}

/// `Url::set_scheme` on the URL in a text, after `Url::set_path` and `Url::set_query`, with what
/// `as_str`, `scheme`, `host_str`, `port`, `path` and `query` say of the result. For HTTP and HTTPS
/// the WebSocket scheme can be set and changes nothing else: both have the same usual port. The
/// setters panic on a URL beyond 4 GB; the length of the arguments keeps the result far below that.
#[verifier::external_body]
fn with_scheme(text: &str, path: &str, query: Option<&str>, scheme: &str) -> (res: Option<
    RequestUrl,
>)
    requires
        url_parts(text@) is Some,
        text@.len() + path@.len() + query_length(query) + scheme@.len() <= URL_LIMIT,
    ensures
        request_view(res) == url_with_scheme(text@, path@, query_view(query), scheme@),
        switches(
            url_parts(text@)->0,
            url_with_target(text@, path@, query_view(query)),
            request_view(res),
            scheme@,
        ),
{
    let mut url = Url::parse(text).unwrap();
    url.set_path(path);
    url.set_query(query);
    url.set_scheme(scheme).ok()?;
    Some(RequestUrl {
        href: url.as_str().to_owned(),
        scheme: url.scheme().to_owned(),
        host: url.host_str().map(str::to_owned),
        port: url.port(),
        path: url.path().to_owned(),
        query: url.query().map(str::to_owned),
    })
}

/// The view of a borrowed query.
pub open spec fn query_view(query: Option<&str>) -> Option<Seq<char>> {
    match query {
        Some(query) => Some(query@),
        None => None,
    }
}

/// How many characters a query has.
pub open spec fn query_length(query: Option<&str>) -> nat {
    match query {
        Some(query) => query@.len(),
        None => 0,
    }
}

impl UpstreamUrl {
    /// The parts of a base URL are those of the text that it was read from.
    #[verifier::type_invariant]
    spec fn wf(self) -> bool {
        url_parts(self.text@) == Some(self@)
    }

    /// Reads a URL. Nothing comes back if `text` is no URL.
    pub fn parse(text: &str) -> (res: Option<UpstreamUrl>)
        ensures
            match res {
                Some(url) => url_parts(text@) == Some(url@),
                None => url_parts(text@) is None,
            },
            res matches Some(url) ==> url@.text == text@,
    {
        parse_url(text)
    }

    /// The whole URL.
    pub fn as_str(&self) -> (res: &str)
        ensures
            res@ == self@.href,
    {
        self.href.as_str()
    }
}

impl Clone for UpstreamUrl {
    fn clone(&self) -> (res: UpstreamUrl)
        ensures
            res@ == self@,
    {
        proof {
            use_type_invariant(self);
        }
        let host = match &self.host {
            Some(host) => Some(host.clone()),
            None => None,
        };
        UpstreamUrl {
            text: self.text.clone(),
            href: self.href.clone(),
            scheme: self.scheme.clone(),
            host,
            port: self.port,
            path: self.path.clone(),
        }
    }
}

/// A list of path segments with one path more: the path without the slashes around it, unless
/// nothing is left of it.
pub open spec fn with_segment(segments: Seq<Seq<char>>, path: Seq<char>) -> Seq<Seq<char>> {
    let segment = trimmed(path, Separator::Slash);
    if segment.len() > 0 {
        segments.push(segment)
    } else {
        segments
    }
}

/// The segments of the base path and the prefix.
pub open spec fn leading_segments(base_path: Seq<char>, prefix: Seq<char>) -> Seq<Seq<char>> {
    with_segment(with_segment(Seq::empty(), base_path), prefix)
}

/// The base path and the prefix as they stand before the request path: each without the slashes
/// around it and with one slash before it, unless it is empty.
pub open spec fn path_before_request(base_path: Seq<char>, prefix: Seq<char>) -> Seq<char> {
    let segments = leading_segments(base_path, prefix);
    if segments.len() == 0 {
        Seq::empty()
    } else {
        seq!['/'] + joined(segments, seq!['/'])
    }
}

/// The base path and the prefix, then the request path as it came. A slash is put before a request
/// path that does not start with one, unless it is empty and something stands before it.
pub open spec fn combined_path(
    base_path: Seq<char>,
    prefix: Seq<char>,
    request_path: Seq<char>,
) -> Seq<char> {
    let before = path_before_request(base_path, prefix);
    let rooted = if request_path.len() > 0 {
        request_path[0] == '/'
    } else {
        before.len() > 0
    };
    if rooted {
        before + request_path
    } else {
        before + seq!['/'] + request_path
    }
}

/// Adds a path to a list of segments.
pub fn push_path_segment(segments: &mut Vec<String>, path: &str)
    ensures
        texts(final(segments)@) == with_segment(texts(old(segments)@), path@),
{
    let trimmed = trim(path, Separator::Slash);
    if !trimmed.as_str().is_empty() {
        segments.push(trimmed);
    }
    assert(texts(segments@) =~= with_segment(texts(old(segments)@), path@));
}

/// The path of an upstream request.
pub fn combine_paths(base_path: &str, upstream_prefix: &str, request_path: &str) -> (res: String)
    ensures
        res@ == combined_path(base_path@, upstream_prefix@, request_path@),
{
    let mut segments: Vec<String> = Vec::new();
    assert(texts(segments@) =~= Seq::<Seq<char>>::empty());
    push_path_segment(&mut segments, base_path);
    push_path_segment(&mut segments, upstream_prefix);
    let mut res = String::new();
    if segments.len() > 0 {
        res.push('/');
        proof {
            reveal_strlit("/");
            assert("/"@ =~= seq!['/']);
        }
        let rest = join(&segments, "/");
        res.append(rest.as_str());
    }
    assert(res@ =~= path_before_request(base_path@, upstream_prefix@));
    let rooted = if request_path.unicode_len() > 0 {
        request_path.get_char(0) == '/'
    } else {
        segments.len() > 0
    };
    if !rooted {
        res.push('/');
    }
    res.append(request_path);
    assert(res@ =~= combined_path(base_path@, upstream_prefix@, request_path@));
    res
}

proof fn lemma_trimmed_length(s: Seq<char>, sep: Separator)
    ensures
        trimmed(s, sep).len() <= s.len(),
{
    lemma_trim_start_length(s, sep);
    lemma_trim_end_length(trim_start(s, sep), sep);
}

proof fn lemma_trim_start_length(s: Seq<char>, sep: Separator)
    ensures
        trim_start(s, sep).len() <= s.len(),
    decreases s.len(),
{
    if s.len() > 0 && sep.has(s.first()) {
        lemma_trim_start_length(s.drop_first(), sep);
    }
}

proof fn lemma_trim_end_length(s: Seq<char>, sep: Separator)
    ensures
        trim_end(s, sep).len() <= s.len(),
    decreases s.len(),
{
    if s.len() > 0 && sep.has(s.last()) {
        lemma_trim_end_length(s.drop_last(), sep);
    }
}

/// One segment more makes the joined path longer by a slash and the segment.
proof fn lemma_joined_with_segment(segments: Seq<Seq<char>>, path: Seq<char>)
    ensures
        joined(with_segment(segments, path), seq!['/']).len() <= joined(segments, seq!['/']).len() + 1
            + path.len(),
{
    lemma_trimmed_length(path, Separator::Slash);
    let segment = trimmed(path, Separator::Slash);
    if segment.len() > 0 {
        assert(segments.push(segment).drop_last() =~= segments);
    }
}

/// A combined path is hardly longer than its three parts.
proof fn lemma_combined_path_length(base_path: Seq<char>, prefix: Seq<char>, request_path: Seq<char>)
    ensures
        combined_path(base_path, prefix, request_path).len() <= base_path.len() + prefix.len()
            + request_path.len() + 4,
{
    let none = Seq::<Seq<char>>::empty();
    lemma_joined_with_segment(none, base_path);
    lemma_joined_with_segment(with_segment(none, base_path), prefix);
}

/// How many characters an optional query has.
pub open spec fn target_query_length(target: RequestTarget) -> nat {
    match target.query {
        Some(query) => query@.len(),
        None => 0,
    }
}

/// Whether the URL of a request stays within the size of a URL.
pub open spec fn fits(base: UrlView, prefix: Seq<char>, target: RequestTarget) -> bool {
    base.text.len() + base.path.len() + prefix.len() + target.path@.len() + target_query_length(
        target,
    ) + 8 <= URL_LIMIT
}

/// Whether the URL of a request stays within the size of a URL.
pub fn target_fits(base: &UpstreamUrl, prefix: &str, target: &RequestTarget) -> (res: bool)
    ensures
        res == fits(base@, prefix@, *target),
{
    let text: usize = base.text.as_str().unicode_len();
    let path: usize = base.path.as_str().unicode_len();
    let inserted: usize = prefix.unicode_len();
    let requested: usize = target.path.as_str().unicode_len();
    let query: usize = match &target.query {
        Some(query) => query.as_str().unicode_len(),
        None => 0,
    };
    text <= URL_LIMIT && path <= URL_LIMIT && inserted <= URL_LIMIT && requested <= URL_LIMIT
        && query <= URL_LIMIT && text + path + inserted + requested + query + 8 <= URL_LIMIT
}

/// The URL of an upstream request: the base URL with the combined path and the query of the
/// request.
pub open spec fn upstream_url(
    base: UrlView,
    prefix: Seq<char>,
    target: RequestTarget,
) -> RequestUrlView {
    url_with_target(
        base.text,
        combined_path(base.path, prefix, target.path@),
        text_view(target.query),
    )
}

/// The query of a request.
fn query_of(target: &RequestTarget) -> (res: Option<&str>)
    ensures
        query_view(res) == text_view(target.query),
        query_length(res) == target_query_length(*target),
{
    match &target.query {
        Some(query) => Some(query.as_str()),
        None => None,
    }
}

/// The URL of an HTTP request to the upstream service. For HTTP and HTTPS it has the scheme, the
/// host and the port of the base URL.
pub fn build_upstream_url(
    upstream_base_url: &UpstreamUrl,
    upstream_prefix: &str,
    target: &RequestTarget,
) -> (res: Result<String, ProxyError>)
    requires
        fits(upstream_base_url@, upstream_prefix@, *target),
    ensures
        res matches Ok(url) && url@ == upstream_url(
            upstream_base_url@,
            upstream_prefix@,
            *target,
        ).href,
        keeps_place(
            upstream_base_url@,
            upstream_url(upstream_base_url@, upstream_prefix@, *target),
        ),
{
    proof {
        use_type_invariant(upstream_base_url);
        lemma_combined_path_length(upstream_base_url.path@, upstream_prefix@, target.path@);
    }
    let path = combine_paths(
        upstream_base_url.path.as_str(),
        upstream_prefix,
        target.path.as_str(),
    );
    let url = with_target(upstream_base_url.text.as_str(), path.as_str(), query_of(target));
    Ok(url.href)
}

/// The URL of an upstream WebSocket with this scheme.
pub open spec fn upstream_url_with_scheme(
    base: UrlView,
    prefix: Seq<char>,
    target: RequestTarget,
    scheme: Seq<char>,
) -> Option<RequestUrlView> {
    url_with_scheme(
        base.text,
        combined_path(base.path, prefix, target.path@),
        text_view(target.query),
        scheme,
    )
}

/// What comes of making the URL of an upstream WebSocket: that of the HTTP request with the
/// WebSocket scheme, and no other difference, for HTTP and HTTPS; an error for every other scheme.
pub open spec fn upstream_websocket_url(
    base: UrlView,
    prefix: Seq<char>,
    target: RequestTarget,
    res: Result<String, ProxyError>,
) -> bool {
    match websocket_scheme(base.scheme) {
        None => res matches Err(ProxyError::UnsupportedScheme(scheme)) && scheme@ == base.scheme,
        Some(scheme) => {
            &&& upstream_url_with_scheme(base, prefix, target, scheme) matches Some(url)
            &&& differs_in_scheme(url, upstream_url(base, prefix, target), scheme)
            &&& url.host == base.host
            &&& url.port == base.port
            &&& res matches Ok(text)
            &&& text@ == url.href
        },
    }
}

/// The URL of a WebSocket of the upstream service: that of the HTTP request, with the WebSocket
/// scheme.
pub fn build_upstream_websocket_url(
    upstream_base_url: &UpstreamUrl,
    upstream_prefix: &str,
    target: &RequestTarget,
) -> (res: Result<String, ProxyError>)
    requires
        fits(upstream_base_url@, upstream_prefix@, *target),
    ensures
        upstream_websocket_url(upstream_base_url@, upstream_prefix@, *target, res),
{
    proof {
        use_type_invariant(upstream_base_url);
        lemma_combined_path_length(upstream_base_url.path@, upstream_prefix@, target.path@);
        reveal_strlit("ws");
        reveal_strlit("wss");
    }
    let path = combine_paths(
        upstream_base_url.path.as_str(),
        upstream_prefix,
        target.path.as_str(),
    );
    let text = upstream_base_url.text.as_str();
    let scheme = if same_text(upstream_base_url.scheme.as_str(), "https") {
        "wss"
    } else if same_text(upstream_base_url.scheme.as_str(), "http") {
        "ws"
    } else {
        return Err(ProxyError::UnsupportedScheme(upstream_base_url.scheme.clone()));
    };
    match with_scheme(text, path.as_str(), query_of(target), scheme) {
        Some(url) => Ok(url.href),
        None => Err(ProxyError::SchemeNotSet),
    }
}

/// The `Host` header of upstream requests: the host, and the port unless it is the usual one.
pub open spec fn host_header(url: UrlView) -> Option<Seq<char>> {
    match url.host {
        Some(host) => Some(
            match url.port {
                Some(port) => host + seq![':'] + decimal(port as nat),
                None => host,
            },
        ),
        None => None,
    }
}

/// The `Host` header of upstream requests.
pub fn upstream_host_header(upstream_base_url: &UpstreamUrl) -> (res: Result<String, ProxyError>)
    ensures
        match host_header(upstream_base_url@) {
            Some(host) => res matches Ok(text) && text@ == host,
            None => res == Err::<String, _>(ProxyError::MissingHost),
        },
{
    let host = match &upstream_base_url.host {
        Some(host) => host,
        None => return Err(ProxyError::MissingHost),
    };
    let mut res = host.clone();
    if let Some(port) = upstream_base_url.port {
        res.push(':');
        let number = write_decimal(port);
        res.append(number.as_str());
        assert(res@ =~= host@ + seq![':'] + decimal(port as nat));
    }
    Ok(res)
}

/// A request path is not rewritten: whatever the base path and the prefix are, the upstream path
/// starts with a slash and ends with the path of the request as it came, and what stands before that
/// is the base path and the prefix, but for a slash that the request path lacks.
pub proof fn request_path_is_kept(base_path: Seq<char>, prefix: Seq<char>, request_path: Seq<char>)
    ensures
        combined_path(base_path, prefix, request_path)[0] == '/',
        request_path.is_suffix_of(combined_path(base_path, prefix, request_path)),
        request_path.len() > 0 && request_path[0] == '/' ==> combined_path(
            base_path,
            prefix,
            request_path,
        ) == path_before_request(base_path, prefix) + request_path,
{
    let path = combined_path(base_path, prefix, request_path);
    assert(path.skip(path.len() - request_path.len()) =~= request_path);
}

} // verus!
