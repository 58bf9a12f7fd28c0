//! Promises on where requests go.
use vstd::prelude::*;

use crate::error::ProxyError;
use crate::guarantees::text::{
    lemma_decimal_spells, lemma_trimmed_core, lemma_trimming_exists, spells,
};
use crate::text::{decimal, joined, texts, trimmed, Separator};
use crate::upstream::{
    build_upstream_url, build_upstream_websocket_url, combine_paths, combined_path,
    leading_segments, push_path_segment, target_fits, upstream_host_header, url_parts,
    url_with_scheme, url_with_target, RequestTarget, RequestUrlView, UpstreamUrl,
};

verus! {

/// Whether a text is `core` with any number of slashes before and behind it, where `core` neither
/// starts nor ends with a slash.
pub open spec fn is_between_slashes(text: Seq<char>, core: Seq<char>) -> bool {
    exists|before: Seq<char>, after: Seq<char>| #[trigger] wraps(text, before, core, after)
}

/// Whether a text is `core` with slashes alone before and behind it.
pub open spec fn wraps(
    text: Seq<char>,
    before: Seq<char>,
    core: Seq<char>,
    after: Seq<char>,
) -> bool {
    &&& text == before + core + after
    &&& forall|i: int| 0 <= i < before.len() ==> #[trigger] before[i] == '/'
    &&& forall|i: int| 0 <= i < after.len() ==> #[trigger] after[i] == '/'
    &&& core.len() > 0 ==> core[0] != '/' && core.last() != '/'
}

/// Whether `path` is where a request for `request` goes, where `base` and `prefix` are the base
/// path and the prefix without the slashes around them: they stand before the request path in this
/// order, each behind one slash, and the request path follows as it came. Only a slash that it
/// lacks is added.
pub open spec fn is_upstream_path(
    path: Seq<char>,
    base: Seq<char>,
    prefix: Seq<char>,
    request: Seq<char>,
) -> bool {
    let before = if base.len() > 0 && prefix.len() > 0 {
        seq!['/'] + base + seq!['/'] + prefix
    } else if base.len() > 0 {
        seq!['/'] + base
    } else if prefix.len() > 0 {
        seq!['/'] + prefix
    } else {
        Seq::empty()
    };
    if request.len() > 0 && request[0] == '/' {
        path == before + request
    } else if request.len() > 0 || before.len() == 0 {
        path == before + seq!['/'] + request
    } else {
        path == before
    }
}

proof fn lemma_trimmed_slashes(text: Seq<char>, core: Seq<char>)
    requires
        is_between_slashes(text, core),
    ensures
        trimmed(text, Separator::Slash) == core,
{
    let (before, after) = choose|before: Seq<char>, after: Seq<char>| #[trigger]
        wraps(text, before, core, after);
    lemma_trimmed_core(before, core, after, Separator::Slash);
}

/// Every path is one without slashes around it, between slashes: the promises on base paths and
/// prefixes speak of all of them.
pub proof fn every_path_is_between_slashes(path: Seq<char>)
    ensures
        exists|core: Seq<char>| #[trigger] is_between_slashes(path, core),
{
    let (a, b) = lemma_trimming_exists(path, Separator::Slash);
    assert(path =~= path.take(a) + path.subrange(a, b) + path.skip(b));
    assert(wraps(path, path.take(a), path.subrange(a, b), path.skip(b)));
    assert(is_between_slashes(path, path.subrange(a, b)));
}

/// The path of an upstream request is put together by concatenation alone: the base path, the
/// prefix and the request path, in this order, whatever slashes stand around the first two.
pub proof fn paths_are_put_together(
    base_path: &str,
    upstream_prefix: &str,
    request_path: &str,
    base: Seq<char>,
    prefix: Seq<char>,
    res: String,
)
    requires
        is_between_slashes(base_path@, base),
        is_between_slashes(upstream_prefix@, prefix),
        call_ensures(combine_paths, (base_path, upstream_prefix, request_path), res),
    ensures
        request_path@.len() > 0 && request_path@[0] == '/' ==> {
            &&& base.len() > 0 && prefix.len() > 0 ==> res@ == seq!['/'] + base + seq!['/'] + prefix
                + request_path@
            &&& base.len() > 0 && prefix.len() == 0 ==> res@ == seq!['/'] + base + request_path@
            &&& base.len() == 0 && prefix.len() > 0 ==> res@ == seq!['/'] + prefix + request_path@
            &&& base.len() == 0 && prefix.len() == 0 ==> res@ == request_path@
        },
        is_upstream_path(res@, base, prefix, request_path@),
{
    lemma_combined_is_upstream_path(
        base_path@,
        upstream_prefix@,
        request_path@,
        base,
        prefix,
    );
    if base.len() == 0 && prefix.len() == 0 {
        assert(Seq::<char>::empty() + request_path@ =~= request_path@);
    }
}

/// A path is added to a list of segments without the slashes around it, behind the others; one of
/// slashes alone is not added.
pub proof fn segments_are_added_without_slashes(
    segments: &mut Vec<String>,
    path: &str,
    core: Seq<char>,
    i: int,
)
    requires
        is_between_slashes(path@, core),
        call_ensures(push_path_segment, (segments, path), ()),
    ensures
        final(segments)@.len() == old(segments)@.len() + (if core.len() > 0 {
            1int
        } else {
            0int
        }),
        0 <= i < old(segments)@.len() ==> final(segments)@[i]@ == old(segments)@[i]@,
        core.len() > 0 ==> final(segments)@.last()@ == core,
{
    lemma_trimmed_slashes(path@, core);
    let before = texts(old(segments)@);
    let after = texts(final(segments)@);
    assert(before.len() == old(segments)@.len());
    assert(after.len() == final(segments)@.len());
    if 0 <= i < old(segments)@.len() {
        assert(before[i] == old(segments)@[i]@);
        assert(after[i] == final(segments)@[i]@);
    }
    if core.len() > 0 {
        assert(after.last() == final(segments)@.last()@);
    }
}

/// The view of an optional text.
pub open spec fn optional_text(text: Option<String>) -> Option<Seq<char>> {
    match text {
        Some(text) => Some(text@),
        None => None,
    }
}

/// An HTTP request goes to the base URL with the path that is put together, and with the query of
/// the request and no other. The scheme, the host and the port stay those of the base URL.
pub proof fn requests_go_to_the_base_url(
    upstream_base_url: &UpstreamUrl,
    upstream_prefix: &str,
    target: &RequestTarget,
    base: Seq<char>,
    prefix: Seq<char>,
    res: Result<String, ProxyError>,
)
    requires
        is_between_slashes(upstream_base_url@.path, base),
        is_between_slashes(upstream_prefix@, prefix),
        call_ensures(build_upstream_url, (upstream_base_url, upstream_prefix, target), res),
    ensures
        exists|path: Seq<char>|
            is_upstream_path(path, base, prefix, target.path@) && (res matches Ok(url) && url@
                == (#[trigger] url_with_target(
                upstream_base_url@.text,
                path,
                optional_text(target.query),
            )).href && ((upstream_base_url@.scheme == "http"@ || upstream_base_url@.scheme
                == "https"@) ==> is_at(
                url_with_target(upstream_base_url@.text, path, optional_text(target.query)),
                upstream_base_url@.scheme,
                upstream_base_url@.host,
                upstream_base_url@.port,
            ))),
{
    let path = combined_path(
        upstream_base_url@.path,
        upstream_prefix@,
        target.path@,
    );
    lemma_combined_is_upstream_path(
        upstream_base_url@.path,
        upstream_prefix@,
        target.path@,
        base,
        prefix,
    );
    assert(url_with_target(upstream_base_url@.text, path, optional_text(target.query)).href
        == res->Ok_0@);
}

/// Whether a URL has this scheme, this host and this port.
pub open spec fn is_at(
    url: RequestUrlView,
    scheme: Seq<char>,
    host: Option<Seq<char>>,
    port: Option<u16>,
) -> bool {
    url.scheme == scheme && url.host == host && url.port == port
}

pub(crate) proof fn lemma_combined_is_upstream_path(
    base_path: Seq<char>,
    upstream_prefix: Seq<char>,
    request_path: Seq<char>,
    base: Seq<char>,
    prefix: Seq<char>,
)
    requires
        is_between_slashes(base_path, base),
        is_between_slashes(upstream_prefix, prefix),
    ensures
        is_upstream_path(
            combined_path(base_path, upstream_prefix, request_path),
            base,
            prefix,
            request_path,
        ),
{
    lemma_trimmed_slashes(base_path, base);
    lemma_trimmed_slashes(upstream_prefix, prefix);
    let segments = leading_segments(base_path, upstream_prefix);
    reveal_with_fuel(joined, 3);
    if base.len() > 0 && prefix.len() > 0 {
        assert(segments =~= seq![base, prefix]);
        assert(segments.drop_last() =~= seq![base]);
        assert(seq!['/'] + (base + seq!['/'] + prefix) =~= seq!['/'] + base + seq!['/'] + prefix);
    } else if base.len() > 0 {
        assert(segments =~= seq![base]);
    } else if prefix.len() > 0 {
        assert(segments =~= seq![prefix]);
    } else {
        assert(segments =~= Seq::<Seq<char>>::empty());
    }
}

/// A WebSocket goes where the HTTP request with the same target would go, with `wss` for `https`
/// and `ws` for `http`: host, port, path and query are the same. Another scheme is an error that
/// names it.
pub proof fn websockets_go_where_requests_go(
    upstream_base_url: &UpstreamUrl,
    upstream_prefix: &str,
    target: &RequestTarget,
    base: Seq<char>,
    prefix: Seq<char>,
    res: Result<String, ProxyError>,
)
    requires
        is_between_slashes(upstream_base_url@.path, base),
        is_between_slashes(upstream_prefix@, prefix),
        call_ensures(
            build_upstream_websocket_url,
            (upstream_base_url, upstream_prefix, target),
            res,
        ),
    ensures
        upstream_base_url@.scheme == "https"@ ==> is_websocket_url(
            res,
            upstream_base_url@.text,
            "wss"@,
            target,
            base,
            prefix,
            upstream_base_url@.host,
            upstream_base_url@.port,
        ),
        upstream_base_url@.scheme == "http"@ ==> is_websocket_url(
            res,
            upstream_base_url@.text,
            "ws"@,
            target,
            base,
            prefix,
            upstream_base_url@.host,
            upstream_base_url@.port,
        ),
        upstream_base_url@.scheme != "https"@ && upstream_base_url@.scheme != "http"@ ==> (
        res matches Err(ProxyError::UnsupportedScheme(scheme)) && scheme@
            == upstream_base_url@.scheme),
{
    let path = combined_path(
        upstream_base_url@.path,
        upstream_prefix@,
        target.path@,
    );
    lemma_combined_is_upstream_path(
        upstream_base_url@.path,
        upstream_prefix@,
        target.path@,
        base,
        prefix,
    );
    reveal_strlit("http");
    reveal_strlit("https");
    assert("http"@.len() != "https"@.len());
    let text = upstream_base_url@.text;
    let query = optional_text(target.query);
    if upstream_base_url@.scheme == "https"@ {
        assert(url_with_scheme(text, path, query, "wss"@) is Some);
    }
    if upstream_base_url@.scheme == "http"@ {
        assert(url_with_scheme(text, path, query, "ws"@) is Some);
    }
}

/// Whether a WebSocket goes to this host and port with this scheme, and with the path and the query
/// of the HTTP request.
pub open spec fn is_websocket_url(
    res: Result<String, ProxyError>,
    text: Seq<char>,
    scheme: Seq<char>,
    target: &RequestTarget,
    base: Seq<char>,
    prefix: Seq<char>,
    host: Option<Seq<char>>,
    port: Option<u16>,
) -> bool {
    exists|path: Seq<char>|
        is_upstream_path(path, base, prefix, target.path@) && ((#[trigger] url_with_scheme(
            text,
            path,
            optional_text(target.query),
            scheme,
        )) matches Some(url) && (res matches Ok(made) && made@ == url.href) && is_at(
            url,
            scheme,
            host,
            port,
        ) && url.path == url_with_target(text, path, optional_text(target.query)).path && url.query
            == url_with_target(text, path, optional_text(target.query)).query)
}

/// The `Host` of upstream requests is the host of the base URL, with the port behind a colon, in
/// decimal, unless it is the usual one. A base URL without a host is an error.
pub proof fn host_header_names_host_and_port(
    upstream_base_url: &UpstreamUrl,
    res: Result<String, ProxyError>,
)
    requires
        call_ensures(upstream_host_header, (upstream_base_url,), res),
    ensures
        upstream_base_url@.host is None ==> (res matches Err(error) && error is MissingHost),
        upstream_base_url@.host matches Some(host) ==> (res matches Ok(text) && is_host_and_port(
            text@,
            host,
            upstream_base_url@.port,
        )),
{
    if let Some(host) = upstream_base_url@.host {
        lemma_host_and_port(host, upstream_base_url@.port);
    }
}

/// Whether a text is a host, with the port behind a colon if there is one.
pub open spec fn is_host_and_port(text: Seq<char>, host: Seq<char>, port: Option<u16>) -> bool {
    match port {
        None => text == host,
        Some(port) => {
            &&& text.len() > host.len() + 1
            &&& text.take(host.len() as int) == host
            &&& text[host.len() as int] == ':'
            &&& spells(text.skip(host.len() as int + 1), port as nat)
            &&& port > 0 ==> text[host.len() as int + 1] != '0'
            &&& port == 0 ==> text.len() == host.len() + 2
        },
    }
}

pub(crate) proof fn lemma_host_and_port(host: Seq<char>, port: Option<u16>)
    ensures
        port matches Some(port) ==> is_host_and_port(
            host + seq![':'] + decimal(port as nat),
            host,
            Some(port),
        ),
{
    if let Some(port) = port {
        let digits = decimal(port as nat);
        lemma_decimal_spells(port as nat);
        let text = host + seq![':'] + digits;
        assert(text.take(host.len() as int) =~= host);
        assert(text.skip(host.len() as int + 1) =~= digits);
    }
}

/// A base URL is what the URL crate reads from the text, and nothing comes of a text that it does
/// not take.
pub proof fn base_urls_are_read_as_they_are(text: &str, res: Option<UpstreamUrl>)
    requires
        call_ensures(UpstreamUrl::parse, (text,), res),
    ensures
        res is Some == url_parts(text@) is Some,
        res matches Some(url) ==> url@ == url_parts(text@)->0 && url@.text == text@,
{
}

/// The text of a URL is the one that the URL crate writes.
pub proof fn urls_are_written_as_they_are(url: &UpstreamUrl, res: &str)
    requires
        call_ensures(UpstreamUrl::as_str, (url,), res),
    ensures
        res@ == url@.href,
{
}

/// A copy of a URL is the same URL.
pub proof fn copies_of_urls_are_the_same(url: &UpstreamUrl, res: UpstreamUrl)
    requires
        call_ensures(UpstreamUrl::clone, (url,), res),
    ensures
        res@ == url@,
{
}

/// A request is refused only for its length: what goes into its URL has 16 million characters at
/// most.
pub proof fn only_long_targets_do_not_fit(
    base: &UpstreamUrl,
    prefix: &str,
    target: &RequestTarget,
    res: bool,
)
    requires
        call_ensures(target_fits, (base, prefix, target), res),
    ensures
        res == (base@.text.len() + base@.path.len() + prefix@.len() + target.path@.len() + (
        match target.query {
            Some(query) => query@.len() as int,
            None => 0,
        }) + 8 <= 16_777_216),
{
}

} // verus!
