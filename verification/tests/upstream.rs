use ccs_proxy::error::ProxyError;
use ccs_proxy::upstream::{
    build_upstream_url, build_upstream_websocket_url, combine_paths, push_path_segment,
    target_fits, upstream_host_header, RequestTarget, UpstreamUrl,
};
use url::Url;

fn target(path: &str, query: Option<&str>) -> RequestTarget {
    RequestTarget { path: path.to_string(), query: query.map(str::to_string) }
}

fn url(text: &str) -> UpstreamUrl {
    UpstreamUrl::parse(text).unwrap()
}

#[test]
fn build_upstream_url_preserves_path_and_query() {
    let upstream = url("https://example.com/root");
    let target = target("/backend-api/codex/responses", Some("limit=100"));

    let url = build_upstream_url(&upstream, "/routing-prefix", &target).ok().unwrap();

    assert_eq!(
        url.as_str(),
        "https://example.com/root/routing-prefix/backend-api/codex/responses?limit=100"
    );
}

#[test]
fn build_upstream_url_does_not_rewrite_request_path() {
    let upstream = url("https://example.com");
    let target = target(
        "/agents/codex-room/room-1/backend-api/codex/wham/remote/control/server",
        Some("cursor=1"),
    );

    let url = build_upstream_url(&upstream, "", &target).ok().unwrap();

    assert_eq!(
        url.as_str(),
        "https://example.com/agents/codex-room/room-1/backend-api/codex/wham/remote/control/server?cursor=1"
    );
}

#[test]
fn build_upstream_url_works_without_prefix() {
    let upstream = url("https://example.com");

    let url = build_upstream_url(&upstream, "", &target("/backend-api/codex", None)).ok().unwrap();

    assert_eq!(url.as_str(), "https://example.com/backend-api/codex");
}

#[test]
fn build_upstream_url_keeps_the_slash_at_the_end() {
    let upstream = url("https://example.com");

    let url = build_upstream_url(&upstream, "", &target("/backend-api/codex/", None)).ok().unwrap();

    assert_eq!(url.as_str(), "https://example.com/backend-api/codex/");

    let url = build_upstream_url(&upstream, "/p", &target("//a/", None)).ok().unwrap();

    assert_eq!(url.as_str(), "https://example.com/p//a/");
}

#[test]
fn build_upstream_websocket_url_switches_scheme() {
    let https = url("https://example.com");
    let http = url("http://example.com");
    let target = target("/backend-api/wham/remote/control/server", None);

    assert_eq!(
        build_upstream_websocket_url(&https, "", &target).ok().unwrap().as_str(),
        "wss://example.com/backend-api/wham/remote/control/server"
    );
    assert_eq!(
        build_upstream_websocket_url(&http, "", &target).ok().unwrap().as_str(),
        "ws://example.com/backend-api/wham/remote/control/server"
    );
}

#[test]
fn websocket_url_differs_in_the_scheme_alone() {
    for base in [
        "https://example.com",
        "http://example.com:8080/root",
        "https://user@example.com:80/?old=1#part",
        "http://[::1]:443",
    ] {
        let upstream = url(base);
        let expected = Url::parse(base).unwrap();
        for (path, query) in [("/a b/../c/", Some("q=1 2")), ("//x\\y", None), ("", Some(""))] {
            let target = target(path, query);
            let read = |text: String| Url::parse(&text).unwrap();
            let plain = read(build_upstream_url(&upstream, "p", &target).ok().unwrap());
            let socket = read(build_upstream_websocket_url(&upstream, "p", &target).ok().unwrap());
            assert_eq!(plain.scheme(), expected.scheme());
            assert_eq!(socket.scheme(), expected.scheme().replace("http", "ws"));
            assert_eq!((plain.host_str(), plain.port()), (expected.host_str(), expected.port()));
            assert_eq!((socket.host_str(), socket.port()), (plain.host_str(), plain.port()));
            assert_eq!((socket.path(), socket.query()), (plain.path(), plain.query()));
        }
    }
}

#[test]
fn parsed_url_has_its_parts() {
    let upstream = url("HTTPS://Example.com:8443/root/x");
    assert_eq!(upstream.as_str(), "https://example.com:8443/root/x");
    assert_eq!(upstream.clone().as_str(), upstream.as_str());
    let made = build_upstream_url(&upstream, "", &target("/y", None)).ok().unwrap();
    assert_eq!(made, "https://example.com:8443/root/x/y");
    assert_eq!(url("https://example.com:443").as_str(), "https://example.com/");
    assert!(upstream_host_header(&url("data:text")).is_err());
    assert!(UpstreamUrl::parse("not a url").is_none());
}

#[test]
fn base_url_whose_text_cannot_be_read_again_is_used() {
    let host: String = (0..1000).rev().map(|k| char::from_u32(0x4e00 + 20 * k).unwrap()).collect();
    let upstream = url(&format!("http://{host}/root"));
    assert!(UpstreamUrl::parse(upstream.as_str()).is_none());
    let plain = build_upstream_url(&upstream, "", &target("/a", None)).ok().unwrap();
    assert_eq!(plain, format!("{}/a", upstream.as_str()));
    let socket = build_upstream_websocket_url(&upstream, "", &target("/a", None)).ok().unwrap();
    assert_eq!(socket, plain.replacen("http", "ws", 1));
}

#[test]
fn paths_combine() {
    assert_eq!(combine_paths("/", "", "/"), "/");
    assert_eq!(combine_paths("", "", ""), "/");
    assert_eq!(combine_paths("/root", "", "/"), "/root/");
    assert_eq!(combine_paths("/root", "", ""), "/root");
    assert_eq!(combine_paths("/", "/p", "/"), "/p/");
    assert_eq!(combine_paths("/root/", "prefix/", "//a//b/"), "/root/prefix//a//b/");
    assert_eq!(combine_paths("/", "/p/", "*"), "/p/*");
    assert_eq!(combine_paths("", "", "a"), "/a");
    assert_eq!(combine_paths("/", "/p", "/x y"), "/p/x y");
}

#[test]
fn plain_request_path_stays_as_it_is() {
    for path in ["/a", "/a/b", "/backend-api/codex/beacons/home"] {
        assert_eq!(combine_paths("/", "", path), path);
        assert_eq!(combine_paths("/x", "y", path), format!("/x/y{path}"));
    }
    assert_eq!(combine_paths("/", "", "/a/"), "/a/");
    assert_eq!(combine_paths("/x/", "/y/", "/a//"), "/x/y/a//");
    assert_eq!(combine_paths("/x/", "", "//"), "/x//");
    assert_eq!(combine_paths("/", "", "//a"), "//a");
}

#[test]
fn empty_path_adds_no_segment() {
    let mut segments = vec!["a".to_string()];
    push_path_segment(&mut segments, "///");
    assert_eq!(segments, ["a"]);
    push_path_segment(&mut segments, "/b/c/");
    assert_eq!(segments, ["a", "b/c"]);
}

#[test]
fn query_of_base_url_is_replaced() {
    let upstream = url("https://example.com/root?old=1");
    let with_query = build_upstream_url(&upstream, "", &target("/a", Some("new=2"))).ok().unwrap();
    assert_eq!(with_query, "https://example.com/root/a?new=2");
    let without = build_upstream_url(&upstream, "", &target("/a", None)).ok().unwrap();
    assert_eq!(without, "https://example.com/root/a");
}

#[test]
fn other_schemes_have_no_websocket() {
    let upstream = url("ftp://example.com");
    let error = build_upstream_websocket_url(&upstream, "", &target("/a", None)).err().unwrap();
    assert!(matches!(&error, ProxyError::UnsupportedScheme(scheme) if scheme == "ftp"));
    assert_eq!(error.message(), "unsupported upstream scheme `ftp`");
}

#[test]
fn base_url_without_host_has_no_host_header() {
    let error = upstream_host_header(&url("data:text")).err().unwrap();
    assert!(matches!(error, ProxyError::MissingHost));
    assert_eq!(error.message(), "upstream base url is missing host");
}

#[test]
fn host_header_has_unusual_port_only() {
    assert_eq!(upstream_host_header(&url("https://example.com:8443")).ok().unwrap(), "example.com:8443");
    assert_eq!(upstream_host_header(&url("https://example.com:443")).ok().unwrap(), "example.com");
    assert_eq!(upstream_host_header(&url("http://127.0.0.1:80")).ok().unwrap(), "127.0.0.1");
    assert_eq!(upstream_host_header(&url("http://[::1]:65535")).ok().unwrap(), "[::1]:65535");
}

#[test]
fn long_targets_do_not_fit() {
    let upstream = url("https://example.com");
    assert!(target_fits(&upstream, "", &target("/a", Some("b"))));
    assert!(!target_fits(&upstream, "", &target(&"a".repeat(0x100_0000), None)));
}
