use http::header::{HeaderMap, HeaderName, HeaderValue};
use linkerd2_proxy::addr::{Authority, IpAddr, SocketAddr};
use linkerd2_proxy::conditional::Conditional;
use linkerd2_proxy::ctx::{Host, Protocol, Proxy};
use linkerd2_proxy::message::uri::{PathAndQuery, Uri};
use linkerd2_proxy::message::{Extensions, Method, Request, Response, StatusCode, Version};
use linkerd2_proxy::proxy::downgrade::Downgrade;
use linkerd2_proxy::proxy::h1::{
    authority_from_host, is_absolute_form, is_origin_form, normalize_our_view_of_uri,
    set_origin_form, try_normalize, wants_upgrade,
};
use linkerd2_proxy::proxy::normalize_uri::NormalizeUri;
use linkerd2_proxy::proxy::settings::Settings;
use linkerd2_proxy::source::Source;
use linkerd2_proxy::tls::ReasonForNoTls;

fn v4(ip: &str, port: u16) -> SocketAddr {
    SocketAddr { ip: IpAddr::V4(ip.to_string()), port }
}

fn authority(text: &str) -> Authority {
    Authority { text: text.to_string() }
}

fn path(p: &str) -> Uri {
    Uri {
        scheme: None,
        authority: None,
        path_and_query: Some(PathAndQuery { path: p.to_string(), query: None }),
    }
}

fn absolute(host: &str, p: &str) -> Uri {
    Uri { scheme: Some("http".to_string()), authority: Some(authority(host)), ..path(p) }
}

fn request(uri: Uri) -> Request<()> {
    Request {
        method: Method::new("GET"),
        uri,
        version: Version::Http11,
        headers: HeaderMap::new(),
        extensions: Extensions::new(),
        body: (),
    }
}

fn with_header(mut req: Request<()>, name: &'static str, value: &'static str) -> Request<()> {
    req.headers.insert(name, HeaderValue::from_static(value));
    req
}

fn with_source(mut req: Request<()>, local: SocketAddr, orig_dst: Option<SocketAddr>) -> Request<()> {
    req.extensions.source = Some(Source {
        remote: v4("10.0.0.9", 40000),
        local,
        orig_dst,
        tls_status: Conditional::Absent(ReasonForNoTls::Disabled),
    });
    req
}

#[test]
fn host_header_becomes_the_authority() {
    let mut req = with_header(request(path("/docs")), "host", "example.com:8080");
    normalize_our_view_of_uri(&mut req);
    assert_eq!(req.uri, absolute("example.com:8080", "/docs"));
}

#[test]
fn original_destination_is_the_last_resort() {
    let mut req = with_source(request(path("/")), v4("127.0.0.1", 4140), Some(v4("1.2.3.4", 5678)));
    assert!(try_normalize(&mut req));
    assert_eq!(req.uri, absolute("1.2.3.4:5678", "/"));

    let v6 = SocketAddr { ip: IpAddr::V6("2001:db8::1".to_string()), port: 80 };
    let mut req = with_source(request(path("/")), v4("127.0.0.1", 4140), Some(v6));
    assert!(try_normalize(&mut req));
    assert_eq!(req.uri, absolute("[2001:db8::1]:80", "/"));
}

#[test]
fn requests_for_the_proxy_itself_stay_without_authority() {
    let local = v4("127.0.0.1", 4140);
    let mut req = with_source(request(path("/")), local.clone(), Some(local));
    assert!(try_normalize(&mut req));
    assert_eq!(req.uri, path("/"));
    let mut req = request(path("/"));
    assert!(try_normalize(&mut req));
    assert_eq!(req.uri, path("/"));
}

#[test]
fn connect_targets_get_no_scheme() {
    let target = Uri { scheme: None, authority: Some(authority("old:1")), path_and_query: None };
    let mut req = with_header(request(target), "host", "new:2");
    normalize_our_view_of_uri(&mut req);
    assert_eq!(
        req.uri,
        Uri { scheme: None, authority: Some(authority("new:2")), path_and_query: None }
    );
}

#[test]
fn addresses_that_are_no_authority_are_refused() {
    let odd = SocketAddr { ip: IpAddr::V4("not an address".to_string()), port: 1 };
    let mut req = with_source(request(path("/")), v4("127.0.0.1", 4140), Some(odd));
    assert!(!try_normalize(&mut req));
    assert_eq!(req.uri, path("/"));
}

#[test]
fn origin_form_has_only_a_path_and_is_stable() {
    let mut uri = absolute("example.com", "/docs");
    assert!(is_absolute_form(&uri));
    set_origin_form(&mut uri);
    assert_eq!(uri, path("/docs"));
    assert!(!is_absolute_form(&uri));
    set_origin_form(&mut uri);
    assert_eq!(uri, path("/docs"));
    assert!(!is_origin_form(&uri));
    assert!(is_origin_form(&Uri {
        scheme: None,
        authority: Some(authority("example.com")),
        path_and_query: None
    }));
}

#[test]
fn origin_form_undoes_normalization() {
    let mut req = with_header(request(path("/a")), "host", "example.com");
    normalize_our_view_of_uri(&mut req);
    set_origin_form(&mut req.uri);
    assert_eq!(req.uri, path("/a"));
}

#[test]
fn only_authorities_are_taken_from_host_headers() {
    let req = with_header(request(path("/")), "host", "example.com");
    assert_eq!(authority_from_host(&req), Some(authority("example.com")));
    let req = with_header(request(path("/")), "host", "");
    assert_eq!(authority_from_host(&req), None);
    let req = with_header(request(path("/")), "host", "a b");
    assert_eq!(authority_from_host(&req), None);
    assert_eq!(authority_from_host(&request(path("/"))), None);
    let mut req = request(path("/"));
    req.headers.insert("host", HeaderValue::from_bytes(b"ex\xe4mple").unwrap());
    assert_eq!(authority_from_host(&req), None);
}

#[test]
fn authorities_differ_in_more_than_case() {
    assert_eq!(authority("Example.com"), authority("example.COM"));
    assert_ne!(authority("example.com"), authority("example.org"));
}

#[test]
fn upgrades_are_asked_for_in_http11_only() {
    assert!(wants_upgrade(&with_header(request(path("/")), "upgrade", "websocket")));
    assert!(!wants_upgrade(&with_header(request(path("/")), "upgrade", "h2c")));
    assert!(wants_upgrade(&with_header(request(path("/")), "upgrade", "h2c,foo")));
    assert!(!wants_upgrade(&request(path("/"))));
    let mut req = request(path("/"));
    req.method = Method::new("CONNECT");
    assert!(wants_upgrade(&req));
    req.version = Version::Http10;
    assert!(!wants_upgrade(&req));
    let mut req = with_header(request(path("/")), "upgrade", "h2c");
    req.method = Method::new("CONNECT");
    assert!(!wants_upgrade(&req));
}

#[test]
fn uris_received_in_absolute_form_are_left_alone() {
    let mut req = with_header(request(path("/")), "host", "example.com");
    assert!(NormalizeUri::new((), true).call(&mut req));
    assert_eq!(req.uri, path("/"));
    req.version = Version::Http2;
    assert!(NormalizeUri::new((), false).call(&mut req));
    assert_eq!(req.uri, path("/"));
    req.version = Version::Http10;
    assert!(NormalizeUri::new((), false).call(&mut req));
    assert_eq!(req.uri, absolute("example.com", "/"));
    let made = NormalizeUri::new((), true).new_service(3);
    assert_eq!((made.inner, made.was_absolute_form), (3, true));
}

#[test]
fn absolute_form_replaces_the_host_header() {
    let mut req = with_header(request(absolute("uri.com:81", "/a")), "host", "header.com");
    req.headers.append("host", HeaderValue::from_static("other.com"));
    assert!(NormalizeUri::new((), true).call(&mut req));
    assert_eq!(req.uri, absolute("uri.com:81", "/a"));
    assert_eq!(req.headers.get_all("host").iter().collect::<Vec<_>>(), vec!["uri.com:81"]);
    assert_eq!(authority_from_host(&req), req.uri.authority);

    req.version = Version::Http2;
    req.uri = absolute("next.com", "/");
    assert!(NormalizeUri::new((), true).call(&mut req));
    assert_eq!(req.headers.get("host").unwrap(), "uri.com:81");

    // What cannot stand in a header is not put there.
    req.version = Version::Http11;
    req.uri = absolute("line\nbreak", "/");
    assert!(!NormalizeUri::new((), true).call(&mut req));
    assert_eq!(req.headers.get("host").unwrap(), "uri.com:81");
}

#[test]
fn upgraded_requests_are_downgraded() {
    let mut req = with_header(request(absolute("example.com", "/a")), "l5d-orig-proto", "HTTP/1.1");
    req.version = Version::Http2;
    assert!(Downgrade::new(()).call(&mut req));
    assert_eq!(req.version, Version::Http11);
    assert_eq!(req.uri, path("/a"));
    assert!(req.headers.get("l5d-orig-proto").is_none());
    assert!(!Downgrade::new(()).call(&mut req));
}

#[test]
fn absolute_form_and_old_versions_survive_downgrading() {
    let mut req = with_header(
        request(absolute("example.com", "/a")),
        "l5d-orig-proto",
        "HTTP/1.0; absolute-form",
    );
    req.version = Version::Http2;
    assert!(Downgrade::new(()).call(&mut req));
    assert_eq!(req.version, Version::Http10);
    assert_eq!(req.uri, absolute("example.com", "/a"));

    let mut req = with_header(request(path("/a")), "l5d-orig-proto", "SPDY");
    req.version = Version::Http2;
    assert!(Downgrade::new(()).call(&mut req));
    assert_eq!(req.version, Version::Http2);
}

#[test]
fn other_requests_are_not_downgraded() {
    let mut req = with_header(request(path("/a")), "l5d-orig-proto", "HTTP/1.1");
    assert!(!Downgrade::new(()).call(&mut req));
    assert_eq!(req.headers.get("l5d-orig-proto").unwrap(), "HTTP/1.1");
    let mut req = request(path("/a"));
    req.version = Version::Http2;
    assert!(!Downgrade::new(()).call(&mut req));
    assert_eq!(req.version, Version::Http2);
}

#[test]
fn responses_note_their_version() {
    let mut rsp = Response {
        status: StatusCode::from_u16(200).unwrap(),
        version: Version::Http10,
        headers: HeaderMap::new(),
        body: (),
    };
    rsp.headers.insert("transfer-encoding", HeaderValue::from_static("chunked"));
    assert!(Downgrade::<()>::try_upgrade_response(&mut rsp));
    assert_eq!(rsp.version, Version::Http2);
    assert_eq!(rsp.headers.get("l5d-orig-proto").unwrap(), "HTTP/1.0");
    assert!(rsp.headers.get("transfer-encoding").is_none());
    assert_eq!(rsp.headers.len(), 1);

    // A response that speaks HTTP/2 already is left alone.
    rsp.headers.insert("l5d-orig-proto", HeaderValue::from_static("kept"));
    Downgrade::<()>::upgrade_response(&mut rsp);
    assert_eq!(rsp.headers.get("l5d-orig-proto").unwrap(), "kept");
}

#[test]
fn full_header_maps_take_no_note() {
    let mut rsp = Response {
        status: StatusCode::from_u16(200).unwrap(),
        version: Version::Http11,
        headers: HeaderMap::new(),
        body: (),
    };
    for i in 0..32768 {
        let name = HeaderName::from_bytes(format!("x-{}", i).as_bytes()).unwrap();
        rsp.headers.insert(name, HeaderValue::from_static("v"));
    }
    assert!(!Downgrade::<()>::try_upgrade_response(&mut rsp));
    assert_eq!((rsp.version, rsp.headers.keys_len()), (Version::Http11, 32768));
    // A response that has no protocol to note is handed on.
    rsp.version = Version::Http2;
    assert!(Downgrade::<()>::try_upgrade_response(&mut rsp));
    assert_eq!((rsp.version, rsp.headers.keys_len()), (Version::Http2, 32768));
    rsp.version = Version::Http11;
    // Where there is a note already, it is replaced.
    rsp.headers.remove("x-0");
    rsp.headers.insert("l5d-orig-proto", HeaderValue::from_static("old"));
    assert!(Downgrade::<()>::try_upgrade_response(&mut rsp));
    assert_eq!(rsp.headers.get("l5d-orig-proto").unwrap(), "HTTP/1.1");
    assert_eq!(rsp.version, Version::Http2);
}

#[test]
fn protocols_and_settings_follow_requests() {
    let mut req = with_header(request(path("/")), "host", "example.com");
    assert_eq!(
        Protocol::from_request(&req),
        Protocol::Http1 {
            host: Host::Authority(authority("example.com")),
            is_h1_upgrade: false,
            was_absolute_form: false
        }
    );
    req.uri = absolute("other.com", "/");
    let settings = Settings::detect(&req);
    assert_eq!(
        settings,
        Settings::Http1 {
            host: Host::Authority(authority("other.com")),
            is_h1_upgrade: false,
            was_absolute_form: true
        }
    );
    assert!(settings.was_absolute_form() && settings.can_reuse_clients());
    assert!(!settings.is_http2() && !settings.is_h1_upgrade());
    req.version = Version::Http2;
    assert_eq!(Protocol::from_request(&req), Protocol::Http2);
    assert_eq!(Settings::detect(&req), Settings::Http2);
    let anonymous = Protocol::from_request(&request(path("/")));
    assert!(!anonymous.can_reuse_clients() && !anonymous.was_absolute_form());
    assert!(!anonymous.is_http2() && !anonymous.is_h1_upgrade());
    assert!(Protocol::Http2.can_reuse_clients() && Protocol::Http2.is_http2());
}

#[test]
fn proxies_are_labelled_by_direction() {
    assert_eq!(Proxy::Inbound.as_str(), "in");
    assert_eq!(Proxy::Outbound.as_str(), "out");
}
