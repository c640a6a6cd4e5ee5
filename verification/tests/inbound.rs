use http::header::HeaderMap;
use linkerd2_proxy::addr::{Addr, IpAddr, NameAddr, SocketAddr};
use linkerd2_proxy::app::metric_labels::EndpointLabels;
use linkerd2_proxy::conditional::Conditional;
use linkerd2_proxy::ctx::{Host, Protocol};
use linkerd2_proxy::inbound::{router, Endpoint, Recognize, Target};
use linkerd2_proxy::message::uri::{PathAndQuery, Uri};
use linkerd2_proxy::message::{Extensions, Method, Request, Version};
use linkerd2_proxy::source::Source;
use linkerd2_proxy::time::Duration;
use linkerd2_proxy::tls::ReasonForNoTls;

fn v4(ip: &str, port: u16) -> SocketAddr {
    SocketAddr { ip: IpAddr::V4(ip.to_string()), port }
}

fn make_target_http1(addr: SocketAddr) -> Target {
    let protocol = Protocol::Http1 {
        host: Host::NoAuthority,
        is_h1_upgrade: false,
        was_absolute_form: false,
    };
    Target { addr, protocol }
}

fn request(source: Option<Source>) -> Request<()> {
    let mut extensions = Extensions::new();
    extensions.source = source;
    Request {
        method: Method::new("GET"),
        uri: Uri {
            scheme: None,
            authority: None,
            path_and_query: Some(PathAndQuery { path: "/".to_string(), query: None }),
        },
        version: Version::Http11,
        headers: HeaderMap::new(),
        extensions,
        body: (),
    }
}

fn source(local: SocketAddr, orig_dst: Option<SocketAddr>) -> Source {
    Source {
        remote: v4("10.0.0.9", 40000),
        local,
        orig_dst,
        tls_status: Conditional::Absent(ReasonForNoTls::Disabled),
    }
}

fn recognize(r: &Recognize, req: &Request<()>) -> Option<Target> {
    r.recognize(req, |req: &Request<()>| Protocol::from_request(req))
}

#[test]
fn recognize_orig_dst() {
    let inbound = Recognize::default();
    let local = v4("10.0.0.1", 4143);
    let req = request(Some(source(local.clone(), Some(v4("10.0.0.1", 8080)))));
    assert_eq!(recognize(&inbound, &req), Some(make_target_http1(v4("10.0.0.1", 8080))));
    let req = request(Some(source(local.clone(), Some(local))));
    assert_eq!(recognize(&inbound, &req), None);
}

#[test]
fn recognize_default_no_orig_dst() {
    let req = request(Some(source(v4("10.0.0.1", 4143), None)));
    let inbound = Recognize::new(v4("127.0.0.1", 80));
    assert_eq!(recognize(&inbound, &req), Some(make_target_http1(v4("127.0.0.1", 80))));
    assert_eq!(recognize(&Recognize::default(), &req), None);
}

#[test]
fn recognize_default_no_ctx() {
    let req = request(None);
    let inbound = Recognize::new(v4("127.0.0.1", 80));
    assert_eq!(recognize(&inbound, &req), Some(make_target_http1(v4("127.0.0.1", 80))));
    assert_eq!(recognize(&Recognize::default(), &req), None);
}

#[test]
fn recognize_default_no_loop() {
    let local = v4("10.0.0.1", 4143);
    let req = request(Some(source(local.clone(), Some(local))));
    let inbound = Recognize::new(v4("127.0.0.1", 80));
    assert_eq!(recognize(&inbound, &req), Some(make_target_http1(v4("127.0.0.1", 80))));
    assert_eq!(recognize(&Recognize::default(), &req), None);
}

#[test]
fn inbound_router_is_configured() {
    let config = router(Some(v4("127.0.0.1", 80)), 100, Duration::from_secs(60));
    assert_eq!(config.recognize.default_addr, Some(v4("127.0.0.1", 80)));
    assert_eq!(config.capacity, 100);
    assert_eq!(config.max_idle_age, Duration::from_secs(60));
}

#[test]
fn inbound_endpoints_are_labelled() {
    let dst = Some(Addr::Name(NameAddr { name: "web.ns".to_string(), port: 8080 }));
    let ep = Endpoint { addr: v4("1.2.3.4", 80), dst };
    let labels = EndpointLabels::from_inbound(ep);
    assert_eq!(labels.addr, v4("1.2.3.4", 80));
    assert_eq!(
        labels.dst,
        Some(Addr::Name(NameAddr { name: "web.ns".to_string(), port: 8080 }))
    );
    assert_eq!(labels.fmt_labels(), "TO=DO");
    let ep = Endpoint { addr: v4("1.2.3.4", 80), dst: None };
    assert_eq!(EndpointLabels::from_inbound(ep).dst, None);
}
