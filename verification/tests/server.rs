use http::header::HeaderMap;
use indexmap::IndexSet;
use linkerd2_proxy::addr::{IpAddr, SocketAddr};
use linkerd2_proxy::conditional::Conditional;
use linkerd2_proxy::ctx::Proxy;
use linkerd2_proxy::message::uri::Uri;
use linkerd2_proxy::message::{Extensions, Method, Request, Version};
use linkerd2_proxy::proxy::protocol::Protocol;
use linkerd2_proxy::proxy::server::{
    mark_request, Accepted, OnDrain, Peeked, Serve, Server, Start,
};
use linkerd2_proxy::source::Source;
use linkerd2_proxy::stack::Stack;
use linkerd2_proxy::svc::Shared;
use linkerd2_proxy::time::Duration;
use linkerd2_proxy::tls::ReasonForNoTls;

fn v4(ip: &str, port: u16) -> SocketAddr {
    SocketAddr { ip: IpAddr::V4(ip.to_string()), port }
}

fn server<M>(make: M) -> Server<M> {
    let mut ports = IndexSet::new();
    ports.insert(3306u16);
    ports.insert(25u16);
    Server::new(v4("127.0.0.1", 4140), Proxy::Outbound, make, Duration::from_secs(1), ports)
}

fn accepted(orig_dst: Option<SocketAddr>) -> Accepted {
    Accepted {
        remote: v4("10.0.0.9", 40000),
        local: None,
        orig_dst,
        tls_status: Conditional::Absent(ReasonForNoTls::Disabled),
    }
}

#[derive(Clone)]
struct Refuse;

impl Stack<Source> for Refuse {
    type Value = ();
    type Error = ();

    fn accepts(&self, _: Source) -> bool {
        true
    }

    fn makes(&self, _: Source, r: Result<(), ()>) -> bool {
        r.is_err()
    }

    fn make(&self, _: &Source) -> Result<(), ()> {
        Err(())
    }
}

#[test]
fn exempt_ports_are_forwarded() {
    let server = server(Shared::new(()));
    match server.serve(accepted(Some(v4("1.2.3.4", 3306)))) {
        Start::ForwardTcp(source) => {
            assert_eq!(source.orig_dst, Some(v4("1.2.3.4", 3306)));
            assert_eq!(source.remote, v4("10.0.0.9", 40000));
            assert_eq!(source.local, v4("127.0.0.1", 4140));
        }
        Start::Peek(_) => panic!("must not peek"),
    }
    assert!(matches!(server.serve(accepted(Some(v4("1.2.3.4", 80)))), Start::Peek(_)));
    assert!(matches!(server.serve(accepted(None)), Start::Peek(_)));
    let mut known = accepted(None);
    known.local = Some(v4("10.0.0.1", 15001));
    match server.serve(known) {
        Start::Peek(source) => assert_eq!(source.local, v4("10.0.0.1", 15001)),
        Start::ForwardTcp(_) => panic!("must peek"),
    }
}

#[test]
fn connections_are_served_as_detected() {
    let server = server(Shared::new(7));
    let source = match server.serve(accepted(None)) {
        Start::Peek(source) => source,
        Start::ForwardTcp(_) => panic!("must peek"),
    };
    let forward = server.serve_detected(source.clone(), Peeked::Detected(None));
    assert!(matches!(forward, Serve::ForwardTcp(_)));
    assert_eq!(forward.on_drain(), OnDrain::Wait);
    let h1 = server.serve_detected(source.clone(), Peeked::Detected(Some(Protocol::Http1)));
    assert_eq!(h1.on_drain(), OnDrain::GracefulShutdown);
    assert!(matches!(h1, Serve::Http1 { service: 7, .. }));
    match server.serve_detected(source.clone(), Peeked::Detected(Some(Protocol::Http2))) {
        Serve::Http2 { new_service, source: s } => {
            assert_eq!(s, source);
            assert_eq!(new_service.target, source);
            assert_eq!(new_service.new_service(), Ok(7));
        }
        _ => panic!("must serve HTTP/2"),
    }
    assert!(matches!(server.serve_detected(source, Peeked::Failed), Serve::Abort));
}

#[test]
fn connections_without_a_service_are_given_up() {
    let server = server(Refuse);
    let source = match server.serve(accepted(None)) {
        Start::Peek(source) => source,
        Start::ForwardTcp(_) => panic!("must peek"),
    };
    let r = server.serve_detected(source, Peeked::Detected(Some(Protocol::Http1)));
    assert!(matches!(r, Serve::Abort));
    assert_eq!(r.on_drain(), OnDrain::Wait);
}

#[test]
fn requests_are_marked_with_their_source() {
    let source = Source {
        remote: v4("10.0.0.9", 40000),
        local: v4("127.0.0.1", 4140),
        orig_dst: None,
        tls_status: Conditional::Present(()),
    };
    let mut req = Request {
        method: Method::new("GET"),
        uri: Uri { scheme: None, authority: None, path_and_query: None },
        version: Version::Http2,
        headers: HeaderMap::new(),
        extensions: Extensions::new(),
        body: (),
    };
    mark_request(&source, &mut req);
    assert_eq!(req.extensions.source, Some(source));
}
