use http::header::{HeaderMap, HeaderValue};
use indexmap::IndexMap;
use linkerd2_proxy::addr::{Addr, Authority, Host, HostAndPort, IpAddr, NameAddr, SocketAddr};
use linkerd2_proxy::app::metric_labels::EndpointLabels;
use linkerd2_proxy::app::outbound::canonicalize::{self, Deadline, Progress, State};
use linkerd2_proxy::app::outbound::{
    discovery, orig_proto_upgrade, CanonicalDstAddr, DstAddr, Endpoint, RecognizeDstAddr,
};
use linkerd2_proxy::conditional::Conditional;
use linkerd2_proxy::dns::{Name, Refine, ResolveError};
use linkerd2_proxy::endpoint::{self, Metadata, ProtocolHint};
use linkerd2_proxy::message::uri::{PathAndQuery, Uri};
use linkerd2_proxy::message::{Extensions, Method, Request, Version};
use linkerd2_proxy::outbound::{self, Client, Destination, NameOrAddr, Recognize};
use linkerd2_proxy::poll::{Async, Poll};
use linkerd2_proxy::proxy::client::Config;
use linkerd2_proxy::proxy::profiles::CanGetDestination;
use linkerd2_proxy::proxy::resolve::{Change, Resolution, Resolve, Update};
use linkerd2_proxy::proxy::settings::Settings;
use linkerd2_proxy::source::Source;
use linkerd2_proxy::stack::either::Either;
use linkerd2_proxy::stack::layer::Layer;
use linkerd2_proxy::stack::Stack;
use linkerd2_proxy::svc::Shared;
use linkerd2_proxy::tap::event;
use linkerd2_proxy::time::Duration;
use linkerd2_proxy::tls::{Identity, ReasonForNoIdentity, ReasonForNoTls};
use linkerd2_proxy::transport::Target;
use std::time::Instant;

fn v4(ip: &str, port: u16) -> SocketAddr {
    SocketAddr { ip: IpAddr::V4(ip.to_string()), port }
}

fn name(n: &str, port: u16) -> NameAddr {
    NameAddr { name: n.to_string(), port }
}

fn request(authority: Option<&str>, host: Option<&'static str>) -> Request<()> {
    let mut headers = HeaderMap::new();
    if let Some(host) = host {
        headers.insert("host", HeaderValue::from_static(host));
    }
    Request {
        method: Method::new("GET"),
        uri: Uri {
            scheme: authority.map(|_| "http".to_string()),
            authority: authority.map(|a| Authority { text: a.to_string() }),
            path_and_query: Some(PathAndQuery { path: "/".to_string(), query: None }),
        },
        version: Version::Http11,
        headers,
        extensions: Extensions::new(),
        body: (),
    }
}

/// Takes an authority for a name, unless it begins with a digit or an exclamation mark.
fn normalize(a: &Authority, port: Option<u16>) -> Option<HostAndPort> {
    let port = port?;
    if a.text.starts_with('!') {
        None
    } else if a.text.starts_with(|c: char| c.is_ascii_digit()) {
        Some(HostAndPort { host: Host::Ip(IpAddr::V4(a.text.clone())), port })
    } else {
        Some(HostAndPort { host: Host::DnsName(a.text.clone()), port })
    }
}

#[test]
fn destinations_come_from_authorities_first() {
    let d = Recognize::name_or_addr(&request(Some("web"), Some("other")), &normalize);
    assert_eq!(d, Some(NameOrAddr::Name(name("web", 80))));
    let d = Recognize::name_or_addr(&request(None, Some("1.2.3.4")), &normalize);
    assert_eq!(d, Some(NameOrAddr::Addr(v4("1.2.3.4", 80))));
    let d = Recognize::name_or_addr(&request(Some("!"), Some("web")), &normalize);
    assert_eq!(d, Some(NameOrAddr::Name(name("web", 80))));
    assert_eq!(Recognize::name_or_addr(&request(None, None), &normalize), None);
}

#[test]
fn original_destination_is_used_without_authority() {
    let mut req = request(None, None);
    req.extensions.source = Some(Source {
        remote: v4("10.0.0.9", 40000),
        local: v4("127.0.0.1", 4140),
        orig_dst: Some(v4("5.6.7.8", 443)),
        tls_status: Conditional::Absent(ReasonForNoTls::Disabled),
    });
    let d = Recognize::new().recognize(&req, &normalize).unwrap();
    assert_eq!(d.name_or_addr, NameOrAddr::Addr(v4("5.6.7.8", 443)));
    assert_eq!(d.settings, Settings::detect(&req));
    assert_eq!(d.to_text(), "5.6.7.8:443");
    let d = Recognize::new().recognize(&request(Some("web"), None), &normalize).unwrap();
    assert_eq!(d.to_text(), "web:80");
}

#[test]
fn destinations_are_recognized_by_address() {
    let r = RecognizeDstAddr.recognize(&request(Some("web"), None), |req: &Request<()>| {
        req.uri.authority.as_ref().map(|a| Addr::Name(name(&a.text, 1)))
    });
    assert_eq!(r.unwrap().to_text(), "web:1");
    assert_eq!(RecognizeDstAddr.recognize(&request(None, None), |_: &Request<()>| None), None);
}

/// Gives out a list of updates, one by one.
struct Updates(Vec<Poll<Update<Metadata>, &'static str>>);

impl Resolution for Updates {
    type Endpoint = Metadata;
    type Error = &'static str;

    fn polls(self, _: Poll<Update<Metadata>, &'static str>, _: Self) -> bool {
        true
    }

    fn poll(&mut self) -> Poll<Update<Metadata>, &'static str> {
        if self.0.is_empty() {
            Ok(Async::NotReady)
        } else {
            self.0.remove(0)
        }
    }
}

struct NoUpdates;

impl Resolve<NameAddr> for NoUpdates {
    type Endpoint = Metadata;
    type Resolution = Updates;

    fn resolves(&self, _: NameAddr, _: Updates) -> bool {
        true
    }

    fn resolve(&self, _: &NameAddr) -> Updates {
        Updates(vec![])
    }
}

fn metadata(hint: ProtocolHint, identity: Option<&str>) -> Metadata {
    Metadata::new(
        IndexMap::new(),
        hint,
        match identity {
            Some(id) => Conditional::Present(Identity { name: id.to_string() }),
            None => Conditional::Absent(ReasonForNoIdentity::NotProvidedByServiceDiscovery),
        },
    )
}

#[test]
fn named_endpoints_note_why_they_have_no_tls() {
    let mut res: discovery::Resolution<Updates, ()> = discovery::Resolution::Name(
        name("web", 80),
        Updates(vec![
            Ok(Async::Ready(Change::Insert(v4("1.1.1.1", 1), metadata(ProtocolHint::Http2, Some("id"))))),
            Ok(Async::Ready(Change::Insert(v4("2.2.2.2", 2), metadata(ProtocolHint::Unknown, None)))),
            Ok(Async::Ready(Change::Remove(v4("1.1.1.1", 1)))),
            Err("gone"),
        ]),
    );
    match res.poll() {
        Ok(Async::Ready(Change::Insert(addr, ep))) => {
            assert_eq!(addr, v4("1.1.1.1", 1));
            assert_eq!(ep.dst_name, Some(name("web", 80)));
            assert_eq!(ep.connect, Target::new(addr, Conditional::Absent(ReasonForNoTls::NoConfig)));
            assert!(ep.can_use_orig_proto());
            let labels = EndpointLabels::from_outbound(ep);
            assert_eq!(labels.dst, Some(Addr::Name(name("web", 80))));
            assert_eq!(labels.fmt_labels(), "FIX=ME");
        }
        _ => panic!("must insert"),
    }
    match res.poll() {
        Ok(Async::Ready(Change::Insert(_, ep))) => assert_eq!(
            ep.connect.tls,
            Conditional::Absent(ReasonForNoTls::NoIdentity(
                ReasonForNoIdentity::NotProvidedByServiceDiscovery
            ))
        ),
        _ => panic!("must insert"),
    }
    match res.poll() {
        Ok(Async::Ready(Change::Remove(addr))) => assert_eq!(addr, v4("1.1.1.1", 1)),
        _ => panic!("must remove"),
    }
    assert!(matches!(res.poll(), Err("gone")));
    assert!(matches!(res.poll(), Ok(Async::NotReady)));
}

#[test]
fn addresses_are_reported_once() {
    let resolve: discovery::Resolve<NoUpdates, ()> = discovery::Resolve::new(NoUpdates);
    let mut res = resolve.resolve(&CanonicalDstAddr { addr: Addr::Socket(v4("1.2.3.4", 80)) });
    match res.poll() {
        Ok(Async::Ready(Change::Insert(addr, ep))) => {
            assert_eq!(addr, v4("1.2.3.4", 80));
            assert_eq!(ep.dst_name, None);
            assert_eq!(ep.to_text(), "1.2.3.4:80");
            assert_eq!(
                ep.connect.tls,
                Conditional::Absent(ReasonForNoTls::NoIdentity(
                    ReasonForNoIdentity::NoAuthorityInHttpRequest
                ))
            );
            assert!(!ep.can_use_orig_proto());
        }
        _ => panic!("must insert"),
    }
    assert!(matches!(res.poll(), Ok(Async::NotReady)));
    assert!(matches!(res.poll(), Ok(Async::NotReady)));
    let named = resolve.resolve(&CanonicalDstAddr { addr: Addr::Name(name("web", 1)) });
    assert!(matches!(named, discovery::Resolution::Name(_, _)));
}

#[test]
fn endpoints_keep_the_settings_of_their_destination() {
    let resolve: outbound::Resolve<NoUpdates, ()> = outbound::Resolve::new(NoUpdates);
    let dst = Destination {
        name_or_addr: NameOrAddr::Addr(v4("1.2.3.4", 80)),
        settings: Settings::Http2,
    };
    let mut res = resolve.resolve(&dst);
    match res.poll() {
        Ok(Async::Ready(Change::Insert(_, ep))) => {
            assert_eq!(ep.settings, Settings::Http2);
            assert_eq!(ep.to_text(), "1.2.3.4:80");
            assert!(!ep.can_use_orig_proto());
            let client = Client { inner: Echo };
            assert_eq!(client.make(&ep), Ok(Config::new(ep.connect.clone(), Settings::Http2)));
        }
        _ => panic!("must insert"),
    }
    assert!(matches!(res.poll(), Ok(Async::NotReady)));
    let mut named: outbound::Resolution<Updates, ()> = outbound::Resolution::Name(
        Updates(vec![Ok(Async::Ready(Change::Insert(
            v4("1.1.1.1", 1),
            metadata(ProtocolHint::Unknown, Some("id")),
        )))]),
        Settings::Http2,
    );
    match named.poll() {
        Ok(Async::Ready(Change::Insert(_, ep))) => {
            assert_eq!(ep.connect.tls, Conditional::Absent(ReasonForNoTls::NoConfig));
            assert_eq!(ep.settings, Settings::Http2);
        }
        _ => panic!("must insert"),
    }
}

/// Hands back what a client is configured with.
struct Echo;

impl Stack<Config<()>> for Echo {
    type Value = Config<()>;
    type Error = ();

    fn accepts(&self, _: Config<()>) -> bool {
        true
    }

    fn makes(&self, target: Config<()>, r: Result<Config<()>, ()>) -> bool {
        Ok(target) == r
    }

    fn make(&self, target: &Config<()>) -> Result<Config<()>, ()> {
        Ok(Config::new(target.target.clone(), target.settings.clone()))
    }
}

fn ep(hint: ProtocolHint, identity: Option<&str>) -> Endpoint<&'static str> {
    Endpoint {
        dst_name: Some(name("web", 80)),
        connect: Target::new(v4("1.1.1.1", 1), Conditional::Absent(ReasonForNoTls::NoConfig)),
        metadata: metadata(hint, identity),
    }
}

#[test]
fn tls_takes_an_identity_and_a_configuration() {
    let with = ep(ProtocolHint::Unknown, Some("id")).with_update(&Conditional::Present("cfg"));
    match with.connect.tls {
        Conditional::Present(cc) => {
            assert_eq!(cc.server_identity.name, "id");
            assert_eq!(cc.config, "cfg");
        }
        Conditional::Absent(_) => panic!("must use TLS"),
    }
    let r = ep(ProtocolHint::Unknown, None).with_update(&Conditional::Present("cfg"));
    assert_eq!(
        r.connect().tls,
        Conditional::Absent(ReasonForNoTls::NoIdentity(
            ReasonForNoIdentity::NotProvidedByServiceDiscovery
        ))
    );
    let r = ep(ProtocolHint::Unknown, Some("id"))
        .with_update(&Conditional::Absent(ReasonForNoTls::Disabled));
    assert_eq!(r.connect.tls, Conditional::Absent(ReasonForNoTls::Disabled));
    let tapped = event::Endpoint::from(r);
    assert_eq!(tapped.direction, event::Direction::Out);
    assert_eq!(tapped.target.addr, v4("1.1.1.1", 1));
}

#[test]
fn only_other_proxies_get_upgraded_requests() {
    let stack: orig_proto_upgrade::Stack<Shared<u8>> = orig_proto_upgrade::Stack {
        inner: Shared::new(1),
    };
    match stack.make(&ep(ProtocolHint::Http2, None)) {
        Ok(Either::A(upgrade)) => assert_eq!(upgrade.inner, 1),
        _ => panic!("must upgrade"),
    }
    assert!(matches!(stack.make(&ep(ProtocolHint::Unknown, None)), Ok(Either::B(1))));
}

#[test]
fn only_names_have_destinations() {
    let dst = CanonicalDstAddr { addr: Addr::Name(name("web", 80)) };
    assert_eq!(dst.get_destination(), Some(&name("web", 80)));
    assert_eq!(dst.to_text(), "web:80");
    let dst = CanonicalDstAddr { addr: Addr::Socket(v4("1.2.3.4", 80)) };
    assert_eq!(dst.get_destination(), None);
}

/// Builds services that are the text of their target, and refuses targets on port 1.
#[derive(Clone)]
struct ByText;

impl Stack<CanonicalDstAddr> for ByText {
    type Value = String;
    type Error = String;

    fn accepts(&self, _: CanonicalDstAddr) -> bool {
        true
    }

    fn makes(&self, target: CanonicalDstAddr, r: Result<String, String>) -> bool {
        self.make(&target) == r
    }

    fn make(&self, target: &CanonicalDstAddr) -> Result<String, String> {
        let text = target.to_text();
        if text.ends_with(":1") {
            Err(text)
        } else {
            Ok(text)
        }
    }
}

fn refine(n: &str, valid_until: Instant) -> Poll<Refine, ResolveError<()>> {
    Ok(Async::Ready(Refine { name: Name { text: n.to_string() }, valid_until }))
}

fn service(n: &str, port: u16) -> canonicalize::Service<&'static str, ByText> {
    let stack = canonicalize::layer("resolver").bind(ByText);
    match stack.make(&DstAddr { addr: Addr::Name(name(n, port)) }) {
        Ok(Either::A(service)) => service,
        _ => panic!("must look the name up"),
    }
}

#[test]
fn services_follow_canonical_names() {
    let now = Instant::now();
    let mut svc = service("web", 80);
    assert_eq!((svc.resolver, &svc.original_addr), ("resolver", &name("web", 80)));
    assert!(matches!(svc.state, State::Pending));
    assert!(svc.service().is_none());
    assert_eq!(svc.lookup::<()>(Ok(Async::NotReady)), Ok(Progress::Wait));
    assert_eq!(svc.lookup(refine("web.ns.svc", now)), Ok(Progress::StartTimer));
    assert_eq!(svc.service().map(|s| s.as_str()), Some("web.ns.svc:80"));
    assert!(matches!(svc.state, State::ValidUntil(Deadline::At(at)) if at == now));
    assert_eq!(svc.timer(false), Progress::Wait);
    assert_eq!(svc.timer(true), Progress::StartLookup);
    assert_eq!(svc.lookup(refine("web.other.svc", now)), Ok(Progress::StartTimer));
    assert_eq!(svc.service().map(|s| s.as_str()), Some("web.other.svc:80"));
}

#[test]
fn failed_lookups_keep_or_fall_back() {
    let now = Instant::now();
    let mut svc = service("web", 80);
    let err: Poll<Refine, ResolveError<()>> = Err(ResolveError::Other(()));
    assert_eq!(svc.lookup(err), Ok(Progress::StartTimer));
    assert_eq!(svc.service().map(|s| s.as_str()), Some("web:80"));
    match &svc.state {
        State::ValidUntil(Deadline::After(d)) => assert_eq!(*d, Duration::from_secs(5)),
        _ => panic!("must wait"),
    }
    svc.timer(true);
    svc.lookup(refine("web.ns", now)).unwrap();
    svc.timer(true);
    let err: Poll<Refine, ResolveError<()>> =
        Err(ResolveError::NoRecordsFound { valid_until: Some(now) });
    assert_eq!(svc.lookup(err), Ok(Progress::StartTimer));
    assert_eq!(svc.service().map(|s| s.as_str()), Some("web.ns:80"));
    assert!(matches!(svc.state, State::ValidUntil(Deadline::At(at)) if at == now));
}

#[test]
fn unbuildable_services_are_errors() {
    let mut svc = service("web", 1);
    assert_eq!(svc.lookup(refine("web.ns", Instant::now())), Err("web.ns:1".to_string()));
    assert!(matches!(svc.state, State::Pending));
    let err: Poll<Refine, ResolveError<()>> = Err(ResolveError::Other(()));
    assert_eq!(svc.lookup(err), Err("web:1".to_string()));
    let stack = canonicalize::layer("resolver").bind(ByText);
    match stack.make(&DstAddr { addr: Addr::Socket(v4("1.2.3.4", 80)) }) {
        Ok(Either::B(s)) => assert_eq!(s, "1.2.3.4:80"),
        _ => panic!("must be built at once"),
    }
}

#[test]
fn endpoints_are_equal_by_address() {
    let a = endpoint::Endpoint::new(v4("1.1.1.1", 1), metadata(ProtocolHint::Http2, None));
    let b = endpoint::Endpoint::from(v4("1.1.1.1", 1));
    assert!(a == b);
    assert!(a != endpoint::Endpoint::from(v4("1.1.1.1", 2)));
    assert!(a.can_use_orig_proto() && !b.can_use_orig_proto());
    assert_eq!(b.labels().len(), 0);
    assert_eq!(
        b.tls_identity(),
        Conditional::Absent(ReasonForNoIdentity::NotProvidedByServiceDiscovery)
    );
    let mut labels = IndexMap::new();
    labels.insert("k".to_string(), "v".to_string());
    let c = endpoint::Endpoint::new(
        a.address(),
        Metadata::new(labels, ProtocolHint::Unknown, Conditional::Present(Identity { name: "i".to_string() })),
    )
    .clone();
    assert_eq!(c.labels().get("k").map(|s| s.as_str()), Some("v"));
}
