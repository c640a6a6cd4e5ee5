use indexmap::IndexMap;
use linkerd2_proxy::addr::{Authority, IpAddr, SocketAddr};
use linkerd2_proxy::bind::{self, SetTlsMake};
use linkerd2_proxy::conditional::Conditional;
use linkerd2_proxy::ctx::{Host, Protocol, Proxy};
use linkerd2_proxy::endpoint::{Endpoint, Metadata, ProtocolHint};
use linkerd2_proxy::proxy::buffer::{self, BufferError};
use linkerd2_proxy::proxy::new_endpoint::{Binding, NewEndpoint};
use linkerd2_proxy::proxy::{normalize_uri, timeout};
use linkerd2_proxy::stack::either::Either;
use linkerd2_proxy::stack::layer::{and_then, and_when, Layer};
use linkerd2_proxy::stack::new_service::MakeNewService;
use linkerd2_proxy::stack::per_request::{self, Candidate};
use linkerd2_proxy::stack::{map_err, map_target, phantom_data, push, shared, Stack};
use linkerd2_proxy::svc::optional::Optional;
use linkerd2_proxy::svc::reconnect::{Level, Polled, Readiness, Reconnect};
use linkerd2_proxy::svc::valid::ValidMakeService;
use linkerd2_proxy::svc::Shared;
use linkerd2_proxy::time::Duration;
use linkerd2_proxy::tls::{Identity, ReasonForNoIdentity, ReasonForNoTls};
use std::cell::Cell;
use std::rc::Rc;
use std::sync::Arc;

/// Builds the double of its target, and refuses odd ones.
#[derive(Clone)]
struct Double;

impl Stack<u8> for Double {
    type Value = u16;
    type Error = String;

    fn accepts(&self, _: u8) -> bool {
        true
    }

    fn makes(&self, target: u8, r: Result<u16, String>) -> bool {
        self.make(&target) == r
    }

    fn make(&self, target: &u8) -> Result<u16, String> {
        if target % 2 == 1 {
            Err(format!("{} is odd", target))
        } else {
            Ok(u16::from(*target) * 2)
        }
    }
}

/// Counts what it builds.
#[derive(Clone)]
struct Counter(Rc<Cell<u32>>);

impl Stack<()> for Counter {
    type Value = u32;
    type Error = ();

    fn accepts(&self, _: ()) -> bool {
        true
    }

    fn makes(&self, _: (), r: Result<u32, ()>) -> bool {
        r.is_ok()
    }

    fn make(&self, _: &()) -> Result<u32, ()> {
        self.0.set(self.0.get() + 1);
        Ok(self.0.get())
    }
}

#[test]
fn errors_and_targets_are_mapped() {
    let stack = map_err::layer::<String, _>(|e: String| e.len()).bind(Double);
    assert_eq!(Stack::<u8>::make(&stack, &4), Ok(8));
    assert_eq!(Stack::<u8>::make(&stack, &5), Err(8));
    let stack = map_target::layer::<u16, _>(|t: &u16| (*t / 100) as u8).bind(Double);
    assert_eq!(Stack::<u16>::make(&stack, &200), Ok(4));
    let stack = push::<u8, u8, _, _>(Double, phantom_data::layer::<u8, Double>());
    assert_eq!(stack.make(&2), Ok(4));
    let stack = linkerd2_proxy::stack::map_err::<u8, _, _>(Double, |_: String| ());
    assert_eq!(Stack::<u8>::make(&stack, &3), Err(()));
}

#[test]
fn layers_compose_from_the_inside_out() {
    let both = and_then::<u8, u8, Double, _, _>(
        timeout::Layer::<u8, normalize_uri::Make<u8, Double>>::new(Duration::from_secs(2)),
        normalize_uri::Layer::<u8, Double>::new(),
    );
    let stack = Layer::<u8, u8, Double>::bind(&both, Double);
    let made = stack.make(&6).unwrap();
    assert_eq!(made.duration, Duration::from_secs(2));
    assert_eq!(made.inner.inner, 12);
    assert_eq!(stack.make(&7).unwrap_err(), "7 is odd");
}

#[test]
fn layers_apply_when_their_predicate_does() {
    let big = |t: &u8| *t > 10;
    let layer = and_when::<u8, _, Double, _, _>(
        phantom_data::layer::<u8, linkerd2_proxy::stack::when::Stack<_, Double, phantom_data::Layer<u8, Double>>>(),
        big,
        phantom_data::layer::<u8, Double>(),
    );
    let stack = Layer::<u8, u8, Double>::bind(&layer, Double);
    assert_eq!(stack.make(&4), Ok(Either::A(8)));
    assert_eq!(stack.make(&12), Ok(Either::B(24)));
    assert_eq!(stack.make(&13), Err("13 is odd".to_string()));
    let clone = linkerd2_proxy::stack::when::Layer::new(big, phantom_data::layer::<u8, Double>()).clone();
    let stack = Layer::<u8, u8, Double>::bind(&clone, Double).clone();
    assert_eq!(stack.make(&10), Ok(Either::A(20)));
}

#[test]
fn either_builds_what_it_holds() {
    let a: Either<Double, phantom_data::Stack<u8, Double>> = Either::A(Double);
    assert_eq!(a.make(&4), Ok(Either::A(8)));
    assert_eq!(a.make(&5), Err("5 is odd".to_string()));
    let b: Either<Double, phantom_data::Stack<u8, Double>> =
        Either::B(push::<u8, u8, _, _>(Double, phantom_data::layer::<u8, Double>()));
    assert_eq!(b.make(&4), Ok(Either::B(8)));
}

#[test]
fn shared_values_serve_all_targets() {
    let stack = shared::stack("value");
    assert_eq!(Stack::<u8>::make(&stack, &1).unwrap(), "value");
    assert_eq!(Stack::<bool>::make(&stack, &true).unwrap(), "value");
    assert_eq!(Stack::<u8>::make(&Shared::new(3), &1), Ok(3));
}

#[test]
fn optional_layers_may_be_left_out() {
    let none: Optional<Double, phantom_data::Layer<u8, Double>> = Optional::none();
    assert_eq!(Layer::<u8, u8, Double>::bind(&none, Double).make(&2), Ok(Either::A(4)));
    let some = Optional::some(phantom_data::layer::<u8, Double>());
    assert_eq!(Layer::<u8, u8, Double>::bind(&some, Double).make(&2), Ok(Either::B(4)));
    let made = Cell::new(0);
    let mk = || {
        made.set(made.get() + 1);
        phantom_data::layer::<u8, Double>()
    };
    let no: Optional<Double, _> = Optional::when(false, mk);
    assert!(no.layer.is_none());
    assert_eq!(made.get(), 0);
    let yes: Optional<Double, _> = Optional::when(true, mk);
    assert!(yes.layer.is_some());
    assert_eq!(made.get(), 1);
    let from: Optional<Double, u8> = Optional::from(Some(7));
    assert_eq!(from.layer, Some(7));
}

#[test]
fn each_request_is_served_by_its_own_service() {
    let built = Rc::new(Cell::new(0));
    let make = Layer::<(), (), Counter>::bind(&per_request::Layer, Counter(built.clone()));
    let mut service = match make.make(&()) {
        Ok(service) => service,
        Err(()) => panic!("must be built"),
    };
    // One is built ahead of time.
    assert_eq!(built.get(), 1);
    assert!(matches!(service.start_poll(), Candidate::Bound));
    assert_eq!(service.take(), 1);
    assert_eq!(service.take(), 2);
    match service.start_poll() {
        Candidate::Fresh(v) => {
            assert_eq!(v, 3);
            service.finish_poll(v, true);
        }
        Candidate::Bound => panic!("nothing is bound"),
    }
    assert!(service.next.is_none());
    match service.start_poll() {
        Candidate::Fresh(v) => service.finish_poll(v, false),
        Candidate::Bound => panic!("nothing is bound"),
    }
    assert_eq!(service.next, Some(4));
    assert_eq!(service.take(), 4);
    assert!(service.next.is_none());
}

#[test]
fn good_targets_are_kept() {
    let (first, valid) = match ValidMakeService::try_new(&Double, &8u8) {
        Ok(made) => made,
        Err(_) => panic!("must be valid"),
    };
    assert_eq!((first, *valid.target(), valid.make_service()), (16, 8, 16));
    assert!(ValidMakeService::try_new(&Double, &9u8).is_err());
    assert_eq!(MakeNewService::new(Double, 3u8).new_service(), Err("3 is odd".to_string()));
}

#[test]
fn connect_errors_warn_once() {
    let mut service = Reconnect { inner: Double }.make_service(&6u8);
    assert_eq!(service.new_service.new_service(), Ok(12));
    let levels: Vec<Option<Level>> = vec![
        Polled::Connect("a"),
        Polled::NotReady,
        Polled::Connect("b"),
        Polled::Ready,
        Polled::Connect("c"),
        Polled::Inner("d"),
        Polled::Connect("e"),
    ]
    .into_iter()
    .map(|polled| match service.poll_ready(polled) {
        Readiness::Retry { level, .. } => Some(level),
        Readiness::Failed(err) => {
            assert_eq!(err, "d");
            None
        }
        _ => None,
    })
    .collect();
    assert_eq!(
        levels,
        vec![
            Some(Level::Warn),
            None,
            Some(Level::Debug),
            None,
            Some(Level::Warn),
            None,
            Some(Level::Warn)
        ]
    );
}

#[test]
fn buffers_are_spawned_for_services() {
    let make = buffer::Layer::<u8, Double>::new().bind(Double);
    let spawn = |v: u16, t: &u8| if *t < 10 { Ok((v, *t)) } else { Err("full") };
    assert!(matches!(make.make(&4, &spawn), Ok((8, 4))));
    assert!(matches!(make.make(&12, &spawn), Err(BufferError::Spawn("full"))));
    match make.make(&5, &spawn) {
        Err(BufferError::Make(e)) => assert_eq!(e, "5 is odd"),
        _ => panic!("must fail"),
    }
}

fn endpoint(identity: Option<&str>, protocol_hint: ProtocolHint) -> Endpoint {
    let mut labels = IndexMap::new();
    labels.insert("pod".to_string(), "p1".to_string());
    let tls_identity = match identity {
        Some(name) => Conditional::Present(Identity { name: name.to_string() }),
        None => Conditional::Absent(ReasonForNoIdentity::NotProvidedByServiceDiscovery),
    };
    Endpoint::new(addr(), Metadata::new(labels, protocol_hint, tls_identity))
}

fn addr() -> SocketAddr {
    SocketAddr { ip: IpAddr::V4("10.1.2.3".to_string()), port: 80 }
}

fn http1(host: Host, is_h1_upgrade: bool, was_absolute_form: bool) -> Protocol {
    Protocol::Http1 { host, is_h1_upgrade, was_absolute_form }
}

fn host() -> Host {
    Host::Authority(Authority { text: "example.com".to_string() })
}

#[test]
fn upgrades_are_not_sent_over_http2() {
    let new_endpoint = NewEndpoint::new(Proxy::Outbound);
    let peer = endpoint(None, ProtocolHint::Http2);
    let bound = new_endpoint.bind_service(&peer, &http1(Host::NoAuthority, false, false));
    assert_eq!((bound.binding, bound.protocol), (Binding::Bound, Protocol::Http2));
    let upgrade = http1(Host::NoAuthority, true, false);
    let bound = new_endpoint.bind_service(&peer, &upgrade);
    assert_eq!((bound.binding, bound.protocol), (Binding::BindsPerRequest, upgrade));
    let other = endpoint(None, ProtocolHint::Unknown);
    let bound = new_endpoint.bind_service(&other, &http1(host(), false, true));
    assert_eq!(bound.binding, Binding::Bound);
    assert!(bound.protocol.was_absolute_form());
    assert_eq!(bound.endpoint.metadata.labels.get("pod").unwrap(), "p1");
    assert!(!bound.debounce_connect_error_log);
}

#[test]
fn clients_use_tls_where_they_can() {
    let new_endpoint = NewEndpoint::new(Proxy::Inbound);
    let config = Conditional::Present("config");
    let client =
        new_endpoint.new_client(&endpoint(Some("id"), ProtocolHint::Unknown), &Protocol::Http2, &config);
    match client.connect.tls {
        Conditional::Present(tls) => {
            assert_eq!((tls.server_identity.name.as_str(), tls.config), ("id", "config"));
        }
        Conditional::Absent(_) => panic!("must use TLS"),
    }
    assert_eq!(client.ctx.tls_status, Conditional::Present(()));
    assert_eq!((client.ctx.proxy, client.connect.addr), (Proxy::Inbound, addr()));
    assert!(client.upgrade_orig_proto && !client.was_absolute_form);

    let absent: Conditional<&str, ReasonForNoTls> = Conditional::Absent(ReasonForNoTls::Disabled);
    let client = new_endpoint.new_client(
        &endpoint(Some("id"), ProtocolHint::Unknown),
        &http1(host(), false, true),
        &absent,
    );
    assert_eq!(client.connect.tls, Conditional::Absent(ReasonForNoTls::Disabled));
    assert!(!client.upgrade_orig_proto && client.was_absolute_form);

    let no_identity =
        ReasonForNoTls::NoIdentity(ReasonForNoIdentity::NotProvidedByServiceDiscovery);
    let client =
        new_endpoint.new_client(&endpoint(None, ProtocolHint::Unknown), &Protocol::Http2, &absent);
    assert_eq!(client.connect.tls, Conditional::Absent(no_identity));
    assert_eq!(client.ctx.tls_status, Conditional::Absent(no_identity));
}

/// Hands back the TLS status of endpoints.
#[derive(Clone)]
struct TlsStatus;

impl Stack<bind::Endpoint<u8>> for TlsStatus {
    type Value = Option<u8>;
    type Error = ();

    fn accepts(&self, _: bind::Endpoint<u8>) -> bool {
        true
    }

    fn makes(&self, _: bind::Endpoint<u8>, _: Result<Option<u8>, ()>) -> bool {
        true
    }

    fn make(&self, ep: &bind::Endpoint<u8>) -> Result<Option<u8>, ()> {
        assert_eq!(ep.address, addr());
        match &ep.tls_status {
            Conditional::Present(tls) => Ok(Some(tls.config)),
            Conditional::Absent(_) => Ok(None),
        }
    }
}

#[test]
fn stacks_are_rebuilt_for_new_tls_configurations() {
    let make = SetTlsMake {
        endpoint: bind::Endpoint {
            proxy: Proxy::Outbound,
            address: addr(),
            labels: Arc::new(IndexMap::new()),
            tls_identity: Conditional::Present(Identity { name: "id".to_string() }),
            tls_status: Conditional::Absent(ReasonForNoTls::NoConfig),
        },
        inner: TlsStatus,
    };
    assert_eq!(make.make(&Conditional::Present(4)), Ok(Some(4)));
    assert_eq!(make.make(&Conditional::Absent(ReasonForNoTls::Disabled)), Ok(None));
}
