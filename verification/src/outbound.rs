//! Recognizes where outbound requests go.
use crate::addr::{Authority, Host, HostAndPort, NameAddr, SocketAddr};
use crate::conditional::Conditional;
use crate::endpoint::{Metadata, ProtocolHint};
use crate::message::{Extensions, Request};
use crate::poll::{Async, Poll};
use crate::proxy::client::Config;
use crate::proxy::h1;
use crate::proxy::resolve::{self, Change, Update};
use crate::proxy::settings::Settings;
use crate::stack::Stack;
use crate::tls::{reason_for_no_tls, ReasonForNoIdentity, ReasonForNoTls};
use crate::transport::Target;
use std::marker::PhantomData;
use vstd::prelude::*;

verus! {

/// The port of an authority that names none.
pub const DEFAULT_PORT: u16 = 80;

/// Recognizes outbound requests.
#[derive(Clone, Copy, Debug, Default)]
pub struct Recognize {}

/// Where an outbound request goes, and how.
#[derive(Debug, PartialEq, Eq)]
pub struct Destination {
    pub name_or_addr: NameOrAddr,
    pub settings: Settings,
}

/// An endpoint of a destination.
#[derive(Debug)]
pub struct Endpoint<C> {
    pub connect: Target<C>,
    pub settings: Settings,
    pub metadata: Metadata,
}

/// Describes a destination for HTTP requests.
#[derive(Debug, PartialEq, Eq, Hash)]
pub enum NameOrAddr {
    /// A logical, lazily-bound endpoint.
    Name(NameAddr),
    /// A single, bound endpoint.
    Addr(SocketAddr),
}

/// Whether `r` may be the host and port that `normalize` makes of the `Host` header, if there is
/// an authority in it.
pub open spec fn is_host_from_header<F: Fn(&Authority, Option<u16>) -> Option<HostAndPort>>(
    normalize: F,
    host: Option<Seq<char>>,
    r: Option<HostAndPort>,
) -> bool {
    match host {
        None => r is None,
        Some(text) => exists|a: Authority| #[trigger]
            is_text_of(a, text) && call_ensures(normalize, (&a, Some(DEFAULT_PORT)), r),
    }
}

/// Whether an authority has the given text.
pub open spec fn is_text_of(a: Authority, text: Seq<char>) -> bool {
    a.text@ == text
}

/// Whether `r` may be the logical host:port of a request.
///
/// If the URI includes an authority that can be normalized, it is that. Otherwise, it is the
/// authority from the `Host` header.
pub open spec fn is_host_port<B, F: Fn(&Authority, Option<u16>) -> Option<HostAndPort>>(
    normalize: F,
    req: Request<B>,
    r: Option<HostAndPort>,
) -> bool {
    match req.uri.authority {
        Some(a) => {
            ||| r is Some && call_ensures(normalize, (&a, Some(DEFAULT_PORT)), r)
            ||| call_ensures(normalize, (&a, Some(DEFAULT_PORT)), None::<HostAndPort>)
                && is_host_from_header(
                normalize,
                crate::proxy::h1::host_authority(req.headers),
                r,
            )
        },
        None => is_host_from_header(
            normalize,
            crate::proxy::h1::host_authority(req.headers),
            r,
        ),
    }
}

/// The destination of a request with a given host and port.
///
/// If the authority addresses a DNS name, it is that name; and, otherwise, it addresses a fixed
/// IP address. If no authority is available, it is the original destination of the connection,
/// unless that is this proxy itself.
pub open spec fn destination_for(
    host_port: Option<HostAndPort>,
    extensions: Extensions,
) -> Option<NameOrAddr> {
    match host_port {
        Some(HostAndPort { host: Host::DnsName(name), port }) => Some(
            NameOrAddr::Name(NameAddr { name, port }),
        ),
        Some(HostAndPort { host: Host::Ip(ip), port }) => Some(
            NameOrAddr::Addr(SocketAddr { ip, port }),
        ),
        None => match extensions.source {
            Some(source) => match source.spec_orig_dst_if_not_local() {
                Some(addr) => Some(NameOrAddr::Addr(addr)),
                None => None,
            },
            None => None,
        },
    }
}

/// Whether `r` may be the destination of a request.
pub open spec fn is_destination<B, F: Fn(&Authority, Option<u16>) -> Option<HostAndPort>>(
    normalize: F,
    req: Request<B>,
    r: Option<NameOrAddr>,
) -> bool {
    exists|host_port: Option<HostAndPort>| #[trigger]
        is_host_port(normalize, req, host_port) && r == destination_for(host_port, req.extensions)
}

impl Recognize {
    /// Recognizes outbound requests.
    pub fn new() -> (r: Self)
        ensures
            r == (Recognize {  }),
    {
        Recognize {  }
    }

    fn host_from_header<B, F: Fn(&Authority, Option<u16>) -> Option<HostAndPort>>(
        req: &Request<B>,
        normalize: &F,
    ) -> (r: Option<HostAndPort>)
        requires
            forall|a: Authority| #[trigger] call_requires(*normalize, (&a, Some(DEFAULT_PORT))),
        ensures
            is_host_from_header(
                *normalize,
                crate::proxy::h1::host_authority(req.headers),
                r,
            ),
    {
        match h1::authority_from_host(req) {
            Some(authority) => {
                assert(is_text_of(authority, authority.text@));
                normalize(&authority, Some(DEFAULT_PORT))
            },
            None => None,
        }
    }

    /// Determines the logical host:port of the request.
    ///
    /// If the parsed URI includes an authority, use that. Otherwise, try to load the
    /// authority from the `Host` header.
    ///
    /// The port is either parsed from the authority or a default of 80 is used.
    pub fn host_port<B, F: Fn(&Authority, Option<u16>) -> Option<HostAndPort>>(
        req: &Request<B>,
        normalize: &F,
    ) -> (r: Option<HostAndPort>)
        requires
            forall|a: Authority| #[trigger] call_requires(*normalize, (&a, Some(DEFAULT_PORT))),
        ensures
            is_host_port(*normalize, *req, r),
    {
        if let Some(authority) = &req.uri.authority {
            let r = normalize(authority, Some(DEFAULT_PORT));
            if r.is_some() {
                return r;
            }
        }
        Self::host_from_header(req, normalize)
    }

    /// The destination of a request with a given host and port.
    pub fn with_host_port<B>(req: &Request<B>, host_port: Option<HostAndPort>) -> (r: Option<
        NameOrAddr,
    >)
        ensures
            r == destination_for(host_port, req.extensions),
    {
        match host_port {
            Some(HostAndPort { host: Host::DnsName(name), port }) => Some(
                NameOrAddr::Name(NameAddr { name, port }),
            ),
            Some(HostAndPort { host: Host::Ip(ip), port }) => Some(
                NameOrAddr::Addr(SocketAddr { ip, port }),
            ),
            None => match &req.extensions.source {
                Some(source) => match source.orig_dst_if_not_local() {
                    Some(addr) => Some(NameOrAddr::Addr(addr)),
                    None => None,
                },
                None => None,
            },
        }
    }

    /// Determines the destination for a request.
    ///
    /// Typically, a request's authority is used to produce a `NameOrAddr`. If the
    /// authority addresses a DNS name, a `NameOrAddr::Name` is returned; and, otherwise,
    /// it addresses a fixed IP address and a `NameOrAddr::Addr` is returned. The port is
    /// inferred if not specified in the authority.
    ///
    /// If no authority is available, the `SO_ORIGINAL_DST` socket option is checked. If
    /// it's available, it is used to return a `NameOrAddr::Addr`. This socket option is
    /// typically set by `iptables(8)` in containerized environments like Kubernetes (as
    /// configured by the `proxy-init` program).
    ///
    /// If none of this information is available, no `NameOrAddr` is returned.
    pub fn name_or_addr<B, F: Fn(&Authority, Option<u16>) -> Option<HostAndPort>>(
        req: &Request<B>,
        normalize: &F,
    ) -> (r: Option<NameOrAddr>)
        requires
            forall|a: Authority| #[trigger] call_requires(*normalize, (&a, Some(DEFAULT_PORT))),
        ensures
            is_destination(*normalize, *req, r),
    {
        let host_port = Self::host_port(req, normalize);
        Self::with_host_port(req, host_port)
    }

    /// Recognizes a request.
    ///
    /// Routes the request by its destination AND PROTOCOL. This prevents HTTP/1
    /// requests from being routed to HTTP/2 servers, and vice versa.
    pub fn recognize<B, F: Fn(&Authority, Option<u16>) -> Option<HostAndPort>>(
        &self,
        req: &Request<B>,
        normalize: &F,
    ) -> (r: Option<Destination>)
        requires
            req.uri.wf(),
            forall|a: Authority| #[trigger] call_requires(*normalize, (&a, Some(DEFAULT_PORT))),
        ensures
            match r {
                Some(dst) => is_destination(*normalize, *req, Some(dst.name_or_addr))
                    && dst.settings.suit(*req),
                None => is_destination(*normalize, *req, None),
            },
    {
        match Self::name_or_addr(req, normalize) {
            Some(name_or_addr) => Some(
                Destination { name_or_addr, settings: Settings::detect(req) },
            ),
            None => None,
        }
    }
}

impl Destination {
    /// Writes the destination.
    pub fn to_text(&self) -> (s: String)
        ensures
            s@ == match self.name_or_addr {
                NameOrAddr::Name(name) => name.text(),
                NameOrAddr::Addr(addr) => addr.text(),
            },
    {
        match &self.name_or_addr {
            NameOrAddr::Name(name) => name.to_text(),
            NameOrAddr::Addr(addr) => addr.to_text(),
        }
    }
}

/// Resolves names with `R`, and addresses by themselves.
#[derive(Debug)]
pub struct Resolve<R, C> {
    pub inner: R,
    pub _p: PhantomData<C>,
}

/// The resolution of a destination: updates about a name, or a single address that is yet to
/// be reported.
#[derive(Debug)]
pub enum Resolution<R, C> {
    Name(R, Settings),
    Addr(Option<SocketAddr>, Settings, PhantomData<C>),
}

impl<R, C> Resolve<R, C> {
    /// Resolves names with `resolve`.
    pub fn new(resolve: R) -> (r: Self)
        ensures
            r.inner == resolve,
    {
        Resolve { inner: resolve, _p: PhantomData }
    }
}

impl<R: resolve::Resolve<NameAddr, Endpoint = Metadata>, C> resolve::Resolve<
    Destination,
> for Resolve<R, C> {
    type Endpoint = Endpoint<C>;

    type Resolution = Resolution<R::Resolution, C>;

    open spec fn resolves(&self, target: Destination, r: Self::Resolution) -> bool {
        match target.name_or_addr {
            NameOrAddr::Name(name) => {
                &&& r matches Resolution::Name(res, settings)
                &&& self.inner.resolves(name, res)
                &&& settings == target.settings
            },
            NameOrAddr::Addr(addr) => {
                &&& r matches Resolution::Addr(a, settings, _)
                &&& a == Some(addr)
                &&& settings == target.settings
            },
        }
    }

    fn resolve(&self, dst: &Destination) -> (r: Self::Resolution) {
        match &dst.name_or_addr {
            NameOrAddr::Name(name) => Resolution::Name(
                self.inner.resolve(name),
                dst.settings.clone(),
            ),
            NameOrAddr::Addr(addr) => Resolution::Addr(
                Some(addr.clone()),
                dst.settings.clone(),
                PhantomData,
            ),
        }
    }
}

/// Whether `ep` is an endpoint at `addr`, with the reason why it is not connected to over TLS.
pub open spec fn is_endpoint<C>(
    addr: SocketAddr,
    reason: ReasonForNoTls,
    settings: Settings,
    ep: Endpoint<C>,
) -> bool {
    &&& ep.connect.addr == addr
    &&& ep.connect.tls == Conditional::<
        crate::tls::ConnectionConfig<C>,
        ReasonForNoTls,
    >::Absent(reason)
    &&& ep.settings == settings
}

/// Whether `r` is what the resolution of a name makes of `polled`.
pub open spec fn is_named_update<E, C>(
    settings: Settings,
    polled: Poll<Update<Metadata>, E>,
    r: Poll<Update<Endpoint<C>>, E>,
) -> bool {
    match polled {
        Err(e) => r matches Err(err) && err == e,
        Ok(Async::NotReady) => r matches Ok(Async::NotReady),
        Ok(Async::Ready(Change::Remove(addr))) => r matches Ok(Async::Ready(Change::Remove(a)))
            && a == addr,
        Ok(Async::Ready(Change::Insert(addr, metadata))) => {
            &&& r matches Ok(Async::Ready(Change::Insert(a, ep)))
            &&& a == addr
            &&& is_endpoint(
                addr,
                crate::tls::initial_reason(metadata.tls_identity),
                settings,
                ep,
            )
            &&& ep.metadata == metadata
        },
    }
}

/// Whether polling the resolution of a name may give `r`, and take what it polls from `pre` to
/// `post`.
pub open spec fn polls_name<R: resolve::Resolution<Endpoint = Metadata>, C>(
    settings: Settings,
    pre: R,
    r: Poll<Update<Endpoint<C>>, R::Error>,
    post: R,
) -> bool {
    exists|polled: Poll<Update<Metadata>, R::Error>| #[trigger]
        pre.polls(polled, post) && is_named_update(settings, polled, r)
}

impl<R: resolve::Resolution<Endpoint = Metadata>, C> resolve::Resolution for Resolution<R, C> {
    type Endpoint = Endpoint<C>;

    type Error = R::Error;

    open spec fn polls(self, r: Poll<Update<Endpoint<C>>, R::Error>, post: Self) -> bool {
        match self {
            Resolution::Name(res, settings) => {
                &&& post matches Resolution::Name(post_res, s)
                &&& s == settings
                &&& polls_name(settings, res, r, post_res)
            },
            Resolution::Addr(Some(addr), settings, _) => {
                &&& post matches Resolution::Addr(None, s, _)
                &&& s == settings
                &&& r matches Ok(Async::Ready(Change::Insert(a, ep)))
                &&& a == addr
                &&& is_endpoint(
                    addr,
                    ReasonForNoTls::NoIdentity(ReasonForNoIdentity::NoAuthorityInHttpRequest),
                    settings,
                    ep,
                )
                &&& ep.metadata.is_none(ReasonForNoIdentity::NoAuthorityInHttpRequest)
            },
            Resolution::Addr(None, _, _) => post == self && r matches Ok(Async::NotReady),
        }
    }

    fn poll(&mut self) -> (r: Poll<Update<Endpoint<C>>, R::Error>) {
        match self {
            Resolution::Name(res, settings) => {
                let ghost before = *res;
                let polled = res.poll();
                let ghost witness = polled;
                assert(before.polls(witness, *res));
                let r: Poll<Update<Endpoint<C>>, R::Error> = match polled {
                    Err(e) => Err(e),
                    Ok(Async::NotReady) => Ok(Async::NotReady),
                    Ok(Async::Ready(Change::Remove(addr))) => Ok(
                        Async::Ready(Change::Remove(addr)),
                    ),
                    Ok(Async::Ready(Change::Insert(addr, metadata))) => {
                        let tls = reason_for_no_tls(&metadata.tls_identity);
                        let ep = Endpoint {
                            connect: Target::new(addr.clone(), Conditional::Absent(tls)),
                            settings: settings.clone(),
                            metadata,
                        };
                        Ok(Async::Ready(Change::Insert(addr, ep)))
                    },
                };
                assert(is_named_update(*settings, witness, r));
                assert(polls_name(*settings, before, r, *res));
                r
            },
            Resolution::Addr(addr, settings, _) => match addr.take() {
                Some(addr) => {
                    let reason = ReasonForNoIdentity::NoAuthorityInHttpRequest;
                    let ep = Endpoint {
                        connect: Target::new(
                            addr.clone(),
                            Conditional::Absent(ReasonForNoTls::NoIdentity(reason)),
                        ),
                        settings: settings.clone(),
                        metadata: Metadata::none(reason),
                    };
                    Ok(Async::Ready(Change::Insert(addr, ep)))
                },
                None => Ok(Async::NotReady),
            },
        }
    }
}

impl<C> Endpoint<C> {
    /// Whether the endpoint is another instance of this proxy, to which HTTP/1 can be sent
    /// over HTTP/2.
    pub fn can_use_orig_proto(&self) -> (r: bool)
        ensures
            r == (self.metadata.protocol_hint is Http2),
    {
        match self.metadata.protocol_hint() {
            ProtocolHint::Unknown => false,
            ProtocolHint::Http2 => true,
        }
    }

    /// Writes the address of the endpoint.
    pub fn to_text(&self) -> (s: String)
        ensures
            s@ == self.connect.addr.text(),
    {
        self.connect.addr.to_text()
    }
}

/// Builds clients for endpoints.
#[derive(Debug)]
pub struct Client<M> {
    pub inner: M,
}

impl<M> Client<M> {
    /// Whether a client for `endpoint` may be configured with `config`.
    pub open spec fn configures<C: Clone>(endpoint: Endpoint<C>, config: Config<C>) -> bool {
        endpoint.connect.is_copied(config.target) && config.settings == endpoint.settings
    }
}

impl<C: Clone, M: Stack<Config<C>>> Stack<Endpoint<C>> for Client<M> {
    type Value = M::Value;

    type Error = M::Error;

    open spec fn accepts(&self, endpoint: Endpoint<C>) -> bool {
        forall|config: Config<C>| #[trigger]
            Self::configures(endpoint, config) ==> self.inner.accepts(config)
    }

    open spec fn makes(&self, endpoint: Endpoint<C>, r: Result<M::Value, M::Error>) -> bool {
        exists|config: Config<C>| #[trigger]
            Self::configures(endpoint, config) && self.inner.makes(config, r)
    }

    fn make(&self, ep: &Endpoint<C>) -> (r: Result<M::Value, M::Error>) {
        let config = Config::new(ep.connect.clone(), ep.settings.clone());
        assert(Self::configures(*ep, config));
        self.inner.make(&config)
    }
}

/// Where a host and port is found for a request, its destination has exactly that host and that
/// port, wherever the request was headed originally.
pub proof fn host_and_port_are_kept<B>(req: Request<B>, hp: HostAndPort, r: Option<NameOrAddr>)
    requires
        call_ensures(Recognize::with_host_port::<B>, (&req, Some(hp)), r),
    ensures
        hp.host matches Host::DnsName(host) ==> (r matches Some(NameOrAddr::Name(dst)) && dst.name
            == host && dst.port == hp.port),
        hp.host matches Host::Ip(host) ==> (r matches Some(NameOrAddr::Addr(dst)) && dst.ip == host
            && dst.port == hp.port),
{
}

/// Two requests for which different ports are found have different destinations, and so have
/// two for which different hosts are found.
pub proof fn ports_and_hosts_tell_destinations_apart<A, B>(
    a: Request<A>,
    b: Request<B>,
    hp: HostAndPort,
    hq: HostAndPort,
    r: Option<NameOrAddr>,
    s: Option<NameOrAddr>,
)
    requires
        call_ensures(Recognize::with_host_port::<A>, (&a, Some(hp)), r),
        call_ensures(Recognize::with_host_port::<B>, (&b, Some(hq)), s),
    ensures
        r == s <==> hp == hq,
{
}

/// A request for which no host is found goes where its connection was headed, unless that is
/// the local end of it. Where that is not known, the request has no destination.
pub proof fn original_destination_is_the_last_resort<B>(req: Request<B>, r: Option<NameOrAddr>)
    requires
        call_ensures(Recognize::with_host_port::<B>, (&req, None), r),
    ensures
        !(r matches Some(NameOrAddr::Name(_))),
        r matches Some(NameOrAddr::Addr(dst)) ==> (req.extensions.source matches Some(source)
            && source.orig_dst == Some(dst) && dst != source.local),
        req.extensions.source is None ==> r is None,
        req.extensions.source matches Some(source) ==> source.orig_dst is None ==> r is None,
        req.extensions.source matches Some(source) ==> source.orig_dst matches Some(dst) ==> (
        dst.port != source.local.port || dst.ip.text() != source.local.ip.text()) ==> r == Some(
            NameOrAddr::Addr(dst),
        ),
{
}

/// The authority in the URI of a request goes before the `Host` header, and a port is assumed
/// only where the authority names none: then it is 80.
pub proof fn uri_goes_before_host_header<
    B,
    F: Fn(&Authority, Option<u16>) -> Option<HostAndPort>,
>(req: Request<B>, normalize: F, a: Authority, hp: HostAndPort, r: Option<HostAndPort>)
    requires
        call_ensures(Recognize::host_port::<B, F>, (&req, &normalize), r),
        req.uri.authority == Some(a),
        forall|x: Option<HostAndPort>|
            call_ensures(normalize, (&a, Some(80u16)), x) ==> x == Some(hp),
    ensures
        r == Some(hp),
{
}

/// Without an authority in its URI, a request has the host that its `Host` header names. Without
/// either, or if neither can be read, it has none.
pub proof fn host_header_comes_second<
    B,
    F: Fn(&Authority, Option<u16>) -> Option<HostAndPort>,
>(req: Request<B>, normalize: F, r: Option<HostAndPort>)
    requires
        call_ensures(Recognize::host_port::<B, F>, (&req, &normalize), r),
        req.uri.authority matches Some(a) ==> forall|x: Option<HostAndPort>|
            call_ensures(normalize, (&a, Some(80u16)), x) ==> x is None,
    ensures
        !crate::message::headers::header_values(req.headers).contains_key("host"@) ==> r is None,
        r matches Some(hp) ==> exists|a: Authority|
            {
                &&& crate::addr::parses_as_authority(a.text@)
                &&& crate::message::headers::header_values(req.headers).contains_key("host"@)
                &&& a.text@ == crate::text::ascii_chars(
                    crate::message::headers::header_values(req.headers)["host"@][0],
                )
                &&& #[trigger] call_ensures(normalize, (&a, Some(80u16)), Some(hp))
            },
{
}

/// The destination of a request whose URI names an authority is the host and port that the
/// authority is read as, and requests over HTTP/2 are told from others.
pub proof fn requests_go_to_their_authority<
    B,
    F: Fn(&Authority, Option<u16>) -> Option<HostAndPort>,
>(
    recognize: Recognize,
    req: Request<B>,
    normalize: F,
    a: Authority,
    hp: HostAndPort,
    r: Option<Destination>,
)
    requires
        call_ensures(Recognize::recognize::<B, F>, (&recognize, &req, &normalize), r),
        req.uri.authority == Some(a),
        forall|x: Option<HostAndPort>|
            call_ensures(normalize, (&a, Some(80u16)), x) ==> x == Some(hp),
    ensures
        r matches Some(dst) && match dst.name_or_addr {
            NameOrAddr::Name(name) => hp.host == Host::DnsName(name.name) && name.port == hp.port,
            NameOrAddr::Addr(addr) => hp.host == Host::Ip(addr.ip) && addr.port == hp.port,
        },
        r matches Some(dst) ==> (dst.settings is Http2 <==> req.version
            == crate::message::Version::Http2),
{
}

/// A destination is written as the name or address that it has, with its port.
pub proof fn destinations_are_written_with_their_port(dst: Destination, s: String)
    requires
        call_ensures(Destination::to_text, (&dst,), s),
    ensures
        dst.name_or_addr matches NameOrAddr::Name(n) ==> s@ == n.name@ + seq![':']
            + crate::text::decimal(n.port as nat),
        dst.name_or_addr matches NameOrAddr::Addr(
            SocketAddr { ip: crate::addr::IpAddr::V4(ip), port },
        ) ==> s@ == ip@ + seq![':'] + crate::text::decimal(port as nat),
        dst.name_or_addr matches NameOrAddr::Addr(
            SocketAddr { ip: crate::addr::IpAddr::V6(ip), port },
        ) ==> s@ == seq!['['] + ip@ + seq![']', ':'] + crate::text::decimal(port as nat),
{
    reveal_strlit(":");
    reveal_strlit("[");
    reveal_strlit("]:");
    assert(":"@ =~= seq![':']);
    assert("["@ =~= seq!['[']);
    assert("]:"@ =~= seq![']', ':']);
}

/// What is resolved is what the destination names: a name is resolved as it is, port included,
/// and an address is its own and only endpoint. The settings of the destination are kept.
pub proof fn destinations_are_resolved_as_named<
    R: resolve::Resolve<NameAddr, Endpoint = Metadata>,
    C,
>(resolve: Resolve<R, C>, dst: Destination, r: Resolution<R::Resolution, C>)
    requires
        call_ensures(
            <Resolve<R, C> as resolve::Resolve<Destination>>::resolve,
            (&resolve, &dst),
            r,
        ),
    ensures
        match r {
            Resolution::Name(res, settings) => dst.settings == settings && exists|name: NameAddr|
                dst.name_or_addr == NameOrAddr::Name(name) && #[trigger] resolve.inner.resolves(
                    name,
                    res,
                ),
            Resolution::Addr(addr, settings, _) => dst.settings == settings && addr is Some
                && dst.name_or_addr == NameOrAddr::Addr(addr->0),
        },
{
}

/// An endpoint that the resolution of a name announces is at the address that was found, with
/// the metadata that was found, and is not connected to over TLS for the reason that it has no
/// identity, or that there is no configuration yet. Removals, errors and waiting are handed on.
pub proof fn named_endpoints_are_as_found<R: resolve::Resolution<Endpoint = Metadata>, C>(
    res: R,
    settings: Settings,
    r: Poll<Update<Endpoint<C>>, R::Error>,
    post: Resolution<R, C>,
)
    requires
        resolve::Resolution::polls(Resolution::<R, C>::Name(res, settings), r, post),
    ensures
        post matches Resolution::Name(_, s) && s == settings,
        exists|polled: Poll<Update<Metadata>, R::Error>| #[trigger]
            res.polls(polled, post->Name_0) && match (polled, r) {
                (Err(e), Err(f)) => e == f,
                (Ok(Async::NotReady), Ok(Async::NotReady)) => true,
                (
                    Ok(Async::Ready(Change::Remove(a))),
                    Ok(Async::Ready(Change::Remove(b))),
                ) => a == b,
                (
                    Ok(Async::Ready(Change::Insert(a, metadata))),
                    Ok(Async::Ready(Change::Insert(b, ep))),
                ) => {
                    &&& a == b
                    &&& ep.connect.addr == a
                    &&& ep.metadata == metadata
                    &&& ep.settings == settings
                    &&& match metadata.tls_identity {
                        Conditional::Absent(reason) => ep.connect.tls == Conditional::<
                            crate::tls::ConnectionConfig<C>,
                            ReasonForNoTls,
                        >::Absent(ReasonForNoTls::NoIdentity(reason)),
                        Conditional::Present(_) => ep.connect.tls == Conditional::<
                            crate::tls::ConnectionConfig<C>,
                            ReasonForNoTls,
                        >::Absent(ReasonForNoTls::NoConfig),
                    }
                },
                _ => false,
            },
{
}

/// The endpoint of an address is at that address, and is announced once. Nothing is known of it:
/// it has no labels and no identity, since no authority named it, and it is not taken for another
/// proxy. After that there is nothing more to come.
pub proof fn nothing_is_known_of_addresses<R: resolve::Resolution<Endpoint = Metadata>, C>(
    addr: SocketAddr,
    settings: Settings,
    p: PhantomData<C>,
    r: Poll<Update<Endpoint<C>>, R::Error>,
    post: Resolution<R, C>,
    s: Poll<Update<Endpoint<C>>, R::Error>,
    last: Resolution<R, C>,
)
    requires
        resolve::Resolution::polls(Resolution::<R, C>::Addr(Some(addr), settings, p), r, post),
        resolve::Resolution::polls(post, s, last),
    ensures
        r matches Ok(Async::Ready(Change::Insert(a, ep))) && {
            &&& a == addr
            &&& ep.connect.addr == addr
            &&& ep.settings == settings
            &&& ep.metadata.protocol_hint is Unknown
            &&& crate::labels::label_values(ep.metadata.labels) == Map::<
                Seq<char>,
                Seq<char>,
            >::empty()
            &&& ep.metadata.tls_identity == Conditional::<
                crate::tls::Identity,
                ReasonForNoIdentity,
            >::Absent(ReasonForNoIdentity::NoAuthorityInHttpRequest)
            &&& ep.connect.tls == Conditional::<
                crate::tls::ConnectionConfig<C>,
                ReasonForNoTls,
            >::Absent(ReasonForNoTls::NoIdentity(ReasonForNoIdentity::NoAuthorityInHttpRequest))
        },
        s matches Ok(Async::NotReady),
        last == post,
{
}

/// A client is built for the target and the settings of its endpoint.
pub proof fn clients_are_built_for_their_endpoint<C: Clone, M: Stack<Config<C>>>(
    client: Client<M>,
    ep: Endpoint<C>,
    r: Result<M::Value, M::Error>,
) -> (config: Config<C>)
    requires
        call_ensures(<Client<M> as Stack<Endpoint<C>>>::make, (&client, &ep), r),
    ensures
        client.inner.makes(config, r),
        config.settings == ep.settings,
        config.target.addr == ep.connect.addr,
        config.target.tls is Present <==> ep.connect.tls is Present,
        config.target.tls matches Conditional::Absent(a) ==> ep.connect.tls matches Conditional::Absent(
            b,
        ) ==> a == b,
        config.target.tls matches Conditional::Present(a)
            ==> ep.connect.tls matches Conditional::Present(b) ==> a.server_identity
            == b.server_identity,
{
    choose|config: Config<C>| #[trigger]
        Client::<M>::configures(ep, config) && client.inner.makes(config, r)
}

/// An endpoint is another instance of this proxy exactly if the controller says that it takes
/// HTTP/2.
pub proof fn other_proxies_are_told_by_the_hint<C>(ep: Endpoint<C>, r: bool)
    requires
        call_ensures(Endpoint::<C>::can_use_orig_proto, (&ep,), r),
    ensures
        r <==> ep.metadata.protocol_hint == ProtocolHint::Http2,
{
}

/// The destination of a request is the one that its host and port make, if it has them.
pub proof fn destinations_follow_the_host<
    B,
    F: Fn(&Authority, Option<u16>) -> Option<HostAndPort>,
>(req: Request<B>, normalize: F, a: Authority, hp: HostAndPort, r: Option<NameOrAddr>)
    requires
        call_ensures(Recognize::name_or_addr::<B, F>, (&req, &normalize), r),
        req.uri.authority == Some(a),
        forall|x: Option<HostAndPort>|
            call_ensures(normalize, (&a, Some(80u16)), x) ==> x == Some(hp),
    ensures
        hp.host matches Host::DnsName(host) ==> (r matches Some(NameOrAddr::Name(dst)) && dst.name
            == host && dst.port == hp.port),
        hp.host matches Host::Ip(host) ==> (r matches Some(NameOrAddr::Addr(dst)) && dst.ip == host
            && dst.port == hp.port),
{
}

/// A request without an authority in its URI and without a `Host` header is recognized exactly if
/// its connection was headed elsewhere than to the local end of it, and goes there.
pub proof fn requests_without_host_go_where_headed<
    B,
    F: Fn(&Authority, Option<u16>) -> Option<HostAndPort>,
>(recognize: Recognize, req: Request<B>, normalize: F, r: Option<Destination>)
    requires
        call_ensures(Recognize::recognize::<B, F>, (&recognize, &req, &normalize), r),
        req.uri.authority is None,
        !crate::message::headers::header_values(req.headers).contains_key("host"@),
    ensures
        r matches Some(dst) ==> (dst.name_or_addr matches NameOrAddr::Addr(addr)
            && req.extensions.source matches Some(source) && source.orig_dst == Some(addr) && addr
            != source.local),
        req.extensions.source matches Some(source) ==> source.orig_dst matches Some(dst) ==> (
        dst.port != source.local.port || dst.ip.text() != source.local.ip.text()) ==> r is Some,
{
}

/// A request whose URI names no authority that can be read has the host and port that the
/// authority in its `Host` header is read as.
pub proof fn host_header_is_read<B, F: Fn(&Authority, Option<u16>) -> Option<HostAndPort>>(
    req: Request<B>,
    normalize: F,
    from_header: Option<Authority>,
    hp: HostAndPort,
    r: Option<HostAndPort>,
)
    requires
        call_ensures(Recognize::host_port::<B, F>, (&req, &normalize), r),
        call_ensures(h1::authority_from_host::<B>, (&req,), from_header),
        from_header is Some,
        req.uri.authority matches Some(a) ==> forall|x: Option<HostAndPort>|
            call_ensures(normalize, (&a, Some(80u16)), x) ==> x is None,
        forall|a: Authority, x: Option<HostAndPort>|
            a.text@ == from_header->0.text@ && #[trigger] call_ensures(
                normalize,
                (&a, Some(80u16)),
                x,
            ) ==> x == Some(hp),
    ensures
        r == Some(hp),
{
}

} // verus!
