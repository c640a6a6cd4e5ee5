//! What the proxy knows of the traffic that it handles.
use crate::addr::Authority;
use crate::message::{Request, Version};
use crate::proxy::h1;
use vstd::prelude::*;

verus! {

/// Indicates the orientation of traffic, relative to a sidecar proxy.
///
/// Each process exposes two proxies:
/// - The _inbound_ proxy receives traffic from another services forwards it to within the
///   local instance.
/// - The  _outbound_ proxy receives traffic from the local instance and forwards it to a
///   remote service.
///
/// This type is used for the purposes of caching and telemetry.
#[derive(Clone, Copy, Debug, Hash, PartialEq, Eq, Structural)]
pub enum Proxy {
    Inbound,
    Outbound,
}

/// Marks whether to use HTTP/2 or HTTP/1.x for a request.
///
/// In the case of HTTP/1.x requests, it also stores a "host" key to ensure
/// that each host receives its own connection.
#[derive(Debug, PartialEq, Eq)]
pub enum Protocol {
    Http1 {
        host: Host,
        /// Whether the request wants to use HTTP/1.1's Upgrade mechanism.
        ///
        /// Since these cannot be translated into orig-proto, it must be
        /// tracked here so as to allow those with `is_h1_upgrade: true` to
        /// use an explicitly HTTP/1 service, instead of one that might
        /// utilize orig-proto.
        is_h1_upgrade: bool,
        /// Whether or not the request URI was in absolute form.
        ///
        /// This is used to configure the client's behaviour at the connection
        /// level, so it's necessary that requests with and without
        /// absolute URIs be bound to separate service stacks. It is also
        /// used to determine what URI normalization will be necessary.
        was_absolute_form: bool,
    },
    Http2,
}

/// The host that an HTTP/1 request is for.
#[derive(Debug, PartialEq, Eq)]
pub enum Host {
    Authority(Authority),
    NoAuthority,
}

impl Proxy {
    /// The orientation, as it is written in labels.
    pub open spec fn text(self) -> Seq<char> {
        match self {
            Proxy::Inbound => "in"@,
            Proxy::Outbound => "out"@,
        }
    }

    /// Writes the orientation as in labels.
    pub fn as_str(&self) -> (s: &'static str)
        ensures
            s@ == self.text(),
    {
        match *self {
            Proxy::Inbound => "in",
            Proxy::Outbound => "out",
        }
    }
}

impl Host {
    /// The text of the authority, if there is one.
    pub open spec fn text(self) -> Option<Seq<char>> {
        match self {
            Host::Authority(a) => Some(a.text@),
            Host::NoAuthority => None,
        }
    }

    /// The host of a request: the authority in its URI or else that in its `Host` header.
    pub open spec fn of_request<B>(req: Request<B>) -> Option<Seq<char>> {
        match req.uri.authority {
            Some(a) => Some(a.text@),
            None => crate::proxy::h1::host_authority(req.headers),
        }
    }

    /// Determines the host of a request.
    pub fn from_request<B>(req: &Request<B>) -> (h: Host)
        ensures
            h.text() == Self::of_request(*req),
    {
        match &req.uri.authority {
            Some(a) => Host::Authority(a.clone()),
            None => match h1::authority_from_host(req) {
                Some(a) => Host::Authority(a),
                None => Host::NoAuthority,
            },
        }
    }
}

impl Clone for Host {
    fn clone(&self) -> (r: Self)
        ensures
            r == *self,
    {
        match self {
            Host::Authority(a) => Host::Authority(a.clone()),
            Host::NoAuthority => Host::NoAuthority,
        }
    }
}

impl Protocol {
    /// Whether this is the protocol of a request.
    pub open spec fn describes<B>(self, req: Request<B>) -> bool {
        match self {
            Protocol::Http2 => req.version == Version::Http2,
            Protocol::Http1 { host, is_h1_upgrade, was_absolute_form } => {
                &&& req.version != Version::Http2
                &&& host.text() == Host::of_request(req)
                &&& is_h1_upgrade == crate::proxy::h1::asks_for_upgrade(req)
                &&& was_absolute_form == req.uri.scheme is Some
            },
        }
    }

    /// Determines the protocol of a request.
    pub fn from_request<B>(req: &Request<B>) -> (p: Protocol)
        requires
            req.uri.wf(),
        ensures
            p.describes(*req),
    {
        if req.version == Version::Http2 {
            return Protocol::Http2;
        }
        let was_absolute_form: bool = h1::is_absolute_form(&req.uri);
        // If the request has an authority part, use that as the host part of
        // the key for an HTTP/1.x request.
        let host = Host::from_request(req);
        let is_h1_upgrade: bool = h1::wants_upgrade(req);
        Protocol::Http1 { host, is_h1_upgrade, was_absolute_form }
    }

    /// Returns true if the request was originally received in absolute form.
    pub fn was_absolute_form(&self) -> (r: bool)
        ensures
            r == (self matches Protocol::Http1 { was_absolute_form: true, .. }),
    {
        match self {
            Protocol::Http1 { was_absolute_form, .. } => *was_absolute_form,
            _ => false,
        }
    }

    /// Whether the protocol is one whose clients can serve more than one request: HTTP/2, or
    /// HTTP/1 with a known host.
    pub open spec fn reuses_clients(self) -> bool {
        match self {
            Protocol::Http2 => true,
            Protocol::Http1 { host, .. } => host is Authority,
        }
    }

    /// Whether a client can serve more than one request.
    pub fn can_reuse_clients(&self) -> (r: bool)
        ensures
            r == self.reuses_clients(),
    {
        match self {
            Protocol::Http2 => true,
            Protocol::Http1 { host: Host::Authority(_), .. } => true,
            _ => false,
        }
    }

    /// Whether the request wants to use HTTP/1.1's Upgrade mechanism.
    pub fn is_h1_upgrade(&self) -> (r: bool)
        ensures
            r == (self matches Protocol::Http1 { is_h1_upgrade: true, .. }),
    {
        match self {
            Protocol::Http1 { is_h1_upgrade: true, .. } => true,
            _ => false,
        }
    }

    /// Whether the protocol is HTTP/2.
    pub fn is_http2(&self) -> (r: bool)
        ensures
            r == (*self is Http2),
    {
        match self {
            Protocol::Http2 => true,
            _ => false,
        }
    }
}

impl Clone for Protocol {
    fn clone(&self) -> (r: Self)
        ensures
            r == *self,
    {
        match self {
            Protocol::Http1 { host, is_h1_upgrade, was_absolute_form } => Protocol::Http1 {
                host: host.clone(),
                is_h1_upgrade: *is_h1_upgrade,
                was_absolute_form: *was_absolute_form,
            },
            Protocol::Http2 => Protocol::Http2,
        }
    }
}

/// The protocol of a request is determined up to the spelling of its host.
pub proof fn protocol_is_determined<B>(req: Request<B>, p: Protocol, q: Protocol)
    requires
        p.describes(req),
        q.describes(req),
    ensures
        match (p, q) {
            (Protocol::Http2, Protocol::Http2) => true,
            (
                Protocol::Http1 { host: h, is_h1_upgrade: u, was_absolute_form: a },
                Protocol::Http1 { host: k, is_h1_upgrade: v, was_absolute_form: b },
            ) => h.text() == k.text() && u == v && a == b,
            _ => false,
        },
{
}

/// The protocol of a request is HTTP/2 exactly if the request came over it. Any other is HTTP/1,
/// with the host that the URI names or else the `Host` header, and with a note of whether an
/// upgrade is asked for and whether the URI was in absolute form.
pub proof fn protocol_is_read_from_the_request<B>(
    req: Request<B>,
    p: Protocol,
    upgrade: bool,
    from_header: Option<Authority>,
)
    requires
        call_ensures(Protocol::from_request::<B>, (&req,), p),
        call_ensures(h1::wants_upgrade::<B>, (&req,), upgrade),
        call_ensures(h1::authority_from_host::<B>, (&req,), from_header),
    ensures
        p is Http2 <==> req.version == Version::Http2,
        p matches Protocol::Http1 { host, is_h1_upgrade, was_absolute_form } ==> {
            &&& is_h1_upgrade == upgrade
            &&& was_absolute_form <==> req.uri.scheme is Some
            &&& match host {
                Host::Authority(h) => match (req.uri.authority, from_header) {
                    (Some(a), _) => h.text@ == a.text@,
                    (None, Some(a)) => h.text@ == a.text@,
                    (None, None) => false,
                },
                Host::NoAuthority => req.uri.authority is None && from_header is None,
            }
        },
{
}

/// Clients are shared between requests exactly if they speak HTTP/2, or HTTP/1 to a host that is
/// known.
pub proof fn clients_without_host_are_not_shared(
    p: Protocol,
    shared: bool,
    absolute: bool,
    upgrade: bool,
    http2: bool,
)
    requires
        call_ensures(Protocol::can_reuse_clients, (&p,), shared),
        call_ensures(Protocol::was_absolute_form, (&p,), absolute),
        call_ensures(Protocol::is_h1_upgrade, (&p,), upgrade),
        call_ensures(Protocol::is_http2, (&p,), http2),
    ensures
        p is Http2 ==> shared && http2 && !absolute && !upgrade,
        p matches Protocol::Http1 { host, is_h1_upgrade, was_absolute_form } ==> !http2 && (shared
            <==> host is Authority) && absolute == was_absolute_form && upgrade == is_h1_upgrade,
{
}

/// Labels tell the direction of traffic by `in` and `out`.
pub proof fn directions_are_written(p: Proxy, s: &'static str)
    requires
        call_ensures(Proxy::as_str, (&p,), s),
    ensures
        p is Inbound ==> s@ == seq!['i', 'n'],
        p is Outbound ==> s@ == seq!['o', 'u', 't'],
{
    reveal_strlit("in");
    reveal_strlit("out");
    assert("in"@ =~= seq!['i', 'n']);
    assert("out"@ =~= seq!['o', 'u', 't']);
}

} // verus!
