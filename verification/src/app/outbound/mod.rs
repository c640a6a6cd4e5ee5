//! How requests leave the local instance.
pub mod canonicalize;
pub mod discovery;
pub mod orig_proto_upgrade;

use crate::addr::{Addr, NameAddr};
use crate::app::classify;
use crate::conditional::Conditional;
use crate::endpoint::{Metadata, ProtocolHint};
use crate::message::Request;
use crate::proxy::profiles::{self, CanGetDestination};
use crate::tap::event;
use crate::tls::{connection_config, ReasonForNoTls};
use crate::transport::Target;
use std::sync::Arc;
use vstd::prelude::*;

verus! {

/// An endpoint of a destination.
#[derive(Debug)]
pub struct Endpoint<C> {
    /// The name of the destination, if it has one.
    pub dst_name: Option<NameAddr>,
    pub connect: Target<C>,
    pub metadata: Metadata,
}

/// A route to a destination.
pub struct Route<B> {
    pub dst_addr: Addr,
    pub route: profiles::Route<B>,
}

/// Recognizes requests by their destination.
#[derive(Copy, Clone, Debug)]
pub struct RecognizeDstAddr;

/// The destination of a request.
#[derive(Debug, PartialEq, Eq, Hash)]
pub struct DstAddr {
    pub addr: Addr,
}

/// The destination of a request, under its canonical name.
#[derive(Debug, PartialEq, Eq, Hash)]
pub struct CanonicalDstAddr {
    pub addr: Addr,
}

impl<C: Clone> Endpoint<C> {
    /// Whether the endpoint is another instance of this proxy, to which HTTP/1 can be sent
    /// over HTTP/2.
    pub fn can_use_orig_proto(&self) -> (r: bool)
        ensures
            r == (self.metadata.protocol_hint is Http2),
    {
        match self.metadata.protocol_hint() {
            ProtocolHint::Unknown => false,
            ProtocolHint::Http2 => true,
        }
    }

    /// How connections to the endpoint are made.
    pub fn connect(&self) -> (t: Target<C>)
        ensures
            self.connect.is_copied(t),
    {
        self.connect.clone()
    }

    /// Writes the address of the endpoint.
    pub fn to_text(&self) -> (s: String)
        ensures
            s@ == self.connect.addr.text(),
    {
        self.connect.addr.to_text()
    }

    /// The same endpoint, connected to with the current client configuration.
    pub fn with_update(&self, client_config: &Conditional<C, ReasonForNoTls>) -> (ep: Self)
        ensures
            ep.dst_name == self.dst_name,
            ep.connect.addr == self.connect.addr,
            self.metadata.is_copied(ep.metadata),
            crate::tls::is_connection_config(
                self.metadata.tls_identity,
                *client_config,
                ep.connect.tls,
            ),
    {
        Endpoint {
            dst_name: match &self.dst_name {
                Some(name) => Some(name.clone()),
                None => None,
            },
            connect: Target::new(
                self.connect.addr.clone(),
                connection_config(&self.metadata.tls_identity, client_config),
            ),
            metadata: self.metadata.clone(),
        }
    }
}

impl<C> From<Endpoint<C>> for event::Endpoint<C> {
    fn from(ep: Endpoint<C>) -> (r: Self) {
        event::Endpoint {
            direction: event::Direction::Out,
            labels: ep.metadata.labels,
            target: ep.connect,
        }
    }
}

impl<C> vstd::std_specs::convert::FromSpecImpl<Endpoint<C>> for event::Endpoint<C> {
    open spec fn obeys_from_spec() -> bool {
        true
    }

    open spec fn from_spec(ep: Endpoint<C>) -> Self {
        event::Endpoint {
            direction: event::Direction::Out,
            labels: ep.metadata.labels,
            target: ep.connect,
        }
    }
}

impl<B> Route<B> {
    /// Classifies the responses on the route by the classes that it defines.
    pub fn classify(&self) -> (r: classify::Request)
        ensures
            r == (classify::Request { classes: self.route.response_classes }),
    {
        classify::Request::from(Arc::clone(self.route.response_classes()))
    }
}

impl RecognizeDstAddr {
    /// Recognizes a request by its destination, which `http_request_addr` finds.
    pub fn recognize<B, F: Fn(&Request<B>) -> Option<Addr>>(
        &self,
        req: &Request<B>,
        http_request_addr: F,
    ) -> (r: Option<DstAddr>)
        requires
            call_requires(http_request_addr, (req,)),
        ensures
            match r {
                Some(dst) => call_ensures(http_request_addr, (req,), Some(dst.addr)),
                None => call_ensures(http_request_addr, (req,), None),
            },
    {
        match http_request_addr(req) {
            Some(addr) => Some(DstAddr { addr }),
            None => None,
        }
    }
}

impl DstAddr {
    /// Writes the destination.
    pub fn to_text(&self) -> (s: String)
        ensures
            s@ == self.addr.text(),
    {
        self.addr.to_text()
    }
}

impl CanonicalDstAddr {
    /// Two destinations are the same if their addresses are.
    pub open spec fn same(self, other: CanonicalDstAddr) -> bool {
        self.addr.same(other.addr)
    }

    /// Compares two destinations.
    pub fn is_same(&self, other: &CanonicalDstAddr) -> (r: bool)
        ensures
            r == self.same(*other),
    {
        self.addr.is_same(&other.addr)
    }

    /// Writes the destination.
    pub fn to_text(&self) -> (s: String)
        ensures
            s@ == self.addr.text(),
    {
        self.addr.to_text()
    }

    /// A route to the destination.
    pub fn with_route<B>(self, route: profiles::Route<B>) -> (r: Route<B>)
        ensures
            r == (Route { dst_addr: self.addr, route }),
    {
        Route { dst_addr: self.addr, route }
    }
}

impl CanGetDestination for CanonicalDstAddr {
    /// Only names have profiles.
    open spec fn destination(self) -> Option<NameAddr> {
        match self.addr {
            Addr::Name(name) => Some(name),
            Addr::Socket(_) => None,
        }
    }

    fn get_destination(&self) -> (r: Option<&NameAddr>) {
        match &self.addr {
            Addr::Name(name) => Some(name),
            Addr::Socket(_) => None,
        }
    }
}

/// When the client configuration changes, an endpoint remains the same but for how it is
/// connected to: over TLS exactly if it has an identity and there is a configuration.
pub proof fn endpoints_are_updated_with_tls<C: Clone>(
    ep: Endpoint<C>,
    config: Conditional<C, ReasonForNoTls>,
    r: Endpoint<C>,
)
    requires
        call_ensures(Endpoint::<C>::with_update, (&ep, &config), r),
    ensures
        r.dst_name == ep.dst_name,
        r.connect.addr == ep.connect.addr,
        r.metadata.tls_identity == ep.metadata.tls_identity,
        r.metadata.protocol_hint == ep.metadata.protocol_hint,
        r.connect.tls is Present <==> ep.metadata.tls_identity is Present && config is Present,
        r.connect.tls matches Conditional::Present(tls) ==> ep.metadata.tls_identity
            == Conditional::<crate::tls::Identity, crate::tls::ReasonForNoIdentity>::Present(
            tls.server_identity,
        ),
        ep.metadata.tls_identity matches Conditional::Absent(reason) ==> r.connect.tls
            == Conditional::<crate::tls::ConnectionConfig<C>, ReasonForNoTls>::Absent(
            ReasonForNoTls::NoIdentity(reason),
        ),
{
}

/// An endpoint is another instance of this proxy exactly if the controller says that it takes
/// HTTP/2.
pub proof fn other_proxies_are_told_by_the_hint<C: Clone>(ep: Endpoint<C>, r: bool)
    requires
        call_ensures(Endpoint::<C>::can_use_orig_proto, (&ep,), r),
    ensures
        r <==> ep.metadata.protocol_hint == ProtocolHint::Http2,
{
}

/// Only names have profiles, each its own.
pub proof fn only_names_have_profiles(dst: CanonicalDstAddr, r: Option<&NameAddr>)
    requires
        call_ensures(<CanonicalDstAddr as CanGetDestination>::get_destination, (&dst,), r),
    ensures
        dst.addr is Socket ==> r is None,
        dst.addr matches Addr::Name(name) ==> r == Some(&name),
{
}

/// A request is recognized by the address that is found for it, and not without one.
pub proof fn requests_are_recognized_by_address<B, F: Fn(&Request<B>) -> Option<Addr>>(
    recognize: RecognizeDstAddr,
    req: Request<B>,
    http_request_addr: F,
    addr: Option<Addr>,
    r: Option<DstAddr>,
)
    requires
        call_ensures(
            RecognizeDstAddr::recognize::<B, F>,
            (&recognize, &req, http_request_addr),
            r,
        ),
        forall|x: Option<Addr>| call_ensures(http_request_addr, (&req,), x) ==> x == addr,
    ensures
        match (r, addr) {
            (Some(dst), Some(a)) => dst.addr == a,
            (None, None) => true,
            _ => false,
        },
{
}

/// Responses on a route are classified by the classes of that route, and a route of a destination
/// is to that destination.
pub proof fn routes_classify_by_their_own_classes<B>(
    dst: CanonicalDstAddr,
    route: profiles::Route<B>,
    r: Route<B>,
    c: classify::Request,
)
    requires
        call_ensures(CanonicalDstAddr::with_route::<B>, (dst, route), r),
        call_ensures(Route::<B>::classify, (&r,), c),
    ensures
        r.dst_addr == dst.addr,
        r.route == route,
        c.classes == route.response_classes,
{
}

/// To a tap, an endpoint of outbound requests is one, with its own labels and target.
pub proof fn tapped_endpoints_are_outbound<C>(ep: Endpoint<C>, r: event::Endpoint<C>)
    requires
        call_ensures(<event::Endpoint<C> as From<Endpoint<C>>>::from, (ep,), r),
    ensures
        r.direction == event::Direction::Out,
        r.labels == ep.metadata.labels,
        r.target == ep.connect,
{
}

} // verus!
