//! How requests reach the local instance.
use crate::addr::{Addr, SocketAddr};
use crate::ctx::Protocol;
use crate::message::Request;
use crate::proxy::router::Config;
use crate::time::Duration;
use vstd::prelude::*;

verus! {

/// Where an inbound request goes, and how.
#[derive(Debug, PartialEq, Eq)]
pub struct Target {
    pub addr: SocketAddr,
    pub protocol: Protocol,
}

/// An endpoint that inbound requests are sent to.
#[derive(Debug, PartialEq, Eq)]
pub struct Endpoint {
    pub addr: SocketAddr,
    /// The destination that the requests are for, if it is known.
    pub dst: Option<Addr>,
}

/// Recognizes inbound requests.
#[derive(Debug)]
pub struct Recognize {
    /// Where requests go that were not redirected to this proxy.
    pub default_addr: Option<SocketAddr>,
}

impl Recognize {
    /// Requests that were not redirected to this proxy go to `default_addr`.
    pub fn new(default_addr: SocketAddr) -> (r: Self)
        ensures
            r.default_addr == Some(default_addr),
    {
        Recognize { default_addr: Some(default_addr) }
    }

    /// Where a request goes: to its original destination, unless it has none or that is this
    /// proxy itself, and then to the default address.
    pub open spec fn addr_for<B>(self, req: Request<B>) -> Option<SocketAddr> {
        let orig_dst = match req.extensions.source {
            Some(source) => source.spec_orig_dst_if_not_local(),
            None => None,
        };
        match orig_dst {
            Some(addr) => Some(addr),
            None => self.default_addr,
        }
    }

    /// Recognizes a request by its address and by the protocol that `detect` finds.
    pub fn recognize<B, F: Fn(&Request<B>) -> Protocol>(&self, req: &Request<B>, detect: F) -> (r:
        Option<Target>)
        requires
            call_requires(detect, (req,)),
        ensures
            r is Some <==> self.addr_for(*req) is Some,
            r matches Some(target) ==> {
                &&& Some(target.addr) == self.addr_for(*req)
                &&& call_ensures(detect, (req,), target.protocol)
            },
    {
        let orig_dst: Option<SocketAddr> = match &req.extensions.source {
            Some(source) => source.orig_dst_if_not_local(),
            None => None,
        };
        let addr = match orig_dst {
            Some(addr) => addr,
            None => match &self.default_addr {
                Some(addr) => addr.clone(),
                None => {
                    return None;
                },
            },
        };
        Some(Target { addr, protocol: detect(req) })
    }
}

impl Default for Recognize {
    fn default() -> (r: Self)
        ensures
            r.default_addr is None,
    {
        Recognize { default_addr: None }
    }
}

/// Configures the router for inbound requests.
pub fn router(default_addr: Option<SocketAddr>, capacity: usize, max_idle_age: Duration) -> (c:
    Config<Recognize>)
    ensures
        c == (Config { recognize: Recognize { default_addr }, capacity, max_idle_age }),
{
    Config::new(Recognize { default_addr }, capacity, max_idle_age)
}

/// No request is sent to the local end of the connection on which it came in on account of its
/// original destination: it would come in again.
pub proof fn never_loops<B>(recognize: Recognize, req: Request<B>)
    requires
        req.extensions.source matches Some(source) && recognize.addr_for(req) matches Some(addr)
            && addr.same(source.local),
    ensures
        recognize.addr_for(req) == recognize.default_addr,
{
}

/// A request whose connection was headed elsewhere than to the local end of it goes there,
/// whatever the default address is.
pub proof fn original_destination_goes_first<B, F: Fn(&Request<B>) -> Protocol>(
    recognize: Recognize,
    req: Request<B>,
    detect: F,
    source: crate::source::Source,
    dst: SocketAddr,
    r: Option<Target>,
)
    requires
        call_ensures(Recognize::recognize::<B, F>, (&recognize, &req, detect), r),
        req.extensions.source == Some(source),
        source.orig_dst == Some(dst),
        dst.port != source.local.port || dst.ip.text() != source.local.ip.text() || (dst.ip is V4)
            != (source.local.ip is V4),
    ensures
        r matches Some(target) && target.addr == dst,
{
}

/// A request goes to the default address only if its connection was not headed anywhere, or to
/// the local end of it. If there is no default address then, the request is not recognized.
pub proof fn default_address_is_the_fallback<B, F: Fn(&Request<B>) -> Protocol>(
    recognize: Recognize,
    req: Request<B>,
    detect: F,
    r: Option<Target>,
)
    requires
        call_ensures(Recognize::recognize::<B, F>, (&recognize, &req, detect), r),
        req.extensions.source matches Some(source) ==> source.orig_dst matches Some(dst)
            ==> dst.port == source.local.port && dst.ip.text() == source.local.ip.text() && (
        dst.ip is V4) == (source.local.ip is V4),
    ensures
        r is Some <==> recognize.default_addr is Some,
        r matches Some(target) ==> Some(target.addr) == recognize.default_addr,
{
}

/// What the default address is has no bearing on a request that goes anywhere else, and no
/// request goes to a third place.
pub proof fn targets_come_from_two_places<B, F: Fn(&Request<B>) -> Protocol>(
    a: Recognize,
    b: Recognize,
    req: Request<B>,
    detect: F,
    r: Option<Target>,
    s: Option<Target>,
)
    requires
        call_ensures(Recognize::recognize::<B, F>, (&a, &req, detect), r),
        call_ensures(Recognize::recognize::<B, F>, (&b, &req, detect), s),
    ensures
        r matches Some(target) ==> Some(target.addr) == a.default_addr || (s is Some
            && s->0.addr == target.addr && req.extensions.source is Some
            && req.extensions.source->0.orig_dst == Some(target.addr)),
        r matches Some(target) ==> call_ensures(detect, (&req,), target.protocol),
{
}

/// The router for inbound requests sends them to the default address that it is given, and keeps
/// as many services, for as long, as it is told to.
pub proof fn routers_are_configured_as_asked(
    default_addr: Option<SocketAddr>,
    capacity: usize,
    max_idle_age: Duration,
    c: Config<Recognize>,
)
    requires
        call_ensures(router, (default_addr, capacity, max_idle_age), c),
    ensures
        c.recognize.default_addr == default_addr,
        c.capacity == capacity,
        c.max_idle_age == max_idle_age,
{
}

} // verus!
