//! Discovers the endpoints of outbound destinations.
use crate::addr::{Addr, NameAddr, SocketAddr};
use crate::app::outbound::{CanonicalDstAddr, Endpoint};
use crate::conditional::Conditional;
use crate::endpoint::Metadata;
use crate::poll::{Async, Poll};
use crate::proxy::resolve::{self, Change, Update};
use crate::tls::{reason_for_no_tls, ReasonForNoIdentity, ReasonForNoTls};
use crate::transport::Target;
use std::marker::PhantomData;
use vstd::prelude::*;

verus! {

/// Resolves names with `R`, and addresses by themselves.
#[derive(Debug)]
pub struct Resolve<R, C> {
    pub inner: R,
    pub _p: PhantomData<C>,
}

/// The resolution of a destination: updates about a name, or a single address that is yet to
/// be reported.
#[derive(Debug)]
pub enum Resolution<R, C> {
    Name(NameAddr, R),
    Addr(Option<SocketAddr>, PhantomData<C>),
}

impl<R, C> Resolve<R, C> {
    /// Resolves names with `resolve`.
    pub fn new(resolve: R) -> (r: Self)
        ensures
            r.inner == resolve,
    {
        Resolve { inner: resolve, _p: PhantomData }
    }
}

impl<R: resolve::Resolve<NameAddr, Endpoint = Metadata>, C> resolve::Resolve<
    CanonicalDstAddr,
> for Resolve<R, C> {
    type Endpoint = Endpoint<C>;

    type Resolution = Resolution<R::Resolution, C>;

    open spec fn resolves(&self, target: CanonicalDstAddr, r: Self::Resolution) -> bool {
        match target.addr {
            Addr::Name(name) => r matches Resolution::Name(n, res) && n == name
                && self.inner.resolves(name, res),
            Addr::Socket(addr) => r matches Resolution::Addr(a, _) && a == Some(addr),
        }
    }

    fn resolve(&self, dst: &CanonicalDstAddr) -> (r: Self::Resolution) {
        match &dst.addr {
            Addr::Name(name) => Resolution::Name(name.clone(), self.inner.resolve(name)),
            Addr::Socket(addr) => Resolution::Addr(Some(addr.clone()), PhantomData),
        }
    }
}

/// Whether `ep` is the endpoint at `addr` of a destination with the given name.
///
/// If the endpoint does not have TLS, the reason is noted. Otherwise, it is noted that there
/// is no TLS config (yet). This may be changed by a stack layer that provides TLS
/// configuration.
pub open spec fn is_named_endpoint<C>(
    name: NameAddr,
    addr: SocketAddr,
    metadata: Metadata,
    ep: Endpoint<C>,
) -> bool {
    &&& ep.dst_name == Some(name)
    &&& ep.connect.addr == addr
    &&& ep.connect.tls matches Conditional::Absent(reason)
    &&& reason == crate::tls::initial_reason(metadata.tls_identity)
    &&& ep.metadata == metadata
}

/// Whether `ep` is the endpoint at an address that was not looked up by any name.
pub open spec fn is_bare_endpoint<C>(addr: SocketAddr, ep: Endpoint<C>) -> bool {
    &&& ep.dst_name is None
    &&& ep.connect.addr == addr
    &&& ep.connect.tls matches Conditional::Absent(reason)
    &&& reason == ReasonForNoTls::NoIdentity(ReasonForNoIdentity::NoAuthorityInHttpRequest)
    &&& ep.metadata.is_none(ReasonForNoIdentity::NoAuthorityInHttpRequest)
}

/// Whether `r` is what the resolution of a name makes of `polled`.
pub open spec fn is_named_update<E, C>(
    name: NameAddr,
    polled: Poll<Update<Metadata>, E>,
    r: Poll<Update<Endpoint<C>>, E>,
) -> bool {
    match polled {
        Err(e) => r matches Err(err) && err == e,
        Ok(Async::NotReady) => r matches Ok(Async::NotReady),
        Ok(Async::Ready(Change::Remove(addr))) => r matches Ok(Async::Ready(Change::Remove(a)))
            && a == addr,
        Ok(Async::Ready(Change::Insert(addr, metadata))) => r matches Ok(
            Async::Ready(Change::Insert(a, ep)),
        ) && a == addr && is_named_endpoint(name, addr, metadata, ep),
    }
}

/// Whether polling the resolution of a name may give `r`, and take what it polls from `pre` to
/// `post`.
pub open spec fn polls_name<R: resolve::Resolution<Endpoint = Metadata>, C>(
    name: NameAddr,
    pre: R,
    r: Poll<Update<Endpoint<C>>, R::Error>,
    post: R,
) -> bool {
    exists|polled: Poll<Update<Metadata>, R::Error>| #[trigger]
        pre.polls(polled, post) && is_named_update(name, polled, r)
}

impl<R: resolve::Resolution<Endpoint = Metadata>, C> resolve::Resolution for Resolution<R, C> {
    type Endpoint = Endpoint<C>;

    type Error = R::Error;

    open spec fn polls(self, r: Poll<Update<Endpoint<C>>, R::Error>, post: Self) -> bool {
        match self {
            Resolution::Name(name, res) => {
                &&& post matches Resolution::Name(n, post_res)
                &&& n == name
                &&& polls_name(name, res, r, post_res)
            },
            Resolution::Addr(Some(addr), _) => {
                &&& post matches Resolution::Addr(None, _)
                &&& r matches Ok(Async::Ready(Change::Insert(a, ep)))
                &&& a == addr
                &&& is_bare_endpoint(addr, ep)
            },
            Resolution::Addr(None, _) => post == self && r matches Ok(Async::NotReady),
        }
    }

    fn poll(&mut self) -> (r: Poll<Update<Endpoint<C>>, R::Error>) {
        match self {
            Resolution::Name(name, res) => {
                let ghost before = *res;
                let polled = res.poll();
                let ghost witness = polled;
                assert(before.polls(witness, *res));
                let r: Poll<Update<Endpoint<C>>, R::Error> = match polled {
                    Err(e) => Err(e),
                    Ok(Async::NotReady) => Ok(Async::NotReady),
                    Ok(Async::Ready(Change::Remove(addr))) => Ok(
                        Async::Ready(Change::Remove(addr)),
                    ),
                    Ok(Async::Ready(Change::Insert(addr, metadata))) => {
                        let tls = reason_for_no_tls(&metadata.tls_identity);
                        let ep = Endpoint {
                            dst_name: Some(name.clone()),
                            connect: Target::new(addr.clone(), Conditional::Absent(tls)),
                            metadata,
                        };
                        Ok(Async::Ready(Change::Insert(addr, ep)))
                    },
                };
                assert(is_named_update(*name, witness, r));
                assert(polls_name(*name, before, r, *res));
                r
            },
            Resolution::Addr(addr, _) => match addr.take() {
                Some(addr) => {
                    let reason = ReasonForNoIdentity::NoAuthorityInHttpRequest;
                    let ep = Endpoint {
                        dst_name: None,
                        connect: Target::new(
                            addr.clone(),
                            Conditional::Absent(ReasonForNoTls::NoIdentity(reason)),
                        ),
                        metadata: Metadata::none(reason),
                    };
                    Ok(Async::Ready(Change::Insert(addr, ep)))
                },
                None => Ok(Async::NotReady),
            },
        }
    }
}

/// An address is reported exactly once: the first poll of its resolution gives its endpoint,
/// and none after that gives anything, however many there are.
pub proof fn addresses_are_reported_once<R: resolve::Resolution<Endpoint = Metadata>, C>(
    addr: SocketAddr,
    states: Seq<Resolution<R, C>>,
    polls: Seq<Poll<Update<Endpoint<C>>, R::Error>>,
    i: int,
)
    requires
        states.len() == polls.len() + 1,
        states[0] matches Resolution::Addr(a, _) && a == Some(addr),
        forall|k: int|
            0 <= k < polls.len() ==> resolve::Resolution::polls(
                states[k],
                #[trigger] polls[k],
                states[k + 1],
            ),
        0 <= i < polls.len(),
    ensures
        i == 0 ==> (polls[i] matches Ok(Async::Ready(Change::Insert(a, ep))) && a == addr
            && is_bare_endpoint(addr, ep)),
        i > 0 ==> polls[i] matches Ok(Async::NotReady),
        states[i + 1] matches Resolution::Addr(None, _),
    decreases i,
{
    assert(resolve::Resolution::polls(states[i], polls[i], states[i + 1]));
    if i > 0 {
        addresses_are_reported_once(addr, states, polls, i - 1);
    }
}

/// What is resolved is what the destination names: a name is resolved as it is, port included,
/// and an address is its own and only endpoint.
pub proof fn destinations_are_resolved_as_named<
    R: resolve::Resolve<NameAddr, Endpoint = Metadata>,
    C,
>(resolve: Resolve<R, C>, dst: CanonicalDstAddr, r: Resolution<R::Resolution, C>)
    requires
        call_ensures(
            <Resolve<R, C> as resolve::Resolve<CanonicalDstAddr>>::resolve,
            (&resolve, &dst),
            r,
        ),
    ensures
        match r {
            Resolution::Name(name, res) => dst.addr == Addr::Name(name) && resolve.inner.resolves(
                name,
                res,
            ),
            Resolution::Addr(addr, _) => addr is Some && dst.addr == Addr::Socket(addr->0),
        },
{
}

/// An endpoint that the resolution of a name announces is at the address that was found, has the
/// metadata that was found and the name that was resolved, and is not connected to over TLS for
/// the reason that it has no identity, or that there is no configuration yet. Removals, errors
/// and waiting are handed on.
pub proof fn named_endpoints_are_as_found<R: resolve::Resolution<Endpoint = Metadata>, C>(
    name: NameAddr,
    res: R,
    r: Poll<Update<Endpoint<C>>, R::Error>,
    post: Resolution<R, C>,
)
    requires
        resolve::Resolution::polls(Resolution::<R, C>::Name(name, res), r, post),
    ensures
        post matches Resolution::Name(n, _) && n == name,
        exists|polled: Poll<Update<Metadata>, R::Error>| #[trigger]
            res.polls(polled, post->Name_1) && match (polled, r) {
                (Err(e), Err(f)) => e == f,
                (Ok(Async::NotReady), Ok(Async::NotReady)) => true,
                (
                    Ok(Async::Ready(Change::Remove(a))),
                    Ok(Async::Ready(Change::Remove(b))),
                ) => a == b,
                (
                    Ok(Async::Ready(Change::Insert(a, metadata))),
                    Ok(Async::Ready(Change::Insert(b, ep))),
                ) => {
                    &&& a == b
                    &&& ep.connect.addr == a
                    &&& ep.metadata == metadata
                    &&& ep.dst_name == Some(name)
                    &&& match metadata.tls_identity {
                        Conditional::Absent(reason) => ep.connect.tls == Conditional::<
                            crate::tls::ConnectionConfig<C>,
                            ReasonForNoTls,
                        >::Absent(ReasonForNoTls::NoIdentity(reason)),
                        Conditional::Present(_) => ep.connect.tls == Conditional::<
                            crate::tls::ConnectionConfig<C>,
                            ReasonForNoTls,
                        >::Absent(ReasonForNoTls::NoConfig),
                    }
                },
                _ => false,
            },
{
}

/// The endpoint of an address is at that address. Nothing is known of it: it has no name, no
/// labels and no identity, since no authority named it, and it is not taken for another proxy.
pub proof fn nothing_is_known_of_addresses<R: resolve::Resolution<Endpoint = Metadata>, C>(
    addr: SocketAddr,
    p: PhantomData<C>,
    r: Poll<Update<Endpoint<C>>, R::Error>,
    post: Resolution<R, C>,
)
    requires
        resolve::Resolution::polls(Resolution::<R, C>::Addr(Some(addr), p), r, post),
    ensures
        r matches Ok(Async::Ready(Change::Insert(a, ep))) && {
            &&& a == addr
            &&& ep.connect.addr == addr
            &&& ep.dst_name is None
            &&& ep.metadata.protocol_hint is Unknown
            &&& crate::labels::label_values(ep.metadata.labels) == Map::<
                Seq<char>,
                Seq<char>,
            >::empty()
            &&& ep.metadata.tls_identity == Conditional::<
                crate::tls::Identity,
                ReasonForNoIdentity,
            >::Absent(ReasonForNoIdentity::NoAuthorityInHttpRequest)
            &&& ep.connect.tls is Absent
        },
{
}

} // verus!
