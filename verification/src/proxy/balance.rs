//! Balances requests over the endpoints of a target.
use crate::addr::SocketAddr;
use crate::poll::{Async, Poll};
use crate::proxy::resolve::{Change, DiscoverError, Resolution, Resolve, Update};
use crate::stack;
use crate::time::Duration;
use std::marker::PhantomData;
use vstd::prelude::*;

verus! {

/// Over how many seconds measurements of load decay unless something else is set.
pub const DEFAULT_DECAY_SECS: u64 = 10;

/// Makes stacks balance over all endpoints of a target.
#[derive(Debug)]
pub struct Layer<T, R> {
    /// Over how long measurements of load decay.
    pub decay: Duration,
    pub resolve: R,
    pub _p: PhantomData<T>,
}

impl<T, R: Clone> Clone for Layer<T, R> {
    fn clone(&self) -> (r: Self)
        ensures
            cloned(self.resolve, r.resolve),
            r.decay == self.decay,
    {
        Layer { resolve: self.resolve.clone(), decay: self.decay, _p: PhantomData }
    }
}

/// A stack that balances over all endpoints of a target.
#[derive(Debug)]
pub struct Make<T, R, M> {
    pub decay: Duration,
    pub resolve: R,
    pub inner: M,
    pub _p: PhantomData<T>,
}

impl<T, R: Clone, M: Clone> Clone for Make<T, R, M> {
    fn clone(&self) -> (r: Self)
        ensures
            cloned(self.resolve, r.resolve),
            cloned(self.inner, r.inner),
            r.decay == self.decay,
    {
        Make {
            resolve: self.resolve.clone(),
            inner: self.inner.clone(),
            decay: self.decay,
            _p: PhantomData,
        }
    }
}

/// The endpoints to balance over, and how load is measured.
pub struct Balanced<R, M> {
    pub discover: Discover<R, M>,
    pub decay: Duration,
}

/// Observes a resolution, and builds a service for each endpoint.
pub struct Discover<R, M> {
    pub resolution: R,
    pub make: M,
}

impl<T, R> Layer<T, R> {
    /// Balances over the endpoints that `resolve` finds.
    pub fn new(resolve: R) -> (l: Self)
        ensures
            l.resolve == resolve,
            l.decay == (Duration { secs: DEFAULT_DECAY_SECS, nanos: 0 }),
    {
        Layer { resolve, decay: Duration::from_secs(DEFAULT_DECAY_SECS), _p: PhantomData }
    }

    /// Sets over how long measurements of load decay.
    pub fn with_decay(self, decay: Duration) -> (l: Self)
        ensures
            l == (Layer { decay, ..self }),
    {
        Layer { decay, resolve: self.resolve, _p: PhantomData }
    }
}

impl<T, R: Resolve<T> + Clone, M: stack::Stack<R::Endpoint> + Clone> stack::layer::Layer<
    T,
    R::Endpoint,
    M,
> for Layer<T, R> {
    type Value = Balanced<R::Resolution, M>;

    type Error = M::Error;

    type Stack = Make<T, R, M>;

    open spec fn binds(&self, next: M, stack: Make<T, R, M>) -> bool {
        &&& stack.decay == self.decay
        &&& cloned(self.resolve, stack.resolve)
        &&& stack.inner == next
    }

    fn bind(&self, next: M) -> (stack: Make<T, R, M>) {
        Make { decay: self.decay, resolve: self.resolve.clone(), inner: next, _p: PhantomData }
    }
}

impl<T, R: Resolve<T>, M: stack::Stack<R::Endpoint> + Clone> stack::Stack<T> for Make<T, R, M> {
    type Value = Balanced<R::Resolution, M>;

    type Error = M::Error;

    open spec fn accepts(&self, target: T) -> bool {
        true
    }

    open spec fn makes(&self, target: T, r: Result<Self::Value, M::Error>) -> bool {
        &&& r matches Ok(balanced)
        &&& self.resolve.resolves(target, balanced.discover.resolution)
        &&& cloned(self.inner, balanced.discover.make)
        &&& balanced.decay == self.decay
    }

    fn make(&self, target: &T) -> (r: Result<Self::Value, M::Error>) {
        let discover = Discover {
            resolution: self.resolve.resolve(target),
            make: self.inner.clone(),
        };
        Ok(Balanced { discover, decay: self.decay })
    }
}

/// Whether `r` is what discovery makes of `polled`: each new endpoint is replaced with a
/// service that was built for it, and everything else is passed on.
pub open spec fn discovers<E, RE, M: stack::Stack<E>>(
    make: M,
    polled: Poll<Update<E>, RE>,
    r: Poll<Change<SocketAddr, M::Value>, DiscoverError<RE, M::Error>>,
) -> bool {
    match polled {
        Err(e) => r matches Err(DiscoverError::Resolve(err)) && err == e,
        Ok(Async::NotReady) => r matches Ok(Async::NotReady),
        Ok(Async::Ready(Change::Remove(addr))) => r matches Ok(Async::Ready(Change::Remove(a)))
            && a == addr,
        Ok(Async::Ready(Change::Insert(addr, endpoint))) => match r {
            Ok(Async::Ready(Change::Insert(a, service))) => {
                &&& a == addr
                &&& make.makes(endpoint, Ok(service))
            },
            Err(DiscoverError::Stack(e)) => make.makes(endpoint, Err(e)),
            _ => false,
        },
    }
}

impl<R: Resolution, M: stack::Stack<R::Endpoint>> Discover<R, M> {
    /// Asks for the next change, and builds the service for a new endpoint.
    ///
    /// We expect the load balancer to handle duplicate inserts
    /// by replacing the old endpoint with the new one, so
    /// insertions of new endpoints and metadata changes for
    /// existing ones can be handled in the same way.
    pub fn poll(&mut self) -> (r: Poll<
        Change<SocketAddr, M::Value>,
        DiscoverError<R::Error, M::Error>,
    >)
        requires
            forall|endpoint: R::Endpoint| #[trigger] old(self).make.accepts(endpoint),
        ensures
            final(self).make == old(self).make,
            exists|polled: Poll<Update<R::Endpoint>, R::Error>| #[trigger]
                old(self).resolution.polls(polled, final(self).resolution) && discovers(
                    old(self).make,
                    polled,
                    r,
                ),
    {
        let polled = self.resolution.poll();
        let ghost witness = polled;
        assert(old(self).resolution.polls(witness, self.resolution));
        match polled {
            Err(e) => Err(DiscoverError::Resolve(e)),
            Ok(Async::NotReady) => Ok(Async::NotReady),
            Ok(Async::Ready(Change::Insert(addr, endpoint))) => match self.make.make(&endpoint) {
                Ok(service) => Ok(Async::Ready(Change::Insert(addr, service))),
                Err(e) => Err(DiscoverError::Stack(e)),
            },
            Ok(Async::Ready(Change::Remove(addr))) => Ok(Async::Ready(Change::Remove(addr))),
        }
    }
}

/// Load decays over ten seconds unless something else is asked for, and then over that.
pub proof fn decay_is_as_asked<T, R>(
    resolve: R,
    layer: Layer<T, R>,
    decay: Duration,
    other: Layer<T, R>,
)
    requires
        call_ensures(Layer::<T, R>::new, (resolve,), layer),
        call_ensures(Layer::<T, R>::with_decay, (layer, decay), other),
    ensures
        layer.decay == (Duration { secs: 10, nanos: 0 }),
        other.decay == decay,
        other.resolve == layer.resolve,
        layer.resolve == resolve,
{
}

/// A balancer is over the endpoints of its target, each of which is served at its own address by
/// a service that was built for it. What is removed is removed, and what fails is told.
pub proof fn endpoints_are_served_at_their_address<E, RE, M: stack::Stack<E>>(
    make: M,
    polled: Poll<Update<E>, RE>,
    r: Poll<Change<SocketAddr, M::Value>, DiscoverError<RE, M::Error>>,
)
    requires
        discovers(make, polled, r),
    ensures
        match (polled, r) {
            (Err(e), Err(DiscoverError::Resolve(f))) => e == f,
            (Ok(Async::NotReady), Ok(Async::NotReady)) => true,
            (Ok(Async::Ready(Change::Remove(a))), Ok(Async::Ready(Change::Remove(b)))) => a == b,
            (
                Ok(Async::Ready(Change::Insert(a, endpoint))),
                Ok(Async::Ready(Change::Insert(b, service))),
            ) => a == b && make.makes(endpoint, Ok(service)),
            (
                Ok(Async::Ready(Change::Insert(_, endpoint))),
                Err(DiscoverError::Stack(e)),
            ) => make.makes(endpoint, Err(e)),
            _ => false,
        },
{
}

/// A balancer is over what its target resolves to, and measures load as its layer was told to.
pub proof fn balancers_are_over_their_target<T, R: Resolve<T>, M: stack::Stack<R::Endpoint> + Clone>(
    make: Make<T, R, M>,
    target: T,
    r: Result<Balanced<R::Resolution, M>, M::Error>,
)
    requires
        call_ensures(<Make<T, R, M> as stack::Stack<T>>::make, (&make, &target), r),
    ensures
        r matches Ok(balanced) && make.resolve.resolves(target, balanced.discover.resolution)
            && balanced.decay == make.decay && cloned(make.inner, balanced.discover.make),
{
}

/// Each poll of the discovery asks the resolution once, and tells what comes of that and nothing
/// else: each update is told at its own address, with a service that was built for the endpoint.
pub proof fn each_update_is_told<R: Resolution, M: stack::Stack<R::Endpoint>>(
    discover: &mut Discover<R, M>,
    r: Poll<Change<SocketAddr, M::Value>, DiscoverError<R::Error, M::Error>>,
)
    requires
        call_ensures(Discover::<R, M>::poll, (discover,), r),
    ensures
        final(discover).make == old(discover).make,
        exists|polled: Poll<Update<R::Endpoint>, R::Error>| #[trigger]
            old(discover).resolution.polls(polled, final(discover).resolution) && match (polled, r) {
                (Err(e), Err(DiscoverError::Resolve(f))) => e == f,
                (Ok(Async::NotReady), Ok(Async::NotReady)) => true,
                (
                    Ok(Async::Ready(Change::Remove(a))),
                    Ok(Async::Ready(Change::Remove(b))),
                ) => a == b,
                (
                    Ok(Async::Ready(Change::Insert(a, endpoint))),
                    Ok(Async::Ready(Change::Insert(b, service))),
                ) => a == b && old(discover).make.makes(endpoint, Ok(service)),
                (
                    Ok(Async::Ready(Change::Insert(_, endpoint))),
                    Err(DiscoverError::Stack(e)),
                ) => old(discover).make.makes(endpoint, Err(e)),
                _ => false,
            },
{
}

} // verus!
