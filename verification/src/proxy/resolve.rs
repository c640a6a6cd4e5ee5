//! Discovers the endpoints of a destination.
use crate::addr::SocketAddr;
use crate::poll::{Async, Poll};
use crate::stack;
use vstd::prelude::*;

verus! {

/// A change of a set of services.
#[derive(Debug, PartialEq, Eq)]
pub enum Change<K, V> {
    /// A service is added, or takes the place of the one with the same key.
    Insert(K, V),
    /// A service is removed.
    Remove(K),
}

/// A change of a set of endpoints.
pub type Update<E> = Change<SocketAddr, E>;

/// Resolves `T`-typed names/addresses as a `Resolution`.
pub trait Resolve<T>: Sized {
    type Endpoint;

    type Resolution: Resolution<Endpoint = Self::Endpoint>;

    /// Whether resolving `target` may give `r`.
    spec fn resolves(&self, target: T, r: Self::Resolution) -> bool;

    /// Begins to resolve a target.
    fn resolve(&self, target: &T) -> (r: Self::Resolution)
        ensures
            self.resolves(*target, r),
    ;
}

/// An infinite stream of endpoint updates.
pub trait Resolution: Sized {
    type Endpoint;

    type Error;

    /// Whether polling may give `r`, and take the resolution to `post`.
    spec fn polls(self, r: Poll<Update<Self::Endpoint>, Self::Error>, post: Self) -> bool;

    /// Asks for the next update.
    fn poll(&mut self) -> (r: Poll<Update<Self::Endpoint>, Self::Error>)
        ensures
            old(self).polls(r, *final(self)),
    ;
}

/// Something that knows the endpoint that it belongs to.
pub trait HasEndpoint: Sized {
    type Endpoint;

    /// The endpoint.
    spec fn endpoint_of(self) -> Self::Endpoint;

    /// The endpoint.
    fn endpoint(&self) -> (e: &Self::Endpoint)
        ensures
            *e == self.endpoint_of(),
    ;
}

/// Makes stacks build services for all endpoints of a target.
#[derive(Debug)]
pub struct Layer<R> {
    pub resolve: R,
}

impl<R: Clone> Clone for Layer<R> {
    fn clone(&self) -> (r: Self)
        ensures
            cloned(self.resolve, r.resolve),
    {
        Layer { resolve: self.resolve.clone() }
    }
}

/// A stack that builds services for all endpoints of a target.
#[derive(Debug)]
pub struct Stack<R, M> {
    pub resolve: R,
    pub inner: M,
}

impl<R: Clone, M: Clone> Clone for Stack<R, M> {
    fn clone(&self) -> (r: Self)
        ensures
            cloned(self.resolve, r.resolve),
            cloned(self.inner, r.inner),
    {
        Stack { resolve: self.resolve.clone(), inner: self.inner.clone() }
    }
}

/// Why no endpoint could be discovered.
#[derive(Debug)]
pub enum DiscoverError<R, M> {
    /// The target could not be resolved.
    Resolve(R),
    /// No service could be built for an endpoint.
    Stack(M),
}

/// Observes an `R`-typed resolution stream, using an `M`-typed endpoint stack to
/// build a service for each endpoint.
#[derive(Debug)]
pub struct Discover<R, M> {
    pub resolution: R,
    pub make: M,
}

/// A service, and the endpoint that it is for.
#[derive(Debug)]
pub struct EndpointService<E, S> {
    pub endpoint: E,
    pub service: S,
}

/// Resolves targets with `resolve`.
pub fn layer<T, R: Resolve<T> + Clone>(resolve: R) -> (l: Layer<R>)
    ensures
        l == (Layer { resolve }),
{
    Layer { resolve }
}

impl<T, R: Resolve<T> + Clone, M: stack::Stack<R::Endpoint> + Clone> stack::layer::Layer<
    T,
    R::Endpoint,
    M,
> for Layer<R> {
    type Value = Discover<R::Resolution, M>;

    type Error = DiscoverError<<R::Resolution as Resolution>::Error, M::Error>;

    type Stack = Stack<R, M>;

    open spec fn binds(&self, next: M, stack: Stack<R, M>) -> bool {
        cloned(self.resolve, stack.resolve) && stack.inner == next
    }

    fn bind(&self, next: M) -> (stack: Stack<R, M>) {
        Stack { resolve: self.resolve.clone(), inner: next }
    }
}

impl<T, R: Resolve<T>, M: stack::Stack<R::Endpoint> + Clone> stack::Stack<T> for Stack<R, M> {
    type Value = Discover<R::Resolution, M>;

    type Error = DiscoverError<<R::Resolution as Resolution>::Error, M::Error>;

    open spec fn accepts(&self, target: T) -> bool {
        true
    }

    open spec fn makes(&self, target: T, r: Result<Self::Value, Self::Error>) -> bool {
        &&& r matches Ok(discover)
        &&& self.resolve.resolves(target, discover.resolution)
        &&& cloned(self.inner, discover.make)
    }

    fn make(&self, target: &T) -> (r: Result<Self::Value, Self::Error>) {
        let resolution = self.resolve.resolve(target);
        Ok(Discover { resolution, make: self.inner.clone() })
    }
}

/// Whether `r` is what discovery makes of `polled`: each new endpoint comes with a service
/// that was built for it, and everything else is passed on.
pub open spec fn discovers<E, RE, M: stack::Stack<E>>(
    make: M,
    polled: Poll<Update<E>, RE>,
    r: Poll<Change<SocketAddr, EndpointService<E, M::Value>>, DiscoverError<RE, M::Error>>,
) -> bool {
    match polled {
        Err(e) => r matches Err(DiscoverError::Resolve(err)) && err == e,
        Ok(Async::NotReady) => r matches Ok(Async::NotReady),
        Ok(Async::Ready(Change::Remove(addr))) => r matches Ok(Async::Ready(Change::Remove(a)))
            && a == addr,
        Ok(Async::Ready(Change::Insert(addr, endpoint))) => match r {
            Ok(Async::Ready(Change::Insert(a, service))) => {
                &&& a == addr
                &&& service.endpoint == endpoint
                &&& make.makes(endpoint, Ok(service.service))
            },
            Err(DiscoverError::Stack(e)) => make.makes(endpoint, Err(e)),
            _ => false,
        },
    }
}

impl<R: Resolution, M: stack::Stack<R::Endpoint>> Discover<R, M> {
    /// Asks for the next change, and builds the service for a new endpoint.
    pub fn poll(&mut self) -> (r: Poll<
        Change<SocketAddr, EndpointService<R::Endpoint, M::Value>>,
        DiscoverError<R::Error, M::Error>,
    >)
        requires
            forall|endpoint: R::Endpoint| #[trigger] old(self).make.accepts(endpoint),
        ensures
            final(self).make == old(self).make,
            exists|polled: Poll<Update<R::Endpoint>, R::Error>| #[trigger]
                old(self).resolution.polls(polled, final(self).resolution) && discovers(
                    old(self).make,
                    polled,
                    r,
                ),
    {
        let polled = self.resolution.poll();
        let ghost witness = polled;
        assert(old(self).resolution.polls(witness, self.resolution));
        match polled {
            Err(e) => Err(DiscoverError::Resolve(e)),
            Ok(Async::NotReady) => Ok(Async::NotReady),
            Ok(Async::Ready(Change::Insert(addr, endpoint))) => match self.make.make(&endpoint) {
                Ok(service) => Ok(
                    Async::Ready(Change::Insert(addr, EndpointService { endpoint, service })),
                ),
                Err(e) => Err(DiscoverError::Stack(e)),
            },
            Ok(Async::Ready(Change::Remove(addr))) => Ok(Async::Ready(Change::Remove(addr))),
        }
    }
}

/// What is there after a number of changes.
pub open spec fn after<K, V>(changes: Seq<Change<K, V>>) -> Map<K, V>
    decreases changes.len(),
{
    if changes.len() == 0 {
        Map::empty()
    } else {
        match changes.last() {
            Change::Insert(key, value) => after(changes.drop_last()).insert(key, value),
            Change::Remove(key) => after(changes.drop_last()).remove(key),
        }
    }
}

/// The services that discovery has announced are those of the endpoints that there are: one
/// for each address at which there is an endpoint, built for the latest that is known of it.
pub proof fn discovery_mirrors_resolution<E, RE, M: stack::Stack<E>>(
    make: M,
    updates: Seq<Update<E>>,
    changes: Seq<Change<SocketAddr, EndpointService<E, M::Value>>>,
)
    requires
        updates.len() == changes.len(),
        forall|i: int|
            0 <= i < updates.len() ==> discovers::<E, RE, M>(
                make,
                Ok(Async::Ready(#[trigger] updates[i])),
                Ok(Async::Ready(changes[i])),
            ),
    ensures
        after(changes).dom() == after(updates).dom(),
        forall|addr: SocketAddr| #[trigger]
            after(changes).contains_key(addr) ==> after(changes)[addr].endpoint == after(
                updates,
            )[addr] && make.makes(after(updates)[addr], Ok(after(changes)[addr].service)),
    decreases updates.len(),
{
    if updates.len() > 0 {
        let n = updates.len() - 1;
        assert(discovers::<E, RE, M>(
            make,
            Ok(Async::Ready(updates[n])),
            Ok(Async::Ready(changes[n])),
        ));
        assert forall|i: int| 0 <= i < updates.drop_last().len() implies discovers::<E, RE, M>(
            make,
            Ok(Async::Ready(#[trigger] updates.drop_last()[i])),
            Ok(Async::Ready(changes.drop_last()[i])),
        ) by {
            assert(updates.drop_last()[i] == updates[i]);
        }
        discovery_mirrors_resolution::<E, RE, M>(make, updates.drop_last(), changes.drop_last());
    }
    assert(after(changes).dom() =~= after(updates).dom());
}

impl<E, S> HasEndpoint for EndpointService<E, S> {
    type Endpoint = E;

    open spec fn endpoint_of(self) -> E {
        self.endpoint
    }

    fn endpoint(&self) -> (e: &E) {
        &self.endpoint
    }
}

/// A change concerns its own key: what is inserted is there, what is removed is not, and whatever
/// has another key is as it was. Of several values for one key the last one counts.
pub proof fn changes_concern_their_key<K, V>(
    before: Seq<Change<K, V>>,
    change: Change<K, V>,
    other: K,
)
    ensures
        change matches Change::Insert(key, value) ==> after(before.push(change)).contains_key(key)
            && after(before.push(change))[key] == value,
        change matches Change::Remove(key) ==> !after(before.push(change)).contains_key(key),
        ({
            let key = match change {
                Change::Insert(key, _) => key,
                Change::Remove(key) => key,
            };
            other != key ==> after(before.push(change)).contains_key(other) == after(
                before,
            ).contains_key(other) && after(before.push(change))[other] == after(before)[other]
        }),
        after(Seq::<Change<K, V>>::empty()) == Map::<K, V>::empty(),
{
    assert(before.push(change).drop_last() =~= before);
}

/// An endpoint that is discovered comes at its own address, with a service that was built for it.
/// What is removed is removed, and what fails is told.
pub proof fn endpoints_come_with_their_service<E, RE, M: stack::Stack<E>>(
    make: M,
    polled: Poll<Update<E>, RE>,
    r: Poll<Change<SocketAddr, EndpointService<E, M::Value>>, DiscoverError<RE, M::Error>>,
)
    requires
        discovers(make, polled, r),
    ensures
        match (polled, r) {
            (Err(e), Err(DiscoverError::Resolve(f))) => e == f,
            (Ok(Async::NotReady), Ok(Async::NotReady)) => true,
            (Ok(Async::Ready(Change::Remove(a))), Ok(Async::Ready(Change::Remove(b)))) => a == b,
            (
                Ok(Async::Ready(Change::Insert(a, endpoint))),
                Ok(Async::Ready(Change::Insert(b, service))),
            ) => a == b && service.endpoint == endpoint && make.makes(
                endpoint,
                Ok(service.service),
            ),
            (
                Ok(Async::Ready(Change::Insert(_, endpoint))),
                Err(DiscoverError::Stack(e)),
            ) => make.makes(endpoint, Err(e)),
            _ => false,
        },
{
}

/// Discovery is of what its target resolves to.
pub proof fn discovery_is_of_its_target<T, R: Resolve<T>, M: stack::Stack<R::Endpoint> + Clone>(
    stack: Stack<R, M>,
    target: T,
    r: Result<
        Discover<R::Resolution, M>,
        DiscoverError<<R::Resolution as Resolution>::Error, M::Error>,
    >,
)
    requires
        call_ensures(<Stack<R, M> as stack::Stack<T>>::make, (&stack, &target), r),
    ensures
        r matches Ok(discover) && stack.resolve.resolves(target, discover.resolution) && cloned(
            stack.inner,
            discover.make,
        ),
{
}

/// Each poll of the discovery asks the resolution once, and tells what comes of that and nothing
/// else: each update is told at its own address, with the endpoint and a service built for it.
pub proof fn each_update_is_told<R: Resolution, M: stack::Stack<R::Endpoint>>(
    discover: &mut Discover<R, M>,
    r: Poll<
        Change<SocketAddr, EndpointService<R::Endpoint, M::Value>>,
        DiscoverError<R::Error, M::Error>,
    >,
)
    requires
        call_ensures(Discover::<R, M>::poll, (discover,), r),
    ensures
        final(discover).make == old(discover).make,
        exists|polled: Poll<Update<R::Endpoint>, R::Error>| #[trigger]
            old(discover).resolution.polls(polled, final(discover).resolution) && match (polled, r) {
                (Err(e), Err(DiscoverError::Resolve(f))) => e == f,
                (Ok(Async::NotReady), Ok(Async::NotReady)) => true,
                (
                    Ok(Async::Ready(Change::Remove(a))),
                    Ok(Async::Ready(Change::Remove(b))),
                ) => a == b,
                (
                    Ok(Async::Ready(Change::Insert(a, endpoint))),
                    Ok(Async::Ready(Change::Insert(b, service))),
                ) => a == b && service.endpoint == endpoint
                    && old(discover).make.makes(endpoint, Ok(service.service)),
                (
                    Ok(Async::Ready(Change::Insert(_, endpoint))),
                    Err(DiscoverError::Stack(e)),
                ) => old(discover).make.makes(endpoint, Err(e)),
                _ => false,
            },
{
}

} // verus!
