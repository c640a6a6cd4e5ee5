//! Sends HTTP/1 to other instances of this proxy over HTTP/2.
use crate::app::outbound::Endpoint;
use crate::stack;
use crate::stack::either::Either;
use vstd::prelude::*;

verus! {

/// A service whose HTTP/1 requests are upgraded to HTTP/2.
#[derive(Debug)]
pub struct Upgrade<S> {
    pub inner: S,
}

/// Makes stacks upgrade requests to endpoints that can take it.
#[derive(Clone, Copy, Debug)]
pub struct Layer;

/// A stack that upgrades requests to endpoints that can take it.
#[derive(Debug)]
pub struct Stack<M> {
    pub inner: M,
}

/// Upgrades requests to endpoints that can take it.
pub fn layer() -> (l: Layer)
    ensures
        l == Layer,
{
    Layer
}

impl<C: Clone, M: stack::Stack<Endpoint<C>>> stack::layer::Layer<
    Endpoint<C>,
    Endpoint<C>,
    M,
> for Layer {
    type Value = Either<Upgrade<M::Value>, M::Value>;

    type Error = M::Error;

    type Stack = Stack<M>;

    open spec fn binds(&self, next: M, stack: Stack<M>) -> bool {
        stack.inner == next
    }

    fn bind(&self, next: M) -> (stack: Stack<M>) {
        Stack { inner: next }
    }
}

impl<C: Clone, M: stack::Stack<Endpoint<C>>> stack::Stack<Endpoint<C>> for Stack<M> {
    type Value = Either<Upgrade<M::Value>, M::Value>;

    type Error = M::Error;

    open spec fn accepts(&self, endpoint: Endpoint<C>) -> bool {
        self.inner.accepts(endpoint)
    }

    /// Exactly the services of other instances of this proxy are upgraded.
    open spec fn makes(&self, endpoint: Endpoint<C>, r: Result<Self::Value, M::Error>) -> bool {
        match r {
            Ok(Either::A(upgrade)) => {
                &&& endpoint.metadata.protocol_hint is Http2
                &&& self.inner.makes(endpoint, Ok(upgrade.inner))
            },
            Ok(Either::B(service)) => {
                &&& endpoint.metadata.protocol_hint is Unknown
                &&& self.inner.makes(endpoint, Ok(service))
            },
            Err(e) => self.inner.makes(endpoint, Err(e)),
        }
    }

    fn make(&self, endpoint: &Endpoint<C>) -> (r: Result<Self::Value, M::Error>) {
        if endpoint.can_use_orig_proto() {
            match self.inner.make(endpoint) {
                Ok(inner) => Ok(Either::A(Upgrade { inner })),
                Err(e) => Err(e),
            }
        } else {
            match self.inner.make(endpoint) {
                Ok(service) => Ok(Either::B(service)),
                Err(e) => Err(e),
            }
        }
    }
}

/// The service of an endpoint is upgraded exactly if the endpoint is another instance of this
/// proxy.
pub proof fn only_other_proxies_are_upgraded<C: Clone, M: stack::Stack<Endpoint<C>>>(
    stack: Stack<M>,
    ep: Endpoint<C>,
    r: Result<Either<Upgrade<M::Value>, M::Value>, M::Error>,
)
    requires
        call_ensures(<Stack<M> as stack::Stack<Endpoint<C>>>::make, (&stack, &ep), r),
    ensures
        ep.metadata.protocol_hint is Http2 ==> !(r matches Ok(Either::B(_))),
        ep.metadata.protocol_hint is Unknown ==> !(r matches Ok(Either::A(_))),
        match r {
            Ok(Either::A(upgrade)) => stack.inner.makes(ep, Ok(upgrade.inner)),
            Ok(Either::B(service)) => stack.inner.makes(ep, Ok(service)),
            Err(e) => stack.inner.makes(ep, Err(e)),
        },
{
}

} // verus!
