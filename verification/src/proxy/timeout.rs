//! Limits how long a service may take.
use crate::stack;
use crate::time::Duration;
use std::marker::PhantomData;
use vstd::prelude::*;

verus! {

/// A service that may only take a limited time.
#[derive(Debug)]
pub struct Timeout<S> {
    pub inner: S,
    pub duration: Duration,
}

/// Limits how long the services of a stack may take.
pub struct Layer<T, M> {
    pub timeout: Duration,
    pub _p: PhantomData<(T, M)>,
}

/// A stack whose services may only take a limited time.
pub struct Make<T, M> {
    pub inner: M,
    pub timeout: Duration,
    pub _p: PhantomData<T>,
}

impl<T, M> Layer<T, M> {
    /// Limits services to `timeout`.
    pub fn new(timeout: Duration) -> (l: Self)
        ensures
            l.timeout == timeout,
    {
        Layer { timeout, _p: PhantomData }
    }
}

impl<T, M: stack::Stack<T>> stack::layer::Layer<T, T, M> for Layer<T, M> {
    type Value = Timeout<M::Value>;

    type Error = M::Error;

    type Stack = Make<T, M>;

    open spec fn binds(&self, next: M, stack: Make<T, M>) -> bool {
        stack.inner == next && stack.timeout == self.timeout
    }

    fn bind(&self, next: M) -> (stack: Make<T, M>) {
        Make { inner: next, timeout: self.timeout, _p: PhantomData }
    }
}

impl<T, M: stack::Stack<T>> stack::Stack<T> for Make<T, M> {
    type Value = Timeout<M::Value>;

    type Error = M::Error;

    open spec fn accepts(&self, target: T) -> bool {
        self.inner.accepts(target)
    }

    open spec fn makes(&self, target: T, r: Result<Timeout<M::Value>, M::Error>) -> bool {
        match r {
            Ok(limited) => {
                &&& self.inner.makes(target, Ok(limited.inner))
                &&& limited.duration == self.timeout
            },
            Err(e) => self.inner.makes(target, Err(e)),
        }
    }

    fn make(&self, target: &T) -> (r: Result<Timeout<M::Value>, M::Error>) {
        match self.inner.make(target) {
            Ok(inner) => Ok(Timeout { inner, duration: self.timeout }),
            Err(e) => Err(e),
        }
    }
}

/// Every service that is built may take the time that the layer was made with, and no other.
pub proof fn services_have_the_time_of_their_layer<T, M: stack::Stack<T>>(
    timeout: Duration,
    layer: Layer<T, M>,
    next: M,
    stack: Make<T, M>,
    target: T,
    r: Result<Timeout<M::Value>, M::Error>,
)
    requires
        call_ensures(Layer::<T, M>::new, (timeout,), layer),
        call_ensures(<Layer<T, M> as stack::layer::Layer<T, T, M>>::bind, (&layer, next), stack),
        call_ensures(<Make<T, M> as stack::Stack<T>>::make, (&stack, &target), r),
    ensures
        r matches Ok(limited) ==> limited.duration == timeout && next.makes(
            target,
            Ok(limited.inner),
        ),
        r matches Err(e) ==> next.makes(target, Err(e)),
{
}

} // verus!
