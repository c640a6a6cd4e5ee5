//! Buffers requests to services.
use crate::stack;
use std::marker::PhantomData;
use vstd::prelude::*;

verus! {

/// Buffers requests to the services of a stack.
#[derive(Debug)]
pub struct Layer<T, M> {
    pub _p: PhantomData<(T, M)>,
}

impl<T, M> Clone for Layer<T, M> {
    fn clone(&self) -> (r: Self)
        ensures
            r == *self,
    {
        Layer { _p: PhantomData }
    }
}

/// A stack to whose services requests are buffered.
#[derive(Debug)]
pub struct Make<T, M> {
    pub inner: M,
    pub _p: PhantomData<T>,
}

/// Why there is no buffered service.
#[derive(Debug)]
pub enum BufferError<M, S> {
    /// The service could not be built.
    Make(M),
    /// The task that serves the buffer could not be spawned.
    Spawn(S),
}

impl<T, M> Layer<T, M> {
    /// Buffers requests to the services of a stack.
    pub fn new() -> (l: Self)
        ensures
            l == (Layer::<T, M> { _p: PhantomData }),
    {
        Layer { _p: PhantomData }
    }

    /// Wraps a stack.
    pub fn bind(&self, inner: M) -> (m: Make<T, M>)
        ensures
            m.inner == inner,
    {
        Make { inner, _p: PhantomData }
    }
}

impl<T, M: Clone> Clone for Make<T, M> {
    fn clone(&self) -> (r: Self)
        ensures
            cloned(self.inner, r.inner),
    {
        Make { inner: self.inner.clone(), _p: PhantomData }
    }
}

/// Whether `spawned` may come of spawning a buffer for a service that was built.
pub open spec fn spawns<T, M: stack::Stack<T>, Buf, S, F: Fn(M::Value, &T) -> Result<Buf, S>>(
    inner: M,
    target: T,
    spawn: F,
    spawned: Result<Buf, S>,
) -> bool {
    exists|v: M::Value| #[trigger]
        inner.makes(target, Ok(v)) && call_ensures(spawn, (v, &target), spawned)
}

/// Whether `r` may come of building a service and spawning its buffer.
pub open spec fn is_buffered<T, M: stack::Stack<T>, Buf, S, F: Fn(M::Value, &T) -> Result<Buf, S>>(
    inner: M,
    target: T,
    spawn: F,
    r: Result<Buf, BufferError<M::Error, S>>,
) -> bool {
    match r {
        Ok(buffer) => spawns(inner, target, spawn, Ok(buffer)),
        Err(BufferError::Make(e)) => inner.makes(target, Err(e)),
        Err(BufferError::Spawn(e)) => spawns(inner, target, spawn, Err(e)),
    }
}

impl<T, M: stack::Stack<T>> Make<T, M> {
    /// Builds a service, and spawns its buffer with `spawn`.
    pub fn make<Buf, S, F: Fn(M::Value, &T) -> Result<Buf, S>>(&self, target: &T, spawn: &F) -> (r:
        Result<Buf, BufferError<M::Error, S>>)
        requires
            self.inner.accepts(*target),
            forall|v: M::Value| #[trigger] call_requires(*spawn, (v, target)),
        ensures
            is_buffered(self.inner, *target, *spawn, r),
    {
        match self.inner.make(target) {
            Ok(v) => {
                let ghost made = v;
                assert(self.inner.makes(*target, Ok(made)));
                let spawned = spawn(v, target);
                let ghost outcome = spawned;
                assert(spawns(self.inner, *target, *spawn, outcome));
                match spawned {
                    Ok(buffer) => Ok(buffer),
                    Err(e) => Err(BufferError::Spawn(e)),
                }
            },
            Err(e) => Err(BufferError::Make(e)),
        }
    }
}

/// A buffer is spawned for the service that was built for the target. That no service could be
/// built is told apart from that no buffer could be spawned.
pub proof fn buffers_are_for_built_services<
    T,
    M: stack::Stack<T>,
    Buf,
    S,
    F: Fn(M::Value, &T) -> Result<Buf, S>,
>(make: Make<T, M>, target: T, spawn: F, r: Result<Buf, BufferError<M::Error, S>>)
    requires
        call_ensures(Make::<T, M>::make::<Buf, S, F>, (&make, &target, &spawn), r),
    ensures
        match r {
            Ok(buffer) => exists|v: M::Value| #[trigger]
                make.inner.makes(target, Ok(v)) && call_ensures(spawn, (v, &target), Ok(buffer)),
            Err(BufferError::Make(e)) => make.inner.makes(target, Err(e)),
            Err(BufferError::Spawn(e)) => exists|v: M::Value| #[trigger]
                make.inner.makes(target, Ok(v)) && call_ensures(spawn, (v, &target), Err(e)),
        },
{
}

} // verus!
