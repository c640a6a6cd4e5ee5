//! Services that are rebuilt when a value changes.
use crate::stack::Stack;
use vstd::prelude::*;

verus! {

/// Builds services for a target and the value that is current.
pub struct Make<M> {
    pub inner: M,
}

impl<M: Clone> Clone for Make<M> {
    fn clone(&self) -> (r: Self)
        ensures
            cloned(self.inner, r.inner),
    {
        Make { inner: self.inner.clone() }
    }
}

/// A service that updates itself as a watched value updates.
pub struct Service<T, V> {
    /// What the service is built for, besides the value.
    pub target: T,
    /// The service for the latest value that one could be built for.
    pub inner: V,
}

/// Why a service failed.
#[derive(Debug)]
pub enum WatchError<I, M> {
    /// It could not be rebuilt.
    Make(M),
    /// It failed by itself.
    Inner(I),
}

impl<M> Make<M> {
    /// Builds a service for the value that is current.
    pub fn make<T, V, S>(&self, target: &T, value: &V) -> (r: Result<Service<T, S>, M::Error>) where
        T: Clone,
        V: Clone,
        M: Stack<(T, V), Value = S>,

        requires
            forall|t: T, v: V| #[trigger]
                is_clone_of(*target, t, *value, v) ==> self.inner.accepts((t, v)),
        ensures
            exists|t: T, v: V| #[trigger]
                is_clone_of(*target, t, *value, v) && match r {
                    Ok(service) => {
                        &&& cloned(*target, service.target)
                        &&& self.inner.makes((t, v), Ok(service.inner))
                    },
                    Err(e) => self.inner.makes((t, v), Err(e)),
                },
    {
        let t = target.clone();
        let v = value.clone();
        assert(is_clone_of(*target, t, *value, v));
        match self.inner.make(&(t, v)) {
            Ok(inner) => Ok(Service { target: target.clone(), inner }),
            Err(e) => Err(e),
        }
    }

    /// Rebuilds a service for a new value. If that fails, the service stays as it was.
    pub fn rebind<T, V, S>(&self, service: &mut Service<T, S>, value: &V) -> (r: Result<
        (),
        M::Error,
    >) where T: Clone, V: Clone, M: Stack<(T, V), Value = S>
        requires
            forall|t: T, v: V| #[trigger]
                is_clone_of(old(service).target, t, *value, v) ==> self.inner.accepts((t, v)),
        ensures
            final(service).target == old(service).target,
            exists|t: T, v: V| #[trigger]
                is_clone_of(old(service).target, t, *value, v) && match r {
                    Ok(()) => self.inner.makes((t, v), Ok(final(service).inner)),
                    Err(e) => {
                        &&& self.inner.makes((t, v), Err(e))
                        &&& final(service).inner == old(service).inner
                    },
                },
    {
        let t = service.target.clone();
        let v = value.clone();
        assert(is_clone_of(service.target, t, *value, v));
        match self.inner.make(&(t, v)) {
            Ok(inner) => {
                service.inner = inner;
                Ok(())
            },
            Err(e) => Err(e),
        }
    }
}

/// Whether `t` and `v` are clones of a target and a value.
pub open spec fn is_clone_of<T: Clone, V: Clone>(target: T, t: T, value: V, v: V) -> bool {
    cloned(target, t) && cloned(value, v)
}

/// A service is rebuilt for its own target and the new value. If that fails, the error is told and
/// the service stays as it was.
pub proof fn services_follow_the_value<T: Clone, V: Clone, S, M: Stack<(T, V), Value = S>>(
    make: Make<M>,
    service: &mut Service<T, S>,
    value: V,
    r: Result<(), M::Error>,
)
    requires
        call_ensures(Make::<M>::rebind::<T, V, S>, (&make, service, &value), r),
    ensures
        final(service).target == old(service).target,
        r is Err ==> final(service).inner == old(service).inner,
        r is Ok ==> exists|t: T, v: V| #[trigger]
            make.inner.makes((t, v), Ok(final(service).inner)) && cloned(old(service).target, t)
                && cloned(value, v),
        r matches Err(e) ==> exists|t: T, v: V| #[trigger]
            make.inner.makes((t, v), Err(e)) && cloned(old(service).target, t) && cloned(value, v),
{
}

/// A service is built for its target and the value that is current, and knows its target.
pub proof fn services_begin_with_the_value<T: Clone, V: Clone, S, M: Stack<(T, V), Value = S>>(
    make: Make<M>,
    target: T,
    value: V,
    r: Result<Service<T, S>, M::Error>,
)
    requires
        call_ensures(Make::<M>::make::<T, V, S>, (&make, &target, &value), r),
    ensures
        r matches Ok(service) ==> cloned(target, service.target) && exists|t: T, v: V| #[trigger]
            make.inner.makes((t, v), Ok(service.inner)) && cloned(target, t) && cloned(value, v),
        r matches Err(e) ==> exists|t: T, v: V| #[trigger]
            make.inner.makes((t, v), Err(e)) && cloned(target, t) && cloned(value, v),
{
}

} // verus!
