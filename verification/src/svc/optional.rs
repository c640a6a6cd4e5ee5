//! A layer that may be left out.
use crate::stack::either::Either;
use crate::stack::layer::Layer;
use crate::stack::Stack;
use std::marker::PhantomData;
use vstd::prelude::*;

verus! {

/// A layer, or none.
pub struct Optional<N, L> {
    pub layer: Option<L>,
    pub _p: PhantomData<N>,
}

impl<N, L> Optional<N, L> {
    /// A layer.
    pub fn some(layer: L) -> (r: Self)
        ensures
            r.layer == Some(layer),
    {
        Optional { layer: Some(layer), _p: PhantomData }
    }

    /// No layer.
    pub fn none() -> (r: Self)
        ensures
            r.layer == None::<L>,
    {
        Optional { layer: None, _p: PhantomData }
    }

    /// A layer if `predicate` holds. It is only made where it is needed.
    pub fn when<F: FnOnce() -> L>(predicate: bool, mk: F) -> (r: Self)
        requires
            predicate ==> call_requires(mk, ()),
        ensures
            r.layer is Some <==> predicate,
            r.layer matches Some(layer) ==> call_ensures(mk, (), layer),
    {
        if predicate {
            Self::some(mk())
        } else {
            Self::none()
        }
    }
}

impl<T, N: Stack<T>, L: Layer<T, T, N, Error = N::Error>> Layer<T, T, N> for Optional<N, L> {
    type Value = Either<N::Value, L::Value>;

    type Error = N::Error;

    type Stack = Either<N, L::Stack>;

    open spec fn binds(&self, next: N, stack: Either<N, L::Stack>) -> bool {
        match self.layer {
            None => stack == Either::<N, L::Stack>::A(next),
            Some(layer) => stack matches Either::B(s) && layer.binds(next, s),
        }
    }

    fn bind(&self, next: N) -> (stack: Either<N, L::Stack>) {
        match &self.layer {
            None => Either::A(next),
            Some(layer) => Either::B(layer.bind(next)),
        }
    }
}

impl<N, L> From<Option<L>> for Optional<N, L> {
    fn from(orig: Option<L>) -> (r: Self) {
        Optional { layer: orig, _p: PhantomData }
    }
}

impl<N, L> vstd::std_specs::convert::FromSpecImpl<Option<L>> for Optional<N, L> {
    open spec fn obeys_from_spec() -> bool {
        true
    }

    open spec fn from_spec(orig: Option<L>) -> Self {
        Optional { layer: orig, _p: PhantomData }
    }
}

/// A layer is there exactly if it was asked for, and then it wraps. Without one, the stack is
/// handed on as it is.
pub proof fn absent_layers_wrap_nothing<T, N: Stack<T>, L: Layer<T, T, N, Error = N::Error>>(
    optional: Optional<N, L>,
    next: N,
    r: Either<N, L::Stack>,
)
    requires
        call_ensures(<Optional<N, L> as Layer<T, T, N>>::bind, (&optional, next), r),
    ensures
        optional.layer is None ==> r == Either::<N, L::Stack>::A(next),
        optional.layer matches Some(layer) ==> (r matches Either::B(s) && layer.binds(next, s)),
{
}

/// A layer that depends on a condition is made exactly if the condition holds.
pub proof fn layers_are_made_where_needed<N, L, F: FnOnce() -> L>(
    predicate: bool,
    mk: F,
    r: Optional<N, L>,
)
    requires
        call_ensures(Optional::<N, L>::when::<F>, (predicate, mk), r),
    ensures
        r.layer is Some <==> predicate,
        r.layer matches Some(layer) ==> call_ensures(mk, (), layer),
{
}

} // verus!
