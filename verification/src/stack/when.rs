//! Applies a layer to some targets only.
use crate::stack;
use crate::stack::either::Either;
use vstd::prelude::*;

verus! {

/// A condition on targets.
pub trait Predicate<T>: Sized {
    /// Whether the condition can be asked of `t`.
    spec fn accepts(&self, t: T) -> bool;

    /// Whether the condition may be found to be `r` on `t`.
    spec fn applies(&self, t: T, r: bool) -> bool;

    /// Tests the condition.
    fn apply(&self, t: &T) -> (r: bool)
        requires
            self.accepts(*t),
        ensures
            self.applies(*t, r),
    ;
}

impl<T, F: Fn(&T) -> bool> Predicate<T> for F {
    open spec fn accepts(&self, t: T) -> bool {
        call_requires(*self, (&t,))
    }

    open spec fn applies(&self, t: T, r: bool) -> bool {
        call_ensures(*self, (&t,), r)
    }

    fn apply(&self, t: &T) -> (r: bool) {
        (self)(t)
    }
}

/// Applies an inner layer to the targets that a predicate applies to.
pub struct Layer<P, L> {
    pub predicate: P,
    pub inner: L,
}

/// A stack that is wrapped with a layer for the targets that a predicate applies to.
pub struct Stack<P, N, L> {
    pub predicate: P,
    pub next: N,
    pub layer: L,
}

impl<P, L> Layer<P, L> {
    /// Applies `inner` to the targets that `predicate` applies to.
    pub fn new(predicate: P, inner: L) -> (l: Layer<P, L>)
        ensures
            l == (Layer { predicate, inner }),
    {
        Layer { predicate, inner }
    }
}

impl<P: Clone, L: Clone> Clone for Layer<P, L> {
    fn clone(&self) -> (r: Self)
        ensures
            cloned(self.predicate, r.predicate),
            cloned(self.inner, r.inner),
    {
        Layer::new(self.predicate.clone(), self.inner.clone())
    }
}

impl<P: Clone, N: Clone, L: Clone> Clone for Stack<P, N, L> {
    fn clone(&self) -> (r: Self)
        ensures
            cloned(self.predicate, r.predicate),
            cloned(self.next, r.next),
            cloned(self.layer, r.layer),
    {
        Stack {
            predicate: self.predicate.clone(),
            next: self.next.clone(),
            layer: self.layer.clone(),
        }
    }
}

impl<T, P, N, L> stack::layer::Layer<T, T, N> for Layer<P, L> where
    P: Predicate<T> + Clone,
    N: stack::Stack<T> + Clone,
    L: stack::layer::Layer<T, T, N, Error = N::Error> + Clone,
 {
    type Value = Either<N::Value, L::Value>;

    type Error = N::Error;

    type Stack = Stack<P, N, L>;

    open spec fn binds(&self, next: N, stack: Stack<P, N, L>) -> bool {
        &&& cloned(self.predicate, stack.predicate)
        &&& stack.next == next
        &&& cloned(self.inner, stack.layer)
    }

    fn bind(&self, next: N) -> (stack: Stack<P, N, L>) {
        Stack { predicate: self.predicate.clone(), next, layer: self.inner.clone() }
    }
}

impl<P, N, L> Stack<P, N, L> {
    /// Whether `wrapped` may come of wrapping the inner stack with the layer.
    pub open spec fn wraps<T>(self, wrapped: L::Stack) -> bool where
        N: stack::Stack<T> + Clone,
        L: stack::layer::Layer<T, T, N>,
     {
        exists|next: N| cloned(self.next, next) && #[trigger] self.layer.binds(next, wrapped)
    }
}

impl<T, P, N, L> stack::Stack<T> for Stack<P, N, L> where
    P: Predicate<T> + Clone,
    N: stack::Stack<T> + Clone,
    L: stack::layer::Layer<T, T, N, Error = N::Error>,
 {
    type Value = Either<N::Value, L::Value>;

    type Error = N::Error;

    open spec fn accepts(&self, target: T) -> bool {
        &&& self.predicate.accepts(target)
        &&& self.next.accepts(target)
        &&& forall|wrapped: L::Stack| #[trigger] self.wraps(wrapped) ==> wrapped.accepts(target)
    }

    open spec fn makes(&self, target: T, r: Result<Self::Value, N::Error>) -> bool {
        ||| {
            &&& self.predicate.applies(target, false)
            &&& match r {
                Ok(Either::A(v)) => self.next.makes(target, Ok(v)),
                Ok(Either::B(_)) => false,
                Err(e) => self.next.makes(target, Err(e)),
            }
        }
        ||| {
            &&& self.predicate.applies(target, true)
            &&& exists|wrapped: L::Stack| #[trigger]
                self.wraps(wrapped) && match r {
                    Ok(Either::A(_)) => false,
                    Ok(Either::B(v)) => wrapped.makes(target, Ok(v)),
                    Err(e) => wrapped.makes(target, Err(e)),
                }
        }
    }

    fn make(&self, target: &T) -> (r: Result<Self::Value, N::Error>) {
        if !self.predicate.apply(target) {
            match self.next.make(target) {
                Ok(v) => Ok(Either::A(v)),
                Err(e) => Err(e),
            }
        } else {
            let next = self.next.clone();
            let wrapped = self.layer.bind(next);
            assert(self.wraps(wrapped));
            match wrapped.make(target) {
                Ok(v) => Ok(Either::B(v)),
                Err(e) => Err(e),
            }
        }
    }
}

/// Targets that the predicate applies to are built for by the wrapped stack, and all others by the
/// inner stack alone.
pub proof fn only_some_targets_are_wrapped<T, P, N, L>(
    stack: Stack<P, N, L>,
    target: T,
    r: Result<Either<N::Value, L::Value>, N::Error>,
) where
    P: Predicate<T> + Clone,
    N: stack::Stack<T> + Clone,
    L: stack::layer::Layer<T, T, N, Error = N::Error>,

    requires
        call_ensures(<Stack<P, N, L> as stack::Stack<T>>::make, (&stack, &target), r),
    ensures
        !stack.predicate.applies(target, true) ==> match r {
            Ok(Either::A(v)) => stack.next.makes(target, Ok(v)),
            Ok(Either::B(_)) => false,
            Err(e) => stack.next.makes(target, Err(e)),
        },
        !stack.predicate.applies(target, false) ==> !(r matches Ok(Either::A(_))),
        r matches Ok(Either::A(v)) ==> stack.next.makes(target, Ok(v)),
{
}

/// What is built for a target that the predicate applies to comes from the layer around the inner
/// stack.
pub proof fn wrapped_targets_go_through_the_layer<T, P, N, L>(
    when: Stack<P, N, L>,
    target: T,
    r: Result<Either<N::Value, L::Value>, N::Error>,
) where
    P: Predicate<T> + Clone,
    N: stack::Stack<T> + Clone,
    L: stack::layer::Layer<T, T, N, Error = N::Error>,

    requires
        call_ensures(<Stack<P, N, L> as stack::Stack<T>>::make, (&when, &target), r),
        !when.predicate.applies(target, false),
    ensures
        exists|next: N, wrapped: L::Stack|
            cloned(when.next, next) && #[trigger] when.layer.binds(next, wrapped) && match r {
                Ok(Either::A(_)) => false,
                Ok(Either::B(v)) => stack::Stack::makes(&wrapped, target, Ok(v)),
                Err(e) => stack::Stack::makes(&wrapped, target, Err(e)),
            },
{
    let wrapped = choose|wrapped: L::Stack| #[trigger]
        when.wraps(wrapped) && match r {
            Ok(Either::A(_)) => false,
            Ok(Either::B(v)) => stack::Stack::makes(&wrapped, target, Ok(v)),
            Err(e) => stack::Stack::makes(&wrapped, target, Err(e)),
        };
    let next = choose|next: N|
        cloned(when.next, next) && #[trigger] when.layer.binds(next, wrapped);
    assert(when.layer.binds(next, wrapped));
}

} // verus!
