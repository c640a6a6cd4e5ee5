//! Changes the targets of a stack.
use crate::stack;
use vstd::prelude::*;

verus! {

/// Changes targets.
pub trait MapTarget<T>: Sized {
    type Target;

    /// Whether `t` can be changed.
    spec fn accepts(&self, t: T) -> bool;

    /// Whether `t` may be changed to `r`.
    spec fn maps(&self, t: T, r: Self::Target) -> bool;

    /// Changes a target.
    fn map_target(&self, t: &T) -> (r: Self::Target)
        requires
            self.accepts(*t),
        ensures
            self.maps(*t, r),
    ;
}

impl<F, T, U> MapTarget<T> for F where F: Fn(&T) -> U {
    type Target = U;

    open spec fn accepts(&self, t: T) -> bool {
        call_requires(*self, (&t,))
    }

    open spec fn maps(&self, t: T, r: U) -> bool {
        call_ensures(*self, (&t,), r)
    }

    fn map_target(&self, t: &T) -> (r: U) {
        (self)(t)
    }
}

/// Changes the targets of the stacks that it wraps.
pub struct Layer<M> {
    pub map_target: M,
}

impl<M: Clone> Clone for Layer<M> {
    fn clone(&self) -> (r: Self)
        ensures
            cloned(self.map_target, r.map_target),
    {
        Layer { map_target: self.map_target.clone() }
    }
}

/// A stack whose targets are changed before they reach it.
pub struct Stack<S, M> {
    pub inner: S,
    pub map_target: M,
}

impl<S: Clone, M: Clone> Clone for Stack<S, M> {
    fn clone(&self) -> (r: Self)
        ensures
            cloned(self.inner, r.inner),
            cloned(self.map_target, r.map_target),
    {
        Stack { inner: self.inner.clone(), map_target: self.map_target.clone() }
    }
}

/// Changes the targets of stacks with `map_target`.
pub fn layer<T, M: MapTarget<T>>(map_target: M) -> (l: Layer<M>)
    ensures
        l == (Layer { map_target }),
{
    Layer { map_target }
}

impl<T, S, M> stack::layer::Layer<T, M::Target, S> for Layer<M> where
    S: stack::Stack<M::Target>,
    M: MapTarget<T> + Clone,
 {
    type Value = S::Value;

    type Error = S::Error;

    type Stack = Stack<S, M>;

    open spec fn binds(&self, next: S, stack: Stack<S, M>) -> bool {
        stack.inner == next && cloned(self.map_target, stack.map_target)
    }

    fn bind(&self, next: S) -> (stack: Stack<S, M>) {
        Stack { inner: next, map_target: self.map_target.clone() }
    }
}

impl<T, S, M> stack::Stack<T> for Stack<S, M> where S: stack::Stack<M::Target>, M: MapTarget<T> {
    type Value = S::Value;

    type Error = S::Error;

    open spec fn accepts(&self, target: T) -> bool {
        &&& self.map_target.accepts(target)
        &&& forall|t: M::Target| #[trigger]
            self.map_target.maps(target, t) ==> self.inner.accepts(t)
    }

    open spec fn makes(&self, target: T, r: Result<S::Value, S::Error>) -> bool {
        exists|t: M::Target| #[trigger]
            self.map_target.maps(target, t) && self.inner.makes(t, r)
    }

    fn make(&self, target: &T) -> (r: Result<S::Value, S::Error>) {
        let t = self.map_target.map_target(target);
        self.inner.make(&t)
    }
}

/// The inner stack builds for what the target is changed to, and its result is handed on.
pub proof fn only_targets_are_changed<T, M: MapTarget<T>, S: stack::Stack<M::Target>>(
    stack: Stack<S, M>,
    target: T,
    r: Result<S::Value, S::Error>,
)
    requires
        call_ensures(<Stack<S, M> as stack::Stack<T>>::make, (&stack, &target), r),
    ensures
        exists|t: M::Target| #[trigger]
            stack.map_target.maps(target, t) && stack.inner.makes(t, r),
{
}

} // verus!
