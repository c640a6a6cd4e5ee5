//! Changes the errors of a stack.
use crate::stack;
use vstd::prelude::*;

verus! {

/// Changes errors.
pub trait MapErr<Input>: Sized {
    type Output;

    /// Whether `e` can be changed.
    spec fn accepts(&self, e: Input) -> bool;

    /// Whether `e` may be changed to `r`.
    spec fn maps(&self, e: Input, r: Self::Output) -> bool;

    /// Changes an error.
    fn map_err(&self, e: Input) -> (r: Self::Output)
        requires
            self.accepts(e),
        ensures
            self.maps(e, r),
    ;
}

impl<F, I, O> MapErr<I> for F where F: Fn(I) -> O {
    type Output = O;

    open spec fn accepts(&self, e: I) -> bool {
        call_requires(*self, (e,))
    }

    open spec fn maps(&self, e: I, r: O) -> bool {
        call_ensures(*self, (e,), r)
    }

    fn map_err(&self, e: I) -> (r: O) {
        (self)(e)
    }
}

/// Changes the errors of the stacks that it wraps.
pub struct Layer<M> {
    pub map_err: M,
}

impl<M: Clone> Clone for Layer<M> {
    fn clone(&self) -> (r: Self)
        ensures
            cloned(self.map_err, r.map_err),
    {
        Layer { map_err: self.map_err.clone() }
    }
}

/// A stack whose errors are changed.
pub struct Stack<S, M> {
    pub inner: S,
    pub map_err: M,
}

impl<S: Clone, M: Clone> Clone for Stack<S, M> {
    fn clone(&self) -> (r: Self)
        ensures
            cloned(self.inner, r.inner),
            cloned(self.map_err, r.map_err),
    {
        Stack { inner: self.inner.clone(), map_err: self.map_err.clone() }
    }
}

/// Changes the errors of stacks with `map_err`.
pub fn layer<E, M: MapErr<E>>(map_err: M) -> (l: Layer<M>)
    ensures
        l == (Layer { map_err }),
{
    Layer { map_err }
}

impl<T, S, M> stack::layer::Layer<T, T, S> for Layer<M> where
    S: stack::Stack<T>,
    M: MapErr<S::Error> + Clone,
 {
    type Value = S::Value;

    type Error = M::Output;

    type Stack = Stack<S, M>;

    open spec fn binds(&self, next: S, stack: Stack<S, M>) -> bool {
        stack.inner == next && cloned(self.map_err, stack.map_err)
    }

    fn bind(&self, next: S) -> (stack: Stack<S, M>) {
        Stack { inner: next, map_err: self.map_err.clone() }
    }
}

impl<T, S, M> stack::Stack<T> for Stack<S, M> where S: stack::Stack<T>, M: MapErr<S::Error> {
    type Value = S::Value;

    type Error = M::Output;

    open spec fn accepts(&self, target: T) -> bool {
        &&& self.inner.accepts(target)
        &&& forall|e: S::Error| #[trigger]
            self.inner.makes(target, Err(e)) ==> self.map_err.accepts(e)
    }

    open spec fn makes(&self, target: T, r: Result<S::Value, M::Output>) -> bool {
        match r {
            Ok(v) => self.inner.makes(target, Ok(v)),
            Err(o) => exists|e: S::Error| #[trigger]
                self.inner.makes(target, Err(e)) && self.map_err.maps(e, o),
        }
    }

    fn make(&self, target: &T) -> (r: Result<S::Value, M::Output>) {
        match self.inner.make(target) {
            Ok(v) => Ok(v),
            Err(e) => Err(self.map_err.map_err(e)),
        }
    }
}

/// Errors are changed, and nothing else is: whatever is built is what the inner stack builds, and
/// each error is what one of its errors is changed to.
pub proof fn only_errors_are_changed<T, S: stack::Stack<T>, M: MapErr<S::Error>>(
    stack: Stack<S, M>,
    target: T,
    r: Result<S::Value, M::Output>,
)
    requires
        call_ensures(<Stack<S, M> as stack::Stack<T>>::make, (&stack, &target), r),
    ensures
        r matches Ok(v) ==> stack.inner.makes(target, Ok(v)),
        r matches Err(o) ==> exists|e: S::Error| #[trigger]
            stack.inner.makes(target, Err(e)) && stack.map_err.maps(e, o),
{
}

} // verus!
