//! Fixes the target type of a stack.
use crate::stack;
use std::marker::PhantomData;
use vstd::prelude::*;

verus! {

/// Fixes the target type of the stacks that it wraps.
pub struct Layer<T, M> {
    pub _p: PhantomData<(T, M)>,
}

impl<T, M> Clone for Layer<T, M> {
    fn clone(&self) -> (r: Self)
        ensures
            r == *self,
    {
        Layer { _p: PhantomData }
    }
}

/// A stack for targets of one type.
pub struct Stack<T, M> {
    pub inner: M,
    pub _p: PhantomData<(T, M)>,
}

impl<T, M: Clone> Clone for Stack<T, M> {
    fn clone(&self) -> (r: Self)
        ensures
            cloned(self.inner, r.inner),
    {
        Stack { inner: self.inner.clone(), _p: PhantomData }
    }
}

/// Fixes the target type of stacks to `T`.
pub fn layer<T, M: stack::Stack<T>>() -> (l: Layer<T, M>)
    ensures
        l == (Layer::<T, M> { _p: PhantomData }),
{
    Layer { _p: PhantomData }
}

impl<T, M: stack::Stack<T>> stack::layer::Layer<T, T, M> for Layer<T, M> {
    type Value = M::Value;

    type Error = M::Error;

    type Stack = Stack<T, M>;

    open spec fn binds(&self, next: M, stack: Stack<T, M>) -> bool {
        stack.inner == next
    }

    fn bind(&self, next: M) -> (stack: Stack<T, M>) {
        Stack { inner: next, _p: PhantomData }
    }
}

impl<T, M: stack::Stack<T>> stack::Stack<T> for Stack<T, M> {
    type Value = M::Value;

    type Error = M::Error;

    open spec fn accepts(&self, target: T) -> bool {
        self.inner.accepts(target)
    }

    open spec fn makes(&self, target: T, r: Result<M::Value, M::Error>) -> bool {
        self.inner.makes(target, r)
    }

    fn make(&self, target: &T) -> (r: Result<M::Value, M::Error>) {
        self.inner.make(target)
    }
}

} // verus!
