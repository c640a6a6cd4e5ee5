//! Builds for any target by cloning a value.
use crate::stack;
use vstd::prelude::*;

verus! {

/// Implements `Stack<T>` for any `T` by cloning a `V`-typed value.
pub struct Stack<V: Clone> {
    pub value: V,
}

impl<V: Clone> Clone for Stack<V> {
    fn clone(&self) -> (r: Self)
        ensures
            cloned(self.value, r.value),
    {
        Stack { value: self.value.clone() }
    }
}

/// An error that never occurs: no function returns one.
#[derive(Debug)]
pub struct Never {
    _private: (),
}

/// Shares `v` between all targets.
pub fn stack<V: Clone>(v: V) -> (s: Stack<V>)
    ensures
        s == (Stack { value: v }),
{
    Stack { value: v }
}

impl<T, V: Clone> stack::Stack<T> for Stack<V> {
    type Value = V;

    type Error = Never;

    open spec fn accepts(&self, target: T) -> bool {
        true
    }

    open spec fn makes(&self, target: T, r: Result<V, Never>) -> bool {
        r matches Ok(v) && cloned(self.value, v)
    }

    fn make(&self, _target: &T) -> (r: Result<V, Never>) {
        Ok(self.value.clone())
    }
}

} // verus!
