//! Infrastructure for building the services through which requests are dispatched.
pub mod optional;
pub mod reconnect;
pub mod valid;
pub mod watch;

use crate::stack::Stack;
use vstd::prelude::*;

verus! {

/// Builds for any target by cloning a value.
#[derive(Debug)]
pub struct Shared<V> {
    pub value: V,
}

impl<V: Clone> Shared<V> {
    /// Shares `v` between all targets.
    pub fn new(v: V) -> (s: Self)
        ensures
            s == (Shared { value: v }),
    {
        Shared { value: v }
    }
}

impl<V: Clone> Clone for Shared<V> {
    fn clone(&self) -> (r: Self)
        ensures
            cloned(self.value, r.value),
    {
        Shared { value: self.value.clone() }
    }
}

impl<T, V: Clone> Stack<T> for Shared<V> {
    type Value = V;

    type Error = ();

    open spec fn accepts(&self, target: T) -> bool {
        true
    }

    open spec fn makes(&self, target: T, r: Result<V, ()>) -> bool {
        r matches Ok(v) && cloned(self.value, v)
    }

    fn make(&self, _target: &T) -> (r: Result<V, ()>) {
        Ok(self.value.clone())
    }
}

} // verus!
