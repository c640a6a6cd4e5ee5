//! Builds services for one fixed target.
use crate::stack::Stack;
use vstd::prelude::*;

verus! {

/// A stack, and the target that services are built for.
#[derive(Debug)]
pub struct MakeNewService<T, M> {
    pub make: M,
    pub target: T,
}

impl<T: Clone, M: Clone> Clone for MakeNewService<T, M> {
    fn clone(&self) -> (r: Self)
        ensures
            cloned(self.make, r.make),
            cloned(self.target, r.target),
    {
        MakeNewService { make: self.make.clone(), target: self.target.clone() }
    }
}

impl<T, M: Stack<T>> MakeNewService<T, M> {
    /// Builds services for `target` with `make`.
    pub fn new(make: M, target: T) -> (s: MakeNewService<T, M>)
        ensures
            s == (MakeNewService { make, target }),
    {
        MakeNewService { make, target }
    }

    /// Builds a service.
    pub fn new_service(&self) -> (r: Result<M::Value, M::Error>)
        requires
            self.make.accepts(self.target),
        ensures
            self.make.makes(self.target, r),
    {
        self.make.make(&self.target)
    }
}

} // verus!
