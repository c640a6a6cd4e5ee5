//! A value that may be missing, for a reason.
use vstd::prelude::*;

verus! {

/// A value, or the reason why there is none.
#[derive(Copy, Debug, PartialEq, Eq, Hash, Structural)]
pub enum Conditional<T, R> {
    Present(T),
    Absent(R),
}

impl<T: Clone, R: Clone> Clone for Conditional<T, R> {
    fn clone(&self) -> (r: Self)
        ensures
            match (*self, r) {
                (Conditional::Present(a), Conditional::Present(b)) => cloned(a, b),
                (Conditional::Absent(a), Conditional::Absent(b)) => cloned(a, b),
                _ => false,
            },
    {
        match self {
            Conditional::Present(t) => Conditional::Present(t.clone()),
            Conditional::Absent(r) => Conditional::Absent(r.clone()),
        }
    }
}

impl<T, R: Copy> Conditional<T, R> {
    /// The same condition on a reference to the value.
    pub open spec fn spec_as_ref(&self) -> Conditional<&T, R> {
        match self {
            Conditional::Present(t) => Conditional::Present(t),
            Conditional::Absent(r) => Conditional::Absent(*r),
        }
    }

    /// Borrows the value, if there is one.
    pub fn as_ref(&self) -> (r: Conditional<&T, R>)
        ensures
            r == self.spec_as_ref(),
    {
        match self {
            Conditional::Present(t) => Conditional::Present(t),
            Conditional::Absent(r) => Conditional::Absent(*r),
        }
    }
}

} // verus!
