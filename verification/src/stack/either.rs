//! A choice between two types.
use crate::stack::layer::Layer;
use crate::stack::Stack;
use vstd::prelude::*;

verus! {

/// A client that may be one of two concrete types.
#[derive(Debug, PartialEq, Eq)]
pub enum Either<A, B> {
    A(A),
    B(B),
}

impl<T, U, A, B, N> Layer<T, U, N> for Either<A, B> where
    A: Layer<T, U, N>,
    B: Layer<T, U, N, Error = A::Error>,
    N: Stack<U>,
 {
    type Value = Either<A::Value, B::Value>;

    type Error = A::Error;

    type Stack = Either<A::Stack, B::Stack>;

    open spec fn binds(&self, next: N, stack: Self::Stack) -> bool {
        match (self, stack) {
            (Either::A(a), Either::A(s)) => a.binds(next, s),
            (Either::B(b), Either::B(s)) => b.binds(next, s),
            _ => false,
        }
    }

    fn bind(&self, next: N) -> (stack: Self::Stack) {
        match self {
            Either::A(a) => Either::A(a.bind(next)),
            Either::B(b) => Either::B(b.bind(next)),
        }
    }
}

impl<T, N, M> Stack<T> for Either<N, M> where N: Stack<T>, M: Stack<T, Error = N::Error> {
    type Value = Either<N::Value, M::Value>;

    type Error = N::Error;

    open spec fn accepts(&self, target: T) -> bool {
        match self {
            Either::A(a) => a.accepts(target),
            Either::B(b) => b.accepts(target),
        }
    }

    open spec fn makes(&self, target: T, r: Result<Self::Value, Self::Error>) -> bool {
        match (self, r) {
            (Either::A(a), Ok(Either::A(v))) => a.makes(target, Ok(v)),
            (Either::A(a), Err(e)) => a.makes(target, Err(e)),
            (Either::B(b), Ok(Either::B(v))) => b.makes(target, Ok(v)),
            (Either::B(b), Err(e)) => b.makes(target, Err(e)),
            _ => false,
        }
    }

    fn make(&self, target: &T) -> (r: Result<Self::Value, Self::Error>) {
        match self {
            Either::A(a) => match a.make(target) {
                Ok(v) => Ok(Either::A(v)),
                Err(e) => Err(e),
            },
            Either::B(b) => match b.make(target) {
                Ok(v) => Ok(Either::B(v)),
                Err(e) => Err(e),
            },
        }
    }
}

/// Of two stacks the one that is there builds, and what it builds is told apart from what the
/// other would have built.
pub proof fn the_choice_is_kept<T, N: Stack<T>, M: Stack<T, Error = N::Error>>(
    stack: Either<N, M>,
    target: T,
    r: Result<Either<N::Value, M::Value>, N::Error>,
)
    requires
        call_ensures(<Either<N, M> as Stack<T>>::make, (&stack, &target), r),
    ensures
        stack matches Either::A(a) ==> match r {
            Ok(Either::A(v)) => a.makes(target, Ok(v)),
            Ok(Either::B(_)) => false,
            Err(e) => a.makes(target, Err(e)),
        },
        stack matches Either::B(b) ==> match r {
            Ok(Either::A(_)) => false,
            Ok(Either::B(v)) => b.makes(target, Ok(v)),
            Err(e) => b.makes(target, Err(e)),
        },
{
}

} // verus!
