//! Composable builders.
//!
//! A [`Stack`] builds a value for a target. A [`layer::Layer`] wraps a stack to make another
//! one. What a stack or layer of unknown type gives is a relation that its author states; what
//! the combinators in this module make of it is stated over that relation.
pub mod either;
pub mod layer;
pub mod map_err;
pub mod map_target;
pub mod new_service;
pub mod per_request;
pub mod phantom_data;
pub mod shared;
pub mod when;

use layer::Layer;
use vstd::prelude::*;

verus! {

/// A composable builder.
///
/// A `Stack` attempts to build a `Value` given a `T`-typed _target_. An error is
/// returned iff the target cannot be used to produce a value. Otherwise a value
/// is produced.
///
/// The `Layer` trait provides a mechanism to compose stacks that are generic
/// over another, inner `Stack` type.
pub trait Stack<T>: Sized {
    type Value;

    /// Indicates that a given `T` could not be used to produce a `Value`.
    type Error;

    /// Whether a value can be asked for.
    spec fn accepts(&self, target: T) -> bool;

    /// Whether building for `target` may give `r`.
    spec fn makes(&self, target: T, r: Result<Self::Value, Self::Error>) -> bool;

    /// Builds a value for a target.
    fn make(&self, target: &T) -> (r: Result<Self::Value, Self::Error>)
        requires
            self.accepts(*target),
        ensures
            self.makes(*target, r),
    ;
}

/// Wraps a stack with a layer.
pub fn push<U, T, S: Stack<T>, L: Layer<U, T, S>>(stack: S, layer: L) -> (r: L::Stack)
    ensures
        layer.binds(stack, r),
{
    layer.bind(stack)
}

/// Changes the errors of a stack.
pub fn map_err<T, S: Stack<T>, M: map_err::MapErr<S::Error>>(stack: S, m: M) -> (r: map_err::Stack<
    S,
    M,
>)
    ensures
        r == (map_err::Stack { inner: stack, map_err: m }),
{
    map_err::Stack { inner: stack, map_err: m }
}

} // verus!
