//! Layers, which wrap stacks.
use crate::stack::Stack;
use std::marker::PhantomData;
use vstd::prelude::*;

verus! {

/// A stackable element.
///
/// Given a `Next`-typed inner value, produces a `Stack`-typed value.
/// This is especially useful for composable types like `Stack`s.
pub trait Layer<Target, NextTarget, Next: Stack<NextTarget>>: Sized {
    type Value;

    type Error;

    type Stack: Stack<Target, Value = Self::Value, Error = Self::Error>;

    /// Whether wrapping `next` may give `stack`.
    spec fn binds(&self, next: Next, stack: Self::Stack) -> bool;

    /// Produces a `Stack` value from a `Next` value.
    fn bind(&self, next: Next) -> (stack: Self::Stack)
        ensures
            self.binds(next, stack),
    ;
}

/// Combines two layers into one layer.
pub struct AndThen<B, C, Next, Outer, Inner> {
    pub outer: Outer,
    pub inner: Inner,
    pub _p: PhantomData<(B, C, Next)>,
}

impl<B, C, Next, Outer: Clone, Inner: Clone> Clone for AndThen<B, C, Next, Outer, Inner> {
    fn clone(&self) -> (r: Self)
        ensures
            cloned(self.outer, r.outer),
            cloned(self.inner, r.inner),
    {
        AndThen { outer: self.outer.clone(), inner: self.inner.clone(), _p: PhantomData }
    }
}

/// Composes a layer with another, which goes inside it.
pub fn and_then<B, C, Next, Outer, Inner>(outer: Outer, inner: Inner) -> (r: AndThen<
    B,
    C,
    Next,
    Outer,
    Inner,
>)
    ensures
        r.outer == outer,
        r.inner == inner,
{
    AndThen { outer, inner, _p: PhantomData }
}

/// Composes a layer with another, which goes inside it for the targets that a predicate
/// applies to.
pub fn and_when<T, P, Next, Outer, Inner>(outer: Outer, predicate: P, inner: Inner) -> (r: AndThen<
    T,
    T,
    Next,
    Outer,
    crate::stack::when::Layer<P, Inner>,
>)
    ensures
        r.outer == outer,
        r.inner == (crate::stack::when::Layer { predicate, inner }),
{
    AndThen { outer, inner: crate::stack::when::Layer::new(predicate, inner), _p: PhantomData }
}

impl<A, B, C, Next, Outer, Inner> Layer<A, C, Next> for AndThen<B, C, Next, Outer, Inner> where
    Outer: Layer<A, B, Inner::Stack>,
    Inner: Layer<B, C, Next>,
    Next: Stack<C>,
 {
    type Value = Outer::Value;

    type Error = Outer::Error;

    type Stack = Outer::Stack;

    open spec fn binds(&self, next: Next, stack: Self::Stack) -> bool {
        exists|middle: Inner::Stack| #[trigger]
            self.inner.binds(next, middle) && self.outer.binds(middle, stack)
    }

    fn bind(&self, next: Next) -> (stack: Self::Stack) {
        let middle = self.inner.bind(next);
        self.outer.bind(middle)
    }
}

/// Of two layers, the inner one wraps the stack, and the outer one wraps what comes of that.
pub proof fn outer_layers_go_outside<A, B, C, Next, Outer, Inner>(
    layer: AndThen<B, C, Next, Outer, Inner>,
    next: Next,
    stack: Outer::Stack,
) -> (middle: Inner::Stack) where
    Outer: Layer<A, B, Inner::Stack>,
    Inner: Layer<B, C, Next>,
    Next: Stack<C>,

    requires
        call_ensures(
            <AndThen<B, C, Next, Outer, Inner> as Layer<A, C, Next>>::bind,
            (&layer, next),
            stack,
        ),
    ensures
        layer.inner.binds(next, middle),
        layer.outer.binds(middle, stack),
{
    choose|middle: Inner::Stack| #[trigger]
        layer.inner.binds(next, middle) && layer.outer.binds(middle, stack)
}

} // verus!
