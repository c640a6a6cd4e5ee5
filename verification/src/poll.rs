//! Results that may not be there yet.
use vstd::prelude::*;

verus! {

/// A value, or the news that it is not there yet.
#[derive(Debug, PartialEq, Eq)]
pub enum Async<T> {
    Ready(T),
    NotReady,
}

/// The result of asking for a value.
pub type Poll<T, E> = Result<Async<T>, E>;

} // verus!
