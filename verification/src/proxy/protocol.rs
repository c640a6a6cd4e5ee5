//! The protocols that a server can tell apart.
use vstd::prelude::*;

verus! {

/// A version of HTTP that a connection was found to speak.
#[derive(Clone, Copy, Debug, PartialEq, Eq, Structural)]
pub enum Protocol {
    Http1,
    Http2,
}

} // verus!
