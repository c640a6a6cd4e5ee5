//! What an HTTP client is configured with.
use crate::proxy::settings::Settings;
use crate::transport::Target;
use vstd::prelude::*;

verus! {

/// Where a client connects to, and how it sends requests.
#[derive(Debug, PartialEq, Eq)]
pub struct Config<C> {
    pub target: Target<C>,
    pub settings: Settings,
}

impl<C> Config<C> {
    /// A client for `target`.
    pub fn new(target: Target<C>, settings: Settings) -> (c: Self)
        ensures
            c == (Config { target, settings }),
    {
        Config { target, settings }
    }
}

} // verus!
