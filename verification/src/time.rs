//! Points and spans of time.
use vstd::prelude::*;

verus! {

/// A reading of the monotonic clock.
#[verifier::external_type_specification]
#[verifier::external_body]
pub struct ExInstant(std::time::Instant);

/// The time from one reading of the clock to another.
#[derive(Clone, Copy, Debug, PartialEq, Eq)]
pub struct Span {
    pub from: std::time::Instant,
    pub to: std::time::Instant,
}

/// A span of time: whole seconds and the nanoseconds that follow them.
#[derive(Clone, Copy, Debug, PartialEq, Eq, Hash, Structural)]
pub struct Duration {
    pub secs: u64,
    pub nanos: u32,
}

impl Duration {
    /// The span of `secs` whole seconds.
    pub fn from_secs(secs: u64) -> (d: Duration)
        ensures
            d == (Duration { secs, nanos: 0 }),
    {
        Duration { secs, nanos: 0 }
    }
}

/// A number of seconds is that many, and no nanoseconds.
pub proof fn seconds_are_whole(secs: u64, d: Duration)
    requires
        call_ensures(Duration::from_secs, (secs,), d),
    ensures
        d.secs == secs,
        d.nanos == 0,
{
}

} // verus!
