//! Sets of ports.
use indexmap::IndexSet;
use vstd::prelude::*;

verus! {

/// An insertion-ordered set of the `indexmap` crate.
#[verifier::external_type_specification]
#[verifier::external_body]
#[verifier::reject_recursive_types(T)]
#[verifier::reject_recursive_types(S)]
pub struct ExIndexSet<T, S>(indexmap::IndexSet<T, S>);

/// The ports in a set.
pub uninterp spec fn ports_in(
    ports: indexmap::IndexSet<u16, std::hash::RandomState>,
) -> Set<u16>;

/// Calls `indexmap::IndexSet::contains`, which tells whether a value is in a set.
#[verifier::external_body]
pub(crate) fn has_port(ports: &IndexSet<u16>, port: u16) -> (r: bool)
    ensures
        r == ports_in(*ports).contains(port),
{
    ports.contains(&port)
}

} // verus!
