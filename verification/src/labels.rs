//! Labels: names and values that telemetry attaches to what it reports.
use indexmap::IndexMap;
use vstd::prelude::*;

verus! {

/// An insertion-ordered map of the `indexmap` crate.
#[verifier::external_type_specification]
#[verifier::external_body]
#[verifier::reject_recursive_types(K)]
#[verifier::reject_recursive_types(V)]
#[verifier::reject_recursive_types(S)]
pub struct ExIndexMap<K, V, S>(indexmap::IndexMap<K, V, S>);

/// Label names and their values.
pub type Labels = IndexMap<String, String>;

/// The names and values in a set of labels.
pub uninterp spec fn label_values(
    labels: indexmap::IndexMap<String, String, std::hash::RandomState>,
) -> Map<Seq<char>, Seq<char>>;

/// Calls `indexmap::IndexMap::new`, which makes a map without entries.
#[verifier::external_body]
pub(crate) fn no_labels() -> (labels: Labels)
    ensures
        label_values(labels) =~= Map::empty(),
{
    IndexMap::new()
}

/// Calls `indexmap::IndexMap::clone`, which copies a map entry by entry.
#[verifier::external_body]
pub(crate) fn copy_labels(labels: &Labels) -> (copy: Labels)
    ensures
        label_values(copy) == label_values(*labels),
{
    labels.clone()
}

} // verus!
