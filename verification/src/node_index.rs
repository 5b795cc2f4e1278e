//! Bridge to petgraph's node identifier type.
//!
//! Callers address topology nodes through `petgraph::graph::NodeIndex`
//! values. The type is opaque here; the index a value holds is named by
//! [`node_index_value`], and the two accessors below are the only places
//! that rely on petgraph's code.

use vstd::prelude::*;

verus! {

#[verifier::external_type_specification]
#[verifier::external_body]
#[verifier::reject_recursive_types(Ix)]
pub struct ExNodeIndex<Ix>(petgraph::graph::NodeIndex<Ix>);

/// The index held inside a `petgraph::graph::NodeIndex`.
pub uninterp spec fn node_index_value(ix: petgraph::graph::NodeIndex<u32>) -> usize;

/// Relies on petgraph's `NodeIndex::new`, which stores exactly the index it
/// is given. The default index type is `u32`, so only indexes up to
/// `u32::MAX` are representable; larger arguments would be truncated.
#[verifier::external_body]
pub(crate) fn node_index_new(x: usize) -> (r: petgraph::graph::NodeIndex<u32>)
    requires
        x <= 0xFFFF_FFFF,
    ensures
        node_index_value(r) == x,
{
    petgraph::graph::NodeIndex::new(x)
}

/// Relies on petgraph's `NodeIndex::index`, which returns the stored index.
#[verifier::external_body]
pub(crate) fn node_index_get(ix: &petgraph::graph::NodeIndex<u32>) -> (r: usize)
    ensures
        r == node_index_value(*ix),
{
    ix.index()
}

} // verus!
