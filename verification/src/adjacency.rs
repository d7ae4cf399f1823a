//! Adjacency lists of the control-flow graph, kept in `smallvec::SmallVec`
//! buffers with two (successors) and four (predecessors) inline slots.
use vstd::prelude::*;
use crate::cfg::{CfgNode, EdgeKind};

verus! {

/// Largest length at which an adjacency list still takes a push: a growth
/// step of `SmallVec` panics on capacity overflow, which this bound keeps
/// out of reach on 32-bit and 64-bit targets alike.
pub const ADJ_LIMIT: usize = 0x100_0000;

/// Successor list of one node: `SmallVec<[(CfgNode, EdgeKind); 2]>`.
#[verifier::external_body]
pub struct SuccList {
    inner: smallvec::SmallVec<[(CfgNode, EdgeKind); 2]>,
}

/// Predecessor list of one node: `SmallVec<[(CfgNode, EdgeKind); 4]>`.
#[verifier::external_body]
pub struct PredList {
    inner: smallvec::SmallVec<[(CfgNode, EdgeKind); 4]>,
}

/// The items that a successor list holds, in order.
pub uninterp spec fn succ_items(l: SuccList) -> Seq<(CfgNode, EdgeKind)>;

/// The items that a predecessor list holds, in order.
pub uninterp spec fn pred_items(l: PredList) -> Seq<(CfgNode, EdgeKind)>;

/// `SmallVec::new`: an empty list.
#[verifier::external_body]
pub(crate) fn succ_list_new() -> (r: SuccList)
    ensures
        succ_items(r) == Seq::<(CfgNode, EdgeKind)>::empty(),
{
    SuccList { inner: smallvec::SmallVec::new() }
}

/// `SmallVec::push`: appends the item at the end.
#[verifier::external_body]
pub(crate) fn succ_list_push(l: &mut SuccList, item: (CfgNode, EdgeKind))
    requires
        succ_items(*old(l)).len() < ADJ_LIMIT,
    ensures
        succ_items(*final(l)) == succ_items(*old(l)).push(item),
{
    l.inner.push(item)
}

/// `SmallVec::len`: the number of items.
#[verifier::external_body]
pub(crate) fn succ_list_len(l: &SuccList) -> (r: usize)
    ensures
        r == succ_items(*l).len(),
{
    l.inner.len()
}

/// Indexing through `SmallVec`'s slice view: the item at position `i`.
#[verifier::external_body]
pub(crate) fn succ_list_get(l: &SuccList, i: usize) -> (r: (CfgNode, EdgeKind))
    requires
        i < succ_items(*l).len(),
    ensures
        r == succ_items(*l)[i as int],
{
    l.inner[i]
}

/// `SmallVec::new`: an empty list.
#[verifier::external_body]
pub(crate) fn pred_list_new() -> (r: PredList)
    ensures
        pred_items(r) == Seq::<(CfgNode, EdgeKind)>::empty(),
{
    PredList { inner: smallvec::SmallVec::new() }
}

/// `SmallVec::push`: appends the item at the end.
#[verifier::external_body]
pub(crate) fn pred_list_push(l: &mut PredList, item: (CfgNode, EdgeKind))
    requires
        pred_items(*old(l)).len() < ADJ_LIMIT,
    ensures
        pred_items(*final(l)) == pred_items(*old(l)).push(item),
{
    l.inner.push(item)
}

/// `SmallVec::len`: the number of items.
#[verifier::external_body]
pub(crate) fn pred_list_len(l: &PredList) -> (r: usize)
    ensures
        r == pred_items(*l).len(),
{
    l.inner.len()
}

/// Indexing through `SmallVec`'s slice view: the item at position `i`.
#[verifier::external_body]
pub(crate) fn pred_list_get(l: &PredList, i: usize) -> (r: (CfgNode, EdgeKind))
    requires
        i < pred_items(*l).len(),
    ensures
        r == pred_items(*l)[i as int],
{
    l.inner[i]
}

} // verus!
