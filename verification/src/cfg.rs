//! The control-flow graph of a body: one node per basic block plus a single
//! explicit EXIT node, with edges classified by the terminator they come from.
use vstd::prelude::*;
use crate::mir::{Body, TerminatorKind, UnwindAction, terminator_targets_ok, unwind_target_ok};
use crate::adjacency::{
    ADJ_LIMIT, SuccList, PredList, succ_items, pred_items, succ_list_new, succ_list_push,
    succ_list_len, succ_list_get, pred_list_new, pred_list_push, pred_list_len, pred_list_get,
};

verus! {

/// CFG node, a basic block or EXIT.
#[derive(Clone, Copy, PartialEq, Eq, Hash, PartialOrd, Ord, Debug, Structural)]
pub enum CfgNode {
    /// A regular basic block
    Block(usize),
    /// The single explicit EXIT node
    Exit,
}

/// CFG edge classification by terminator type.
#[derive(Clone, Copy, PartialEq, Eq, Hash, Debug, Structural)]
pub enum EdgeKind {
    /// Edge from goto terminator
    Goto,
    /// switchInt edge, discriminant value or otherwise
    SwitchInt(Option<u128>),
    /// Edge from assert terminator (success path)
    AssertSuccess,
    /// Edge from assert terminator (unwind/cleanup path)
    AssertUnwind,
    /// Edge to EXIT from return terminator
    Return,
    /// Edge from call terminator (normal return)
    CallReturn,
    /// Edge from call terminator (unwind)
    CallUnwind,
    /// Edge from drop terminator
    Drop,
    /// Edge from yield terminator
    Yield,
    /// Edge from inline assembly
    InlineAsm,
    /// Edge from false edge (for borrow checker)
    FalseEdge,
    /// Edge from false unwind
    FalseUnwind,
    /// Fallthrough or other edge types
    Other,
}

/// CFG edge with source, target, kind.
#[derive(Clone, Copy, PartialEq, Eq, Debug, Structural)]
pub struct CfgEdge {
    pub from: CfgNode,
    pub to: CfgNode,
    pub kind: EdgeKind,
}

impl CfgNode {
    /// The block, unless this is EXIT.
    pub fn as_block(&self) -> (r: Option<usize>)
        ensures
            r == (match *self {
                CfgNode::Block(b) => Some(b),
                CfgNode::Exit => None::<usize>,
            }),
    {
        match self {
            CfgNode::Block(bb) => Some(*bb),
            CfgNode::Exit => None,
        }
    }

    /// Is this the EXIT node?
    pub fn is_exit(&self) -> (r: bool)
        ensures
            r == (*self is Exit),
    {
        matches!(self, CfgNode::Exit)
    }

    /// The node of a basic block.
    pub fn from_block(bb: usize) -> (r: CfgNode)
        ensures
            r == CfgNode::Block(bb),
    {
        CfgNode::Block(bb)
    }
}

/// Position of a node in the node list of a graph with `nb` blocks:
/// blocks first, by index, then EXIT.
pub open spec fn node_index(n: CfgNode, nb: nat) -> int {
    match n {
        CfgNode::Block(i) => i as int,
        CfgNode::Exit => nb as int,
    }
}

/// The node at position `i` of the node list.
pub open spec fn node_at(i: int, nb: nat) -> CfgNode {
    if i == nb {
        CfgNode::Exit
    } else {
        CfgNode::Block(i as usize)
    }
}

/// The node exists in a graph with `nb` blocks.
pub open spec fn valid_node(n: CfgNode, nb: nat) -> bool {
    match n {
        CfgNode::Block(i) => i < nb,
        CfgNode::Exit => true,
    }
}

/// The node list of a graph with `nb` blocks.
pub open spec fn node_seq(nb: nat) -> Seq<CfgNode> {
    Seq::new(nb + 1, |i: int| node_at(i, nb))
}

/// Edge to a cleanup block, if the unwind action names one.
pub open spec fn unwind_edges(u: UnwindAction, k: EdgeKind) -> Seq<(CfgNode, EdgeKind)> {
    match u {
        UnwindAction::Cleanup(b) => seq![(CfgNode::Block(b), k)],
        _ => Seq::empty(),
    }
}

/// Edges of the value arms of a switch, in order.
pub open spec fn switch_edges(ts: Seq<(u128, usize)>) -> Seq<(CfgNode, EdgeKind)> {
    ts.map_values(|p: (u128, usize)| (CfgNode::Block(p.1), EdgeKind::SwitchInt(Some(p.0))))
}

/// Edges to the targets of inline assembly, in order.
pub open spec fn asm_edges(ts: Seq<usize>) -> Seq<(CfgNode, EdgeKind)> {
    ts.map_values(|t: usize| (CfgNode::Block(t), EdgeKind::InlineAsm))
}

/// The outgoing edges that a terminator contributes, in order.
pub open spec fn terminator_edges(k: TerminatorKind) -> Seq<(CfgNode, EdgeKind)> {
    match k {
        TerminatorKind::Goto { target } => seq![(CfgNode::Block(target), EdgeKind::Goto)],
        TerminatorKind::SwitchInt { targets, otherwise, .. } => switch_edges(targets@).push(
            (CfgNode::Block(otherwise), EdgeKind::SwitchInt(None)),
        ),
        TerminatorKind::Assert { target, unwind } => seq![
            (CfgNode::Block(target), EdgeKind::AssertSuccess),
        ] + unwind_edges(unwind, EdgeKind::AssertUnwind),
        TerminatorKind::Return => seq![(CfgNode::Exit, EdgeKind::Return)],
        TerminatorKind::Call { target, unwind, .. } => seq![
            (
                match target {
                    Some(t) => CfgNode::Block(t),
                    None => CfgNode::Exit,
                },
                EdgeKind::CallReturn,
            ),
        ] + unwind_edges(unwind, EdgeKind::CallUnwind),
        TerminatorKind::Drop { target, unwind } => seq![(CfgNode::Block(target), EdgeKind::Drop)]
            + unwind_edges(unwind, EdgeKind::Drop),
        TerminatorKind::Yield { resume, drop } => seq![(CfgNode::Block(resume), EdgeKind::Yield)]
            + match drop {
            Some(d) => seq![(CfgNode::Block(d), EdgeKind::Yield)],
            None => Seq::empty(),
        },
        TerminatorKind::InlineAsm { targets, unwind } => asm_edges(targets@) + unwind_edges(
            unwind,
            EdgeKind::InlineAsm,
        ),
        TerminatorKind::FalseEdge { real_target, imaginary_target } => seq![
            (CfgNode::Block(real_target), EdgeKind::FalseEdge),
            (CfgNode::Block(imaginary_target), EdgeKind::FalseEdge),
        ],
        TerminatorKind::FalseUnwind { real_target, unwind } => seq![
            (CfgNode::Block(real_target), EdgeKind::FalseUnwind),
        ] + unwind_edges(unwind, EdgeKind::FalseUnwind),
        TerminatorKind::UnwindResume => seq![(CfgNode::Exit, EdgeKind::Other)],
        TerminatorKind::UnwindTerminate => seq![(CfgNode::Exit, EdgeKind::Other)],
        TerminatorKind::Unreachable => seq![(CfgNode::Exit, EdgeKind::Other)],
        TerminatorKind::CoroutineDrop => seq![(CfgNode::Exit, EdgeKind::Other)],
        TerminatorKind::TailCall => seq![(CfgNode::Exit, EdgeKind::Other)],
    }
}

/// The outgoing edges of block `i` (none while it has no terminator).
pub open spec fn block_edges(body: Body, i: int) -> Seq<(CfgNode, EdgeKind)> {
    match body.basic_blocks@[i].terminator {
        Some(k) => terminator_edges(k),
        None => Seq::empty(),
    }
}

/// Of the edges `es` leaving `src`, those that enter `tgt`, as
/// (source, kind) pairs, in order.
pub open spec fn edges_into(es: Seq<(CfgNode, EdgeKind)>, src: CfgNode, tgt: CfgNode) -> Seq<
    (CfgNode, EdgeKind),
>
    decreases es.len(),
{
    if es.len() == 0 {
        Seq::empty()
    } else {
        edges_into(es.drop_last(), src, tgt) + if es.last().0 == tgt {
            seq![(src, es.last().1)]
        } else {
            Seq::empty()
        }
    }
}

/// The edges entering `tgt` from blocks `0..m`, as (source, kind) pairs,
/// ordered by source block, then by position among its edges.
pub open spec fn incoming(body: Body, tgt: CfgNode, m: nat) -> Seq<(CfgNode, EdgeKind)>
    decreases m,
{
    if m == 0 {
        Seq::empty()
    } else {
        incoming(body, tgt, (m - 1) as nat) + edges_into(
            block_edges(body, m - 1),
            CfgNode::Block((m - 1) as usize),
            tgt,
        )
    }
}

/// Every adjacency list that the graph of `body` holds stays within
/// `ADJ_LIMIT` items: each block's successor list and each node's
/// predecessor list.
pub open spec fn lists_within_limit(body: Body) -> bool {
    &&& forall|i: int| 0 <= i < body.num_blocks() ==> #[trigger] block_edges(body, i).len() <= ADJ_LIMIT
    &&& forall|j: int|
        0 <= j <= body.num_blocks() ==> #[trigger] incoming(body, node_at(j, body.num_blocks()), body.num_blocks()).len()
            <= ADJ_LIMIT
}

/// CFG edge list of the successor lists `succs`, node by node.
pub open spec fn edges_upto(succs: Seq<Seq<(CfgNode, EdgeKind)>>, nb: nat, m: nat) -> Seq<CfgEdge>
    decreases m,
{
    if m == 0 {
        Seq::empty()
    } else {
        edges_upto(succs, nb, (m - 1) as nat) + succs[m - 1].map_values(
            |p: (CfgNode, EdgeKind)| CfgEdge { from: node_at(m - 1, nb), to: p.0, kind: p.1 },
        )
    }
}

/// Control Flow Graph representation using adjacency lists, one list per
/// node, in node order (blocks by index, then EXIT).
pub struct ControlFlowGraph {
    /// Number of basic blocks (not including EXIT)
    num_blocks: usize,
    /// Forward edges, node to (successor, kind)
    successors: Vec<SuccList>,
    /// Backward edges, node to (predecessor, kind)
    predecessors: Vec<PredList>,
    /// All nodes in the CFG
    nodes: Vec<CfgNode>,
}

impl ControlFlowGraph {
    /// Number of basic blocks.
    pub closed spec fn nb(&self) -> nat {
        self.num_blocks as nat
    }

    /// Successors of the node at position `i`, with edge kinds, in order.
    pub closed spec fn succ(&self, i: int) -> Seq<(CfgNode, EdgeKind)> {
        succ_items(self.successors@[i])
    }

    /// Predecessors of the node at position `i`, with edge kinds, in order.
    pub closed spec fn pred(&self, i: int) -> Seq<(CfgNode, EdgeKind)> {
        pred_items(self.predecessors@[i])
    }

    /// All successor lists.
    pub open spec fn succs(&self) -> Seq<Seq<(CfgNode, EdgeKind)>> {
        Seq::new(self.nb() + 1, |i: int| self.succ(i))
    }

    /// The node list.
    pub closed spec fn node_list(&self) -> Seq<CfgNode> {
        self.nodes@
    }

    closed spec fn lists_sized(&self) -> bool {
        &&& self.successors@.len() == self.num_blocks + 1
        &&& self.predecessors@.len() == self.num_blocks + 1
        &&& self.nodes@.len() == self.num_blocks + 1
    }

    /// Well-formedness: one list per node, all endpoints exist, EXIT has no
    /// successors, and the node list is blocks by index followed by EXIT.
    pub open spec fn wf(&self) -> bool {
        &&& self.nb() >= 1
        &&& self.nb() < usize::MAX
        &&& self.node_list() == node_seq(self.nb())
        &&& self.succ(self.nb() as int).len() == 0
        &&& forall|i: int, k: int|
            0 <= i <= self.nb() && 0 <= k < self.succ(i).len() ==> valid_node(
                #[trigger] self.succ(i)[k].0,
                self.nb(),
            )
        &&& forall|i: int, k: int|
            0 <= i <= self.nb() && 0 <= k < self.pred(i).len() ==> valid_node(
                #[trigger] self.pred(i)[k].0,
                self.nb(),
            )
        &&& self.sized()
        &&& forall|a: CfgNode, b: CfgNode|
            #![trigger self.step(a, b, true)]
            #![trigger self.step(b, a, false)]
            valid_node(a, self.nb()) && valid_node(b, self.nb()) ==> (self.step(a, b, true)
                <==> self.step(b, a, false))
    }

    /// The adjacency storage holds one list per node.
    pub closed spec fn sized(&self) -> bool {
        self.lists_sized()
    }

    /// The graph is the CFG of `body`: block `i`'s successors are the edges
    /// of its terminator, EXIT has none, and each node's predecessors are the
    /// edges entering it, ordered by source block.
    pub open spec fn is_built_from(&self, body: Body) -> bool {
        &&& self.nb() == body.num_blocks()
        &&& forall|i: int| 0 <= i < self.nb() ==> #[trigger] self.succ(i) == block_edges(body, i)
        &&& forall|j: int|
            0 <= j <= self.nb() ==> #[trigger] self.pred(j) == incoming(
                body,
                node_at(j, self.nb()),
                self.nb(),
            )
    }

    /// Build a CFG from a body.
    pub fn build(body: &Body) -> (g: Self)
        requires
            body.targets_valid(),
            body.basic_blocks@.len() < usize::MAX,
            lists_within_limit(*body),
        ensures
            g.wf(),
            g.is_built_from(*body),
    {
        let num_blocks = body.basic_blocks.len();
        let ghost nb = num_blocks as nat;
        let mut successors: Vec<SuccList> = Vec::new();
        let mut predecessors: Vec<PredList> = Vec::new();

        // nodes plus EXIT
        let mut nodes: Vec<CfgNode> = Vec::new();
        let mut i: usize = 0;
        while i < num_blocks
            invariant
                i <= num_blocks,
                nodes@.len() == i,
                forall|j: int| 0 <= j < i ==> nodes@[j] == node_at(j, nb),
                nb == num_blocks,
            decreases num_blocks - i,
        {
            nodes.push(CfgNode::Block(i));
            i = i + 1;
        }
        nodes.push(CfgNode::Exit);
        assert(nodes@ =~= node_seq(nb));

        // Initialize empty adjacency lists for all nodes
        let mut i: usize = 0;
        while i <= num_blocks
            invariant
                i <= num_blocks + 1,
                num_blocks < usize::MAX,
                successors@.len() == i,
                predecessors@.len() == i,
                forall|j: int| 0 <= j < i ==> succ_items(#[trigger] successors@[j]).len() == 0,
                forall|j: int| 0 <= j < i ==> pred_items(#[trigger] predecessors@[j]).len() == 0,
            decreases num_blocks + 1 - i,
        {
            successors.push(succ_list_new());
            predecessors.push(pred_list_new());
            i = i + 1;
        }

        // edges from terminators
        let mut b: usize = 0;
        while b < num_blocks
            invariant
                b <= num_blocks,
                nb == num_blocks,
                num_blocks < usize::MAX,
                num_blocks == body.basic_blocks@.len(),
                body.targets_valid(),
                lists_within_limit(*body),
                successors@.len() == nb + 1,
                predecessors@.len() == nb + 1,
                forall|j: int| 0 <= j < b ==> succ_items(#[trigger] successors@[j]) == block_edges(*body, j),
                forall|j: int| b <= j <= nb ==> succ_items(#[trigger] successors@[j]).len() == 0,
                forall|j: int|
                    0 <= j <= nb ==> pred_items(#[trigger] predecessors@[j]) == incoming(
                        *body,
                        node_at(j, nb),
                        b as nat,
                    ),
            decreases num_blocks - b,
        {
            proof {
                assert(block_edges(*body, b as int).len() <= ADJ_LIMIT);
                assert forall|j: int| 0 <= j <= nb implies pred_items(#[trigger] predecessors@[j]).len()
                    + edges_into(block_edges(*body, b as int), CfgNode::Block(b), node_at(j, nb)).len() <= ADJ_LIMIT by {
                    lemma_incoming_mono(*body, node_at(j, nb), (b + 1) as nat, nb);
                    assert(incoming(*body, node_at(j, nb), nb).len() <= ADJ_LIMIT);
                }
            }
            let ghost old_preds = predecessors@;
            match &body.basic_blocks[b].terminator {
                Some(kind) => {
                    Self::add_edges_from_terminator(
                        num_blocks,
                        CfgNode::Block(b),
                        kind,
                        &mut successors,
                        &mut predecessors,
                    );
                },
                None => {},
            }
            proof {
                assert forall|j: int| 0 <= j <= nb implies pred_items(#[trigger] predecessors@[j])
                    == incoming(*body, node_at(j, nb), (b + 1) as nat) by {
                    assert(incoming(*body, node_at(j, nb), (b + 1) as nat) == incoming(
                        *body,
                        node_at(j, nb),
                        b as nat,
                    ) + edges_into(block_edges(*body, b as int), CfgNode::Block(b), node_at(j, nb)));
                    if body.basic_blocks@[b as int].terminator is None {
                        assert(pred_items(predecessors@[j]) =~= pred_items(predecessors@[j])
                            + Seq::<(CfgNode, EdgeKind)>::empty());
                    }
                }
            }
            b = b + 1;
        }

        let g = ControlFlowGraph { num_blocks, successors, predecessors, nodes };
        proof {
            assert forall|a: CfgNode, b: CfgNode|
                #![trigger g.step(a, b, true)]
                #![trigger g.step(b, a, false)]
                valid_node(a, g.nb()) && valid_node(b, g.nb()) implies (g.step(a, b, true)
                <==> g.step(b, a, false)) by {
                let bi = node_index(b, nb);
                assert(node_at(bi, nb) == b);
                lemma_incoming_mentions(*body, b, nb, a);
                if g.step(a, b, true) {
                    let ai = node_index(a, nb);
                    if ai == nb {
                        assert(g.succ(ai).len() == 0);
                    } else {
                        assert(a == CfgNode::Block(ai as usize));
                        let k = choose|k: int| 0 <= k < g.nbrs(ai, true).len() && (#[trigger] g.nbrs(ai, true)[k]).0 == b;
                        assert(mentions(block_edges(*body, ai), b));
                    }
                    assert(mentions(g.pred(bi), a));
                    let k = choose|k: int| 0 <= k < g.pred(bi).len() && (#[trigger] g.pred(bi)[k]).0 == a;
                    assert(g.nbrs(bi, false)[k].0 == a);
                }
                if g.step(b, a, false) {
                    let k = choose|k: int| 0 <= k < g.nbrs(bi, false).len() && (#[trigger] g.nbrs(bi, false)[k]).0 == a;
                    assert(g.pred(bi)[k].0 == a);
                    assert(mentions(g.pred(bi), a));
                    let i = choose|i: int| 0 <= i < nb && a == CfgNode::Block(i as usize) && mentions(block_edges(*body, i), b);
                    assert(node_index(a, nb) == i);
                    let k2 = choose|k2: int| 0 <= k2 < block_edges(*body, i).len() && (#[trigger] block_edges(*body, i)[k2]).0 == b;
                    assert(g.nbrs(i, true)[k2].0 == b);
                }
            }
            assert forall|i: int, k: int|
                0 <= i <= g.nb() && 0 <= k < g.succ(i).len() implies valid_node(
                #[trigger] g.succ(i)[k].0,
                g.nb(),
            ) by {
                lemma_block_edges_valid(*body, i);
            }
            assert forall|i: int, k: int|
                0 <= i <= g.nb() && 0 <= k < g.pred(i).len() implies valid_node(
                #[trigger] g.pred(i)[k].0,
                g.nb(),
            ) by {
                lemma_incoming_sources(*body, node_at(i, nb), nb, k);
            }
        }
        g
    }

    /// Push one edge on both adjacency maps.
    fn add_edge(
        nb: usize,
        from: CfgNode,
        to: CfgNode,
        kind: EdgeKind,
        successors: &mut Vec<SuccList>,
        predecessors: &mut Vec<PredList>,
    )
        requires
            nb < usize::MAX,
            valid_node(from, nb as nat),
            valid_node(to, nb as nat),
            old(successors)@.len() == nb + 1,
            old(predecessors)@.len() == nb + 1,
            succ_items(old(successors)@[node_index(from, nb as nat)]).len() < ADJ_LIMIT,
            pred_items(old(predecessors)@[node_index(to, nb as nat)]).len() < ADJ_LIMIT,
        ensures
            final(successors)@.len() == nb + 1,
            final(predecessors)@.len() == nb + 1,
            forall|j: int|
                0 <= j <= nb ==> succ_items(#[trigger] final(successors)@[j]) == if j == node_index(
                    from,
                    nb as nat,
                ) {
                    succ_items(old(successors)@[j]).push((to, kind))
                } else {
                    succ_items(old(successors)@[j])
                },
            forall|j: int|
                0 <= j <= nb ==> pred_items(#[trigger] final(predecessors)@[j]) == if j
                    == node_index(to, nb as nat) {
                    pred_items(old(predecessors)@[j]).push((from, kind))
                } else {
                    pred_items(old(predecessors)@[j])
                },
    {
        let fi = match from {
            CfgNode::Block(b) => b,
            CfgNode::Exit => nb,
        };
        let ti = match to {
            CfgNode::Block(b) => b,
            CfgNode::Exit => nb,
        };
        succ_list_push(&mut successors[fi], (to, kind));
        pred_list_push(&mut predecessors[ti], (from, kind));
    }

    /// The edges a terminator contributes, in order.
    pub fn terminator_edge_list(kind: &TerminatorKind) -> (r: Vec<(CfgNode, EdgeKind)>)
        ensures
            r@ == terminator_edges(*kind),
    {
        let mut v: Vec<(CfgNode, EdgeKind)> = Vec::new();
        match kind {
            // Handle goto terminator
            TerminatorKind::Goto { target } => {
                v.push((CfgNode::Block(*target), EdgeKind::Goto));
            },
            // Handle switchInt terminator
            TerminatorKind::SwitchInt { targets, otherwise, .. } => {
                // one edge per value-target pair
                let mut k: usize = 0;
                while k < targets.len()
                    invariant
                        k <= targets@.len(),
                        v@ == switch_edges(targets@.take(k as int)),
                    decreases targets@.len() - k,
                {
                    let (value, target) = targets[k];
                    v.push((CfgNode::Block(target), EdgeKind::SwitchInt(Some(value))));
                    assert(switch_edges(targets@.take(k + 1)) =~= switch_edges(
                        targets@.take(k as int),
                    ).push((CfgNode::Block(target), EdgeKind::SwitchInt(Some(value)))));
                    k = k + 1;
                }
                assert(targets@.take(k as int) =~= targets@);
                // edge for "otherwise" target
                v.push((CfgNode::Block(*otherwise), EdgeKind::SwitchInt(None)));
            },
            // Handle assert terminator
            TerminatorKind::Assert { target, unwind } => {
                v.push((CfgNode::Block(*target), EdgeKind::AssertSuccess));
                Self::push_unwind(&mut v, unwind, EdgeKind::AssertUnwind);
            },
            // Return to EXIT
            TerminatorKind::Return => {
                v.push((CfgNode::Exit, EdgeKind::Return));
            },
            // Handle call terminator
            TerminatorKind::Call { target, unwind, .. } => {
                match target {
                    Some(target_bb) => {
                        v.push((CfgNode::Block(*target_bb), EdgeKind::CallReturn));
                    },
                    None => {
                        // Diverging call goes to EXIT
                        v.push((CfgNode::Exit, EdgeKind::CallReturn));
                    },
                }
                Self::push_unwind(&mut v, unwind, EdgeKind::CallUnwind);
            },
            // Handle drop terminator
            TerminatorKind::Drop { target, unwind } => {
                v.push((CfgNode::Block(*target), EdgeKind::Drop));
                Self::push_unwind(&mut v, unwind, EdgeKind::Drop);
            },
            // Handle yield terminator
            TerminatorKind::Yield { resume, drop } => {
                v.push((CfgNode::Block(*resume), EdgeKind::Yield));
                match drop {
                    Some(drop_bb) => {
                        v.push((CfgNode::Block(*drop_bb), EdgeKind::Yield));
                    },
                    None => {},
                }
            },
            // Handle inline assembly
            TerminatorKind::InlineAsm { targets, unwind } => {
                let mut k: usize = 0;
                while k < targets.len()
                    invariant
                        k <= targets@.len(),
                        v@ == asm_edges(targets@.take(k as int)),
                    decreases targets@.len() - k,
                {
                    let target = targets[k];
                    v.push((CfgNode::Block(target), EdgeKind::InlineAsm));
                    assert(asm_edges(targets@.take(k + 1)) =~= asm_edges(targets@.take(k as int)).push(
                        (CfgNode::Block(target), EdgeKind::InlineAsm),
                    ));
                    k = k + 1;
                }
                assert(targets@.take(k as int) =~= targets@);
                Self::push_unwind(&mut v, unwind, EdgeKind::InlineAsm);
            },
            // FalseEdge (borrowck artifact)
            TerminatorKind::FalseEdge { real_target, imaginary_target } => {
                v.push((CfgNode::Block(*real_target), EdgeKind::FalseEdge));
                v.push((CfgNode::Block(*imaginary_target), EdgeKind::FalseEdge));
            },
            // Handle false unwind
            TerminatorKind::FalseUnwind { real_target, unwind } => {
                v.push((CfgNode::Block(*real_target), EdgeKind::FalseUnwind));
                Self::push_unwind(&mut v, unwind, EdgeKind::FalseUnwind);
            },
            // terminators reaching EXIT
            TerminatorKind::UnwindResume
            | TerminatorKind::UnwindTerminate
            | TerminatorKind::Unreachable
            | TerminatorKind::CoroutineDrop
            | TerminatorKind::TailCall => {
                v.push((CfgNode::Exit, EdgeKind::Other));
            },
        }
        proof {
            assert(v@ =~= terminator_edges(*kind));
        }
        v
    }

    fn push_unwind(v: &mut Vec<(CfgNode, EdgeKind)>, unwind: &UnwindAction, kind: EdgeKind)
        ensures
            final(v)@ == old(v)@ + unwind_edges(*unwind, kind),
    {
        match unwind {
            UnwindAction::Cleanup(unwind_bb) => {
                v.push((CfgNode::Block(*unwind_bb), kind));
            },
            _ => {},
        }
        proof {
            assert(final(v)@ =~= old(v)@ + unwind_edges(*unwind, kind));
        }
    }

    /// Adds the edges of one terminator to both adjacency maps.
    fn add_edges_from_terminator(
        nb: usize,
        from: CfgNode,
        kind: &TerminatorKind,
        successors: &mut Vec<SuccList>,
        predecessors: &mut Vec<PredList>,
    )
        requires
            nb < usize::MAX,
            from matches CfgNode::Block(b) && b < nb,
            terminator_targets_ok(*kind, nb as nat),
            old(successors)@.len() == nb + 1,
            old(predecessors)@.len() == nb + 1,
            succ_items(old(successors)@[node_index(from, nb as nat)]).len() + terminator_edges(
                *kind,
            ).len() <= ADJ_LIMIT,
            forall|j: int|
                0 <= j <= nb ==> pred_items(#[trigger] old(predecessors)@[j]).len() + edges_into(
                    terminator_edges(*kind),
                    from,
                    node_at(j, nb as nat),
                ).len() <= ADJ_LIMIT,
        ensures
            final(successors)@.len() == nb + 1,
            final(predecessors)@.len() == nb + 1,
            forall|j: int|
                0 <= j <= nb ==> succ_items(#[trigger] final(successors)@[j]) == if j == node_index(
                    from,
                    nb as nat,
                ) {
                    succ_items(old(successors)@[j]) + terminator_edges(*kind)
                } else {
                    succ_items(old(successors)@[j])
                },
            forall|j: int|
                0 <= j <= nb ==> pred_items(#[trigger] final(predecessors)@[j]) == pred_items(
                    old(predecessors)@[j],
                ) + edges_into(terminator_edges(*kind), from, node_at(j, nb as nat)),
    {
        let es = Self::terminator_edge_list(kind);
        let ghost fi = node_index(from, nb as nat);
        proof {
            lemma_terminator_edges_valid(*kind, nb as nat);
        }
        let mut k: usize = 0;
        while k < es.len()
            invariant
                k <= es@.len(),
                nb < usize::MAX,
                es@ == terminator_edges(*kind),
                from matches CfgNode::Block(b) && b < nb,
                fi == node_index(from, nb as nat),
                forall|t: int| 0 <= t < es@.len() ==> valid_node(#[trigger] es@[t].0, nb as nat),
                successors@.len() == nb + 1,
                predecessors@.len() == nb + 1,
                succ_items(old(successors)@[fi]).len() + es@.len() <= ADJ_LIMIT,
                forall|j: int|
                    0 <= j <= nb ==> pred_items(#[trigger] old(predecessors)@[j]).len() + edges_into(
                        es@,
                        from,
                        node_at(j, nb as nat),
                    ).len() <= ADJ_LIMIT,
                forall|j: int|
                    0 <= j <= nb ==> succ_items(#[trigger] successors@[j]) == if j == fi {
                        succ_items(old(successors)@[j]) + es@.take(k as int)
                    } else {
                        succ_items(old(successors)@[j])
                    },
                forall|j: int|
                    0 <= j <= nb ==> pred_items(#[trigger] predecessors@[j]) == pred_items(
                        old(predecessors)@[j],
                    ) + edges_into(es@.take(k as int), from, node_at(j, nb as nat)),
            decreases es@.len() - k,
        {
            let (to, ekind) = es[k];
            proof {
                let tj = node_at(node_index(to, nb as nat), nb as nat);
                assert(tj == to);
                let tk1 = es@.take(k + 1);
                assert(tk1.drop_last() =~= es@.take(k as int));
                assert(tk1.last() == (to, ekind));
                assert(edges_into(tk1, from, tj).len() == edges_into(es@.take(k as int), from, tj).len() + 1);
                lemma_edges_into_prefix(es@, k + 1, from, tj);
            }
            Self::add_edge(nb, from, to, ekind, successors, predecessors);
            proof {
                let tk1 = es@.take(k + 1);
                assert(tk1.drop_last() =~= es@.take(k as int));
                assert(tk1.last() == (to, ekind));
                assert forall|j: int| 0 <= j <= nb implies succ_items(#[trigger] successors@[j])
                    == if j == fi {
                    succ_items(old(successors)@[j]) + es@.take(k + 1)
                } else {
                    succ_items(old(successors)@[j])
                } by {
                    if j == fi {
                        assert(succ_items(old(successors)@[j]) + es@.take(k + 1) =~= (succ_items(
                            old(successors)@[j],
                        ) + es@.take(k as int)).push((to, ekind)));
                    }
                }
                assert forall|j: int| 0 <= j <= nb implies pred_items(#[trigger] predecessors@[j])
                    == pred_items(old(predecessors)@[j]) + edges_into(
                    es@.take(k + 1),
                    from,
                    node_at(j, nb as nat),
                ) by {
                    let tj = node_at(j, nb as nat);
                    assert(edges_into(tk1, from, tj) == edges_into(es@.take(k as int), from, tj)
                        + if tk1.last().0 == tj {
                        seq![(from, tk1.last().1)]
                    } else {
                        Seq::empty()
                    });
                    if j == node_index(to, nb as nat) {
                        assert(to == tj);
                        assert(pred_items(old(predecessors)@[j]) + edges_into(tk1, from, tj)
                            =~= (pred_items(old(predecessors)@[j]) + edges_into(
                            es@.take(k as int),
                            from,
                            tj,
                        )).push((from, ekind)));
                    } else {
                        assert(to != tj);
                        assert(edges_into(tk1, from, tj) =~= edges_into(
                            es@.take(k as int),
                            from,
                            tj,
                        ));
                    }
                }
            }
            k = k + 1;
        }
        proof {
            assert(es@.take(k as int) =~= es@);
        }
    }
}


/// The sequence holds no element twice.
pub open spec fn distinct<T>(s: Seq<T>) -> bool {
    forall|a: int, b: int| 0 <= a < b < s.len() ==> s[a] != s[b]
}

/// Number of `false` entries.
pub open spec fn count_false(s: Seq<bool>) -> nat
    decreases s.len(),
{
    if s.len() == 0 {
        0
    } else {
        count_false(s.drop_last()) + if s.last() {
            0nat
        } else {
            1nat
        }
    }
}

impl ControlFlowGraph {
    /// Neighbours of the node at position `i`: successors when `fwd`,
    /// predecessors otherwise.
    pub open spec fn nbrs(&self, i: int, fwd: bool) -> Seq<(CfgNode, EdgeKind)> {
        if fwd {
            self.succ(i)
        } else {
            self.pred(i)
        }
    }

    /// One step from `a` to `b` along an edge (backwards when `!fwd`).
    pub open spec fn step(&self, a: CfgNode, b: CfgNode, fwd: bool) -> bool {
        &&& valid_node(a, self.nb())
        &&& exists|k: int|
            0 <= k < self.nbrs(node_index(a, self.nb()), fwd).len() && (#[trigger] self.nbrs(
                node_index(a, self.nb()),
                fwd,
            )[k]).0 == b
    }

    /// `p` is a walk of existing nodes, each step along an edge.
    pub open spec fn is_walk(&self, p: Seq<CfgNode>, fwd: bool) -> bool {
        &&& p.len() >= 1
        &&& forall|k: int| 0 <= k < p.len() ==> valid_node(#[trigger] p[k], self.nb())
        &&& forall|k: int| 0 <= k < p.len() - 1 ==> #[trigger] self.step(p[k], p[k + 1], fwd)
    }

    /// Some walk leads from `a` to `b`.
    pub open spec fn walk_reaches(&self, a: CfgNode, b: CfgNode, fwd: bool) -> bool {
        exists|p: Seq<CfgNode>| #[trigger] self.is_walk(p, fwd) && p[0] == a && p.last() == b
    }

    /// Some path of CFG edges leads from `a` to `b`.
    pub open spec fn reaches(&self, a: CfgNode, b: CfgNode) -> bool {
        self.walk_reaches(a, b, true)
    }

    /// `p` is a path of CFG edges.
    pub open spec fn is_path(&self, p: Seq<CfgNode>) -> bool {
        self.is_walk(p, true)
    }

    /// All nodes.
    pub fn nodes(&self) -> (r: &[CfgNode])
        requires
            self.wf(),
        ensures
            r@ == node_seq(self.nb()),
    {
        self.nodes.as_slice()
    }

    fn index_of(&self, node: CfgNode) -> (r: Option<usize>)
        requires
            self.wf(),
        ensures
            r == if valid_node(node, self.nb()) {
                Some(node_index(node, self.nb()) as usize)
            } else {
                None::<usize>
            },
    {
        match node {
            CfgNode::Block(b) => if b < self.num_blocks {
                Some(b)
            } else {
                None
            },
            CfgNode::Exit => Some(self.num_blocks),
        }
    }

    fn nbr_len(&self, i: usize, fwd: bool) -> (r: usize)
        requires
            self.wf(),
            i <= self.nb(),
        ensures
            r == self.nbrs(i as int, fwd).len(),
    {
        if fwd {
            succ_list_len(&self.successors[i])
        } else {
            pred_list_len(&self.predecessors[i])
        }
    }

    fn nbr_get(&self, i: usize, fwd: bool, k: usize) -> (r: (CfgNode, EdgeKind))
        requires
            self.wf(),
            i <= self.nb(),
            k < self.nbrs(i as int, fwd).len(),
        ensures
            r == self.nbrs(i as int, fwd)[k as int],
    {
        if fwd {
            succ_list_get(&self.successors[i], k)
        } else {
            pred_list_get(&self.predecessors[i], k)
        }
    }

    fn nbr_vec(&self, node: CfgNode, fwd: bool) -> (r: Vec<(CfgNode, EdgeKind)>)
        requires
            self.wf(),
        ensures
            r@ == if valid_node(node, self.nb()) {
                self.nbrs(node_index(node, self.nb()), fwd)
            } else {
                Seq::empty()
            },
    {
        let mut v: Vec<(CfgNode, EdgeKind)> = Vec::new();
        match self.index_of(node) {
            Some(i) => {
                let n = self.nbr_len(i, fwd);
                let mut k: usize = 0;
                while k < n
                    invariant
                        self.wf(),
                        i <= self.nb(),
                        n == self.nbrs(i as int, fwd).len(),
                        k <= n,
                        v@ == self.nbrs(i as int, fwd).take(k as int),
                    decreases n - k,
                {
                    let item = self.nbr_get(i, fwd, k);
                    v.push(item);
                    assert(v@ =~= self.nbrs(i as int, fwd).take(k + 1));
                    k = k + 1;
                }
                assert(v@ =~= self.nbrs(i as int, fwd));
            },
            None => {},
        }
        v
    }

    /// Successors of a node, with edge kinds, in order (none for a node that
    /// is not in the graph).
    pub fn successors(&self, node: CfgNode) -> (r: Vec<(CfgNode, EdgeKind)>)
        requires
            self.wf(),
        ensures
            r@ == if valid_node(node, self.nb()) {
                self.succ(node_index(node, self.nb()))
            } else {
                Seq::empty()
            },
    {
        self.nbr_vec(node, true)
    }

    /// Predecessors of a node, with edge kinds, in order (none for a node
    /// that is not in the graph).
    pub fn predecessors(&self, node: CfgNode) -> (r: Vec<(CfgNode, EdgeKind)>)
        requires
            self.wf(),
        ensures
            r@ == if valid_node(node, self.nb()) {
                self.pred(node_index(node, self.nb()))
            } else {
                Seq::empty()
            },
    {
        self.nbr_vec(node, false)
    }

    /// Number of successors of a node (0 for a node not in the graph).
    pub fn num_successors(&self, node: CfgNode) -> (r: usize)
        requires
            self.wf(),
        ensures
            r == if valid_node(node, self.nb()) {
                self.succ(node_index(node, self.nb())).len()
            } else {
                0
            },
    {
        match self.index_of(node) {
            Some(i) => succ_list_len(&self.successors[i]),
            None => 0,
        }
    }

    /// A branch point has more than one successor.
    pub fn is_branch(&self, node: CfgNode) -> (r: bool)
        requires
            self.wf(),
        ensures
            r == (valid_node(node, self.nb()) && self.succ(node_index(node, self.nb())).len() > 1),
    {
        self.num_successors(node) > 1
    }

    /// The entry node is the start block.
    pub fn entry(&self) -> (r: CfgNode)
        ensures
            r == CfgNode::Block(0),
    {
        CfgNode::Block(0)
    }

    /// The EXIT node.
    pub fn exit(&self) -> (r: CfgNode)
        ensures
            r == CfgNode::Exit,
    {
        CfgNode::Exit
    }

    /// All CFG edges, by source node, then in successor order.
    pub fn edges(&self) -> (r: Vec<CfgEdge>)
        requires
            self.wf(),
        ensures
            r@ == edges_upto(self.succs(), self.nb(), self.nb() + 1),
    {
        let mut edges: Vec<CfgEdge> = Vec::new();
        let mut i: usize = 0;
        while i <= self.num_blocks
            invariant
                self.wf(),
                i <= self.nb() + 1,
                edges@ == edges_upto(self.succs(), self.nb(), i as nat),
            decreases self.nb() + 1 - i,
        {
            let from = if i == self.num_blocks {
                CfgNode::Exit
            } else {
                CfgNode::Block(i)
            };
            let n = succ_list_len(&self.successors[i]);
            let ghost start = edges@;
            let ghost f = |p: (CfgNode, EdgeKind)| CfgEdge { from: node_at(i as int, self.nb()), to: p.0, kind: p.1 };
            let mut k: usize = 0;
            while k < n
                invariant
                    self.wf(),
                    i <= self.nb(),
                    from == node_at(i as int, self.nb()),
                    n == self.succ(i as int).len(),
                    k <= n,
                    f == (|p: (CfgNode, EdgeKind)| CfgEdge { from: node_at(i as int, self.nb()), to: p.0, kind: p.1 }),
                    edges@ == start + self.succ(i as int).take(k as int).map_values(f),
                decreases n - k,
            {
                let (to, kind) = succ_list_get(&self.successors[i], k);
                edges.push(CfgEdge { from, to, kind });
                assert(self.succ(i as int).take(k + 1).map_values(f) =~= self.succ(i as int).take(
                    k as int,
                ).map_values(f).push(CfgEdge { from, to, kind }));
                k = k + 1;
            }
            assert(self.succ(i as int).take(k as int) =~= self.succ(i as int));
            assert(self.succs()[i as int] == self.succ(i as int));
            i = i + 1;
        }
        edges
    }
}


impl ControlFlowGraph {
    /// Invariant of a depth-first search from `root`: `visited` has one flag
    /// per node, the postorder lists distinct visited nodes whose neighbours
    /// are all visited, and every visited node is reachable from `root`.
    /// Each finished node's neighbours either finished before it or lead
    /// back to it.
    pub open spec fn finish_order(&self, postorder: Seq<CfgNode>, fwd: bool) -> bool {
        forall|k: int, t: int|
            0 <= k < postorder.len() && 0 <= t < self.nbrs(node_index(postorder[k], self.nb()), fwd).len()
                ==> postorder.take(k).contains(
                (#[trigger] self.nbrs(node_index(postorder[k], self.nb()), fwd)[t]).0,
            ) || self.walk_reaches(self.nbrs(node_index(postorder[k], self.nb()), fwd)[t].0, postorder[k], fwd)
    }

    /// Every node visited but not yet finished leads to `node`.
    pub open spec fn open_reach(&self, visited: Seq<bool>, postorder: Seq<CfgNode>, node: CfgNode, fwd: bool) -> bool {
        forall|i: int|
            0 <= i <= self.nb() && #[trigger] visited[i] && !postorder.contains(node_at(i, self.nb()))
                ==> self.walk_reaches(node_at(i, self.nb()), node, fwd)
    }

    pub open spec fn dfs_state(
        &self,
        visited: Seq<bool>,
        postorder: Seq<CfgNode>,
        root: CfgNode,
        fwd: bool,
    ) -> bool {
        &&& visited.len() == self.nb() + 1
        &&& distinct(postorder)
        &&& forall|k: int|
            0 <= k < postorder.len() ==> valid_node(#[trigger] postorder[k], self.nb())
                && visited[node_index(postorder[k], self.nb())]
        &&& forall|k: int, t: int|
            0 <= k < postorder.len() && 0 <= t < self.nbrs(
                node_index(postorder[k], self.nb()),
                fwd,
            ).len() ==> visited[node_index(
                (#[trigger] self.nbrs(node_index(postorder[k], self.nb()), fwd)[t]).0,
                self.nb(),
            )]
        &&& forall|i: int|
            0 <= i <= self.nb() && #[trigger] visited[i] ==> self.walk_reaches(
                root,
                node_at(i, self.nb()),
                fwd,
            )
    }

    /// Recursive depth-first search that appends nodes in postorder.
    fn dfs(
        &self,
        node: CfgNode,
        fwd: bool,
        visited: &mut Vec<bool>,
        postorder: &mut Vec<CfgNode>,
        Ghost(root): Ghost<CfgNode>,
    )
        requires
            self.wf(),
            valid_node(node, self.nb()),
            self.walk_reaches(root, node, fwd),
            self.dfs_state(old(visited)@, old(postorder)@, root, fwd),
            self.finish_order(old(postorder)@, fwd),
            self.open_reach(old(visited)@, old(postorder)@, node, fwd),
        ensures
            self.dfs_state(final(visited)@, final(postorder)@, root, fwd),
            self.finish_order(final(postorder)@, fwd),
            final(visited)@.len() == old(visited)@.len(),
            forall|i: int| 0 <= i <= self.nb() && old(visited)@[i] ==> #[trigger] final(visited)@[i],
            final(visited)@[node_index(node, self.nb())],
            final(postorder)@.len() >= old(postorder)@.len(),
            final(postorder)@.take(old(postorder)@.len() as int) == old(postorder)@,
            forall|k: int|
                old(postorder)@.len() <= k < final(postorder)@.len() ==> !old(
                    visited,
                )@[node_index(#[trigger] final(postorder)@[k], self.nb())],
            forall|i: int|
                0 <= i <= self.nb() && #[trigger] final(visited)@[i] && !old(visited)@[i]
                    ==> final(postorder)@.contains(node_at(i, self.nb())),
            !old(visited)@[node_index(node, self.nb())] ==> final(postorder)@.len() > 0
                && final(postorder)@.last() == node,
        decreases count_false(old(visited)@),
    {
        let ni = match node {
            CfgNode::Block(b) => b,
            CfgNode::Exit => self.num_blocks,
        };
        if visited[ni] {
            assert(postorder@.take(postorder@.len() as int) =~= postorder@);
            return;
        }
        let ghost v0 = visited@;
        let ghost p0 = postorder@;
        visited.set(ni, true);
        proof {
            lemma_count_false_set(v0, ni as int);
            assert forall|i: int| 0 <= i <= self.nb() && #[trigger] visited@[i] implies self.walk_reaches(
                root,
                node_at(i, self.nb()),
                fwd,
            ) by {
                if i == ni {
                    assert(node_at(i, self.nb()) == node);
                }
            }
            assert(self.open_reach(visited@, postorder@, node, fwd)) by {
                assert forall|i: int|
                    0 <= i <= self.nb() && #[trigger] visited@[i] && !postorder@.contains(node_at(i, self.nb()))
                        implies self.walk_reaches(node_at(i, self.nb()), node, fwd) by {
                    if i == ni {
                        assert(node_at(i, self.nb()) == node);
                        let p = seq![node];
                        assert(self.is_walk(p, fwd));
                    }
                }
            }
        }
        let n = self.nbr_len(ni, fwd);
        let mut t: usize = 0;
        while t < n
            invariant
                self.wf(),
                valid_node(node, self.nb()),
                ni == node_index(node, self.nb()),
                n == self.nbrs(ni as int, fwd).len(),
                t <= n,
                self.walk_reaches(root, node, fwd),
                self.dfs_state(visited@, postorder@, root, fwd),
                self.finish_order(postorder@, fwd),
                self.open_reach(visited@, postorder@, node, fwd),
                visited@.len() == v0.len(),
                v0 == old(visited)@,
                !v0[ni as int],
                visited@[ni as int],
                count_false(visited@) < count_false(v0),
                forall|i: int| 0 <= i <= self.nb() && v0[i] ==> #[trigger] visited@[i],
                forall|u: int|
                    0 <= u < t ==> visited@[node_index(
                        (#[trigger] self.nbrs(ni as int, fwd)[u]).0,
                        self.nb(),
                    )],
                postorder@.len() >= p0.len(),
                postorder@.take(p0.len() as int) == p0,
                forall|k: int|
                    p0.len() <= k < postorder@.len() ==> !v0[node_index(
                        #[trigger] postorder@[k],
                        self.nb(),
                    )] && postorder@[k] != node,
                forall|i: int|
                    0 <= i <= self.nb() && #[trigger] visited@[i] && !v0[i] && i != ni
                        ==> postorder@.contains(node_at(i, self.nb())),
            decreases n - t,
        {
            let (succ, _kind) = self.nbr_get(ni, fwd, t);
            let ghost v1 = visited@;
            let ghost p1 = postorder@;
            proof {
                assert(self.step(node, succ, fwd));
                self.lemma_reach_extend(root, node, succ, fwd);
                self.lemma_count_false_mono(v1, visited@);
                assert forall|i: int|
                    0 <= i <= self.nb() && #[trigger] visited@[i] && !postorder@.contains(node_at(i, self.nb()))
                        implies self.walk_reaches(node_at(i, self.nb()), succ, fwd) by {
                    self.lemma_reach_extend(node_at(i, self.nb()), node, succ, fwd);
                }
            }
            self.dfs(succ, fwd, visited, postorder, Ghost(root));
            proof {
                self.lemma_count_false_mono(v1, visited@);
                assert forall|i: int|
                    0 <= i <= self.nb() && #[trigger] visited@[i] && !postorder@.contains(node_at(i, self.nb()))
                        implies self.walk_reaches(node_at(i, self.nb()), node, fwd) by {
                    if !v1[i] {
                        assert(postorder@.contains(node_at(i, self.nb())));
                    } else if p1.contains(node_at(i, self.nb())) {
                        let w = choose|w: int| 0 <= w < p1.len() && p1[w] == node_at(i, self.nb());
                        assert(postorder@[w] == postorder@.take(p1.len() as int)[w]);
                    }
                }
                assert forall|k: int|
                    p0.len() <= k < postorder@.len() implies !v0[node_index(
                    #[trigger] postorder@[k],
                    self.nb(),
                )] && postorder@[k] != node by {
                    if k < p1.len() {
                        assert(postorder@[k] == postorder@.take(p1.len() as int)[k]);
                    } else {
                        assert(!v1[node_index(postorder@[k], self.nb())]);
                    }
                }
                assert(postorder@.take(p0.len() as int) =~= p0) by {
                    assert forall|k: int| 0 <= k < p0.len() implies postorder@[k] == p0[k] by {
                        assert(postorder@[k] == postorder@.take(p1.len() as int)[k]);
                        assert(p1[k] == p1.take(p0.len() as int)[k]);
                    }
                }
                assert forall|i: int|
                    0 <= i <= self.nb() && #[trigger] visited@[i] && !v0[i] && i != ni implies postorder@.contains(
                    node_at(i, self.nb()),
                ) by {
                    if v1[i] {
                        let w = choose|w: int| 0 <= w < p1.len() && p1[w] == node_at(i, self.nb());
                        assert(postorder@[w] == postorder@.take(p1.len() as int)[w]);
                    }
                }
            }
            t = t + 1;
        }
        proof {
            assert(!postorder@.contains(node)) by {
                if postorder@.contains(node) {
                    let w = choose|w: int| 0 <= w < postorder@.len() && postorder@[w] == node;
                    if w < p0.len() {
                        assert(postorder@[w] == postorder@.take(p0.len() as int)[w]);
                        assert(v0[node_index(p0[w], self.nb())]);
                    }
                }
            }
        }
        let ghost p2 = postorder@;
        postorder.push(node);
        proof {
            assert(postorder@.take(p2.len() as int) =~= p2);
            assert(postorder@.take(p0.len() as int) =~= p0) by {
                assert forall|k: int| 0 <= k < p0.len() implies postorder@[k] == p0[k] by {
                    assert(p2[k] == p2.take(p0.len() as int)[k]);
                }
            }
            assert forall|k: int, u: int|
                0 <= k < postorder@.len() && 0 <= u < self.nbrs(
                    node_index(postorder@[k], self.nb()),
                    fwd,
                ).len() implies visited@[node_index(
                (#[trigger] self.nbrs(node_index(postorder@[k], self.nb()), fwd)[u]).0,
                self.nb(),
            )] by {
                if k < p2.len() {
                    assert(postorder@[k] == p2[k]);
                }
            }
            assert forall|k: int, t: int|
                0 <= k < postorder@.len() && 0 <= t < self.nbrs(node_index(postorder@[k], self.nb()), fwd).len()
                    implies postorder@.take(k).contains(
                (#[trigger] self.nbrs(node_index(postorder@[k], self.nb()), fwd)[t]).0,
            ) || self.walk_reaches(self.nbrs(node_index(postorder@[k], self.nb()), fwd)[t].0, postorder@[k], fwd) by {
                if k < p2.len() {
                    assert(postorder@[k] == p2[k]);
                    assert(postorder@.take(k) =~= p2.take(k));
                } else {
                    assert(postorder@[k] == node);
                    assert(postorder@.take(k) =~= p2);
                    let v = self.nbrs(ni as int, fwd)[t].0;
                    let vi = node_index(v, self.nb());
                    assert(visited@[vi]);
                    assert(valid_node(v, self.nb()));
                    assert(node_at(vi, self.nb()) == v);
                }
            }
            assert forall|i: int|
                0 <= i <= self.nb() && #[trigger] visited@[i] && !v0[i] implies postorder@.contains(
                node_at(i, self.nb()),
            ) by {
                if i == ni {
                    assert(postorder@[p2.len() as int] == node);
                } else {
                    let w = choose|w: int| 0 <= w < p2.len() && p2[w] == node_at(i, self.nb());
                    assert(postorder@[w] == p2[w]);
                }
            }
        }
    }

    proof fn lemma_reach_extend(&self, root: CfgNode, a: CfgNode, b: CfgNode, fwd: bool)
        requires
            self.wf(),
            self.walk_reaches(root, a, fwd),
            self.step(a, b, fwd),
            valid_node(b, self.nb()),
        ensures
            self.walk_reaches(root, b, fwd),
    {
        let p = choose|p: Seq<CfgNode>| #[trigger] self.is_walk(p, fwd) && p[0] == root && p.last() == a;
        let q = p.push(b);
        assert forall|k: int| 0 <= k < q.len() - 1 implies #[trigger] self.step(q[k], q[k + 1], fwd) by {
            if k < p.len() - 1 {
                assert(q[k] == p[k] && q[k + 1] == p[k + 1]);
            } else {
                assert(q[k] == a && q[k + 1] == b);
            }
        }
        assert(self.is_walk(q, fwd));
    }

    proof fn lemma_count_false_mono(&self, a: Seq<bool>, b: Seq<bool>)
        requires
            a.len() == b.len(),
            forall|i: int| 0 <= i < a.len() && a[i] ==> #[trigger] b[i],
        ensures
            count_false(b) <= count_false(a),
        decreases a.len(),
    {
        if a.len() > 0 {
            self.lemma_count_false_mono(a.drop_last(), b.drop_last());
        }
    }

    /// A set of nodes that holds `root` and every neighbour of its members
    /// holds every node reachable from `root`.
    proof fn lemma_closed_holds_reachable(&self, vis: Seq<bool>, root: CfgNode, x: CfgNode, fwd: bool)
        requires
            self.wf(),
            vis.len() == self.nb() + 1,
            valid_node(root, self.nb()),
            vis[node_index(root, self.nb())],
            forall|i: int, t: int|
                0 <= i <= self.nb() && vis[i] && 0 <= t < self.nbrs(i, fwd).len() ==> vis[node_index(
                    (#[trigger] self.nbrs(i, fwd)[t]).0,
                    self.nb(),
                )],
            self.walk_reaches(root, x, fwd),
        ensures
            vis[node_index(x, self.nb())],
    {
        let p = choose|p: Seq<CfgNode>| #[trigger] self.is_walk(p, fwd) && p[0] == root && p.last() == x;
        assert forall|k: int| 0 <= k < p.len() implies vis[node_index(#[trigger] p[k], self.nb())] by {
            self.lemma_walk_prefix_in(vis, p, k, fwd);
        }
        assert(p[p.len() - 1] == x);
    }

    proof fn lemma_walk_prefix_in(&self, vis: Seq<bool>, p: Seq<CfgNode>, k: int, fwd: bool)
        requires
            self.wf(),
            vis.len() == self.nb() + 1,
            self.is_walk(p, fwd),
            vis[node_index(p[0], self.nb())],
            forall|i: int, t: int|
                0 <= i <= self.nb() && vis[i] && 0 <= t < self.nbrs(i, fwd).len() ==> vis[node_index(
                    (#[trigger] self.nbrs(i, fwd)[t]).0,
                    self.nb(),
                )],
            0 <= k < p.len(),
        ensures
            vis[node_index(p[k], self.nb())],
        decreases k,
    {
        if k > 0 {
            self.lemma_walk_prefix_in(vis, p, k - 1, fwd);
            let j = k - 1;
            assert(self.step(p[j], p[j + 1], fwd));
            let i = node_index(p[k - 1], self.nb());
            let t = choose|t: int| 0 <= t < self.nbrs(i, fwd).len() && (#[trigger] self.nbrs(i, fwd)[t]).0 == p[k];
            assert(valid_node(p[k - 1], self.nb()));
        }
    }

    /// Nodes in reverse postorder of a depth-first search from `start` along
    /// successor (`fwd`) or predecessor edges: every node reachable from
    /// `start` exactly once, `start` first, and for a step from one node to
    /// another that does not lead back, the first before the second.
    fn reverse_postorder_from(&self, start: CfgNode, fwd: bool) -> (r: Vec<CfgNode>)
        requires
            self.wf(),
            valid_node(start, self.nb()),
        ensures
            self.rpo_ordered(r@, fwd),
            distinct(r@),
            r@.len() >= 1,
            r@[0] == start,
            forall|x: CfgNode|
                r@.contains(x) <==> valid_node(x, self.nb()) && self.walk_reaches(start, x, fwd),
    {
        let mut visited: Vec<bool> = Vec::new();
        let mut i: usize = 0;
        while i <= self.num_blocks
            invariant
                self.wf(),
                i <= self.nb() + 1,
                visited@.len() == i,
                forall|j: int| 0 <= j < i ==> !visited@[j],
            decreases self.nb() + 1 - i,
        {
            visited.push(false);
            i = i + 1;
        }
        let mut postorder: Vec<CfgNode> = Vec::new();
        proof {
            let p = seq![start];
            assert(self.is_walk(p, fwd));
            assert(self.walk_reaches(start, start, fwd));
        }
        self.dfs(start, fwd, &mut visited, &mut postorder, Ghost(start));
        let ghost po = postorder@;
        proof {
            assert forall|x: CfgNode| po.contains(x) <==> valid_node(x, self.nb()) && self.walk_reaches(
                start,
                x,
                fwd,
            ) by {
                if po.contains(x) {
                    let w = choose|w: int| 0 <= w < po.len() && po[w] == x;
                    let xi = node_index(x, self.nb());
                    assert(valid_node(po[w], self.nb()));
                    assert(visited@[xi]);
                    assert(node_at(xi, self.nb()) == x);
                }
                if valid_node(x, self.nb()) && self.walk_reaches(start, x, fwd) {
                    assert forall|i: int, t: int|
                        0 <= i <= self.nb() && visited@[i] && 0 <= t < self.nbrs(i, fwd).len() implies visited@[node_index(
                        (#[trigger] self.nbrs(i, fwd)[t]).0,
                        self.nb(),
                    )] by {
                        assert(po.contains(node_at(i, self.nb())));
                        let w = choose|w: int| 0 <= w < po.len() && po[w] == node_at(i, self.nb());
                        assert(node_index(po[w], self.nb()) == i);
                    }
                    self.lemma_closed_holds_reachable(visited@, start, x, fwd);
                    let xi = node_index(x, self.nb());
                    assert(node_at(xi, self.nb()) == x);
                }
            }
        }
        let ghost fo = self.finish_order(po, fwd);
        assert(fo);
        // reverse
        let mut r: Vec<CfgNode> = Vec::new();
        let mut k: usize = postorder.len();
        while k > 0
            invariant
                k <= po.len(),
                postorder@ == po,
                distinct(po),
                po.len() >= 1,
                po.last() == start,
                forall|x: CfgNode|
                    po.contains(x) <==> valid_node(x, self.nb()) && self.walk_reaches(start, x, fwd),
                r@.len() == po.len() - k,
                forall|j: int| 0 <= j < r@.len() ==> r@[j] == po[po.len() - 1 - j],
            decreases k,
        {
            k = k - 1;
            r.push(postorder[k]);
        }
        proof {
            assert forall|x: CfgNode| r@.contains(x) <==> po.contains(x) by {
                if r@.contains(x) {
                    let w = choose|w: int| 0 <= w < r@.len() && r@[w] == x;
                    assert(po[po.len() - 1 - w] == x);
                }
                if po.contains(x) {
                    let w = choose|w: int| 0 <= w < po.len() && po[w] == x;
                    assert(r@[po.len() - 1 - w] == x);
                }
            }
            assert forall|x: CfgNode| r@.contains(x) <==> valid_node(x, self.nb()) && self.walk_reaches(
                start,
                x,
                fwd,
            ) by {
                assert(r@.contains(x) <==> po.contains(x));
            }
            assert forall|a: int, b: int|
                0 <= a < r@.len() && 0 <= b < r@.len() && #[trigger] self.step(r@[a], r@[b], fwd) && !self.walk_reaches(
                    r@[b],
                    r@[a],
                    fwd,
                ) implies a < b by {
                let ka = po.len() - 1 - a;
                let kb = po.len() - 1 - b;
                assert(r@[a] == po[ka] && r@[b] == po[kb]);
                let ia = node_index(po[ka], self.nb());
                let t = choose|t: int| 0 <= t < self.nbrs(ia, fwd).len() && (#[trigger] self.nbrs(ia, fwd)[t]).0 == r@[b];
                assert(po.take(ka).contains(self.nbrs(ia, fwd)[t].0));
                let w = choose|w: int| 0 <= w < po.take(ka).len() && po.take(ka)[w] == r@[b];
                assert(po[w] == po[kb]);
            }
        }
        r
    }

    /// `r` lists nodes so that along each step from `r[a]` to `r[b]` (in the
    /// direction `fwd`) that does not lead back from `r[b]` to `r[a]`, `r[a]`
    /// comes first: on an acyclic graph, a topological order.
    pub open spec fn rpo_ordered(&self, r: Seq<CfgNode>, fwd: bool) -> bool {
        forall|a: int, b: int|
            0 <= a < r.len() && 0 <= b < r.len() && #[trigger] self.step(r[a], r[b], fwd) && !self.walk_reaches(
                r[b],
                r[a],
                fwd,
            ) ==> a < b
    }

    /// Reverse postorder of the nodes reachable from the entry block: for an
    /// edge from `u` to `v` without a path back from `v` to `u`, `u` comes
    /// before `v`.
    pub fn reverse_postorder(&self) -> (r: Vec<CfgNode>)
        requires
            self.wf(),
        ensures
            self.rpo_ordered(r@, true),
            distinct(r@),
            r@.len() >= 1,
            r@[0] == CfgNode::Block(0),
            forall|x: CfgNode|
                r@.contains(x) <==> valid_node(x, self.nb()) && self.reaches(CfgNode::Block(0), x),
    {
        self.reverse_postorder_from(CfgNode::Block(0), true)
    }

    /// Reverse postorder over predecessor edges from EXIT: the nodes that can
    /// reach EXIT, each once, EXIT first; for an edge from `u` to `v` (a
    /// step from `v` back to `u`) without a path from `v` to `u`, `v` comes
    /// before `u`.
    pub fn reverse_postorder_from_exit(&self) -> (r: Vec<CfgNode>)
        requires
            self.wf(),
        ensures
            self.rpo_ordered(r@, false),
            distinct(r@),
            r@.len() >= 1,
            r@[0] == CfgNode::Exit,
            forall|x: CfgNode|
                r@.contains(x) <==> valid_node(x, self.nb()) && self.walk_reaches(
                    CfgNode::Exit,
                    x,
                    false,
                ),
    {
        self.reverse_postorder_from(CfgNode::Exit, false)
    }
}

impl ControlFlowGraph {
    /// Reversing a walk gives a walk in the opposite direction.
    pub proof fn lemma_reverse_walk(&self, p: Seq<CfgNode>, fwd: bool)
        requires
            self.wf(),
            self.is_walk(p, fwd),
        ensures
            self.is_walk(p.reverse(), !fwd),
    {
        let q = p.reverse();
        let n = p.len();
        let bwd = !fwd;
        assert forall|k: int| 0 <= k < q.len() implies valid_node(#[trigger] q[k], self.nb()) by {
            assert(q[k] == p[n - 1 - k]);
        }
        assert forall|k: int| 0 <= k < q.len() - 1 implies #[trigger] self.step(q[k], q[k + 1], bwd) by {
            let j = n - 2 - k;
            assert(self.step(p[j], p[j + 1], fwd));
            assert(q[k] == p[j + 1]);
            assert(q[k + 1] == p[j]);
            assert(valid_node(p[j], self.nb()) && valid_node(p[j + 1], self.nb()));
            if fwd {
                assert(self.step(p[j], p[j + 1], true) <==> self.step(p[j + 1], p[j], false));
            } else {
                assert(self.step(p[j + 1], p[j], true) <==> self.step(p[j], p[j + 1], false));
            }
        }
    }

    /// A node reaches `b` along predecessor edges from `a` exactly when `b`
    /// reaches `a` along successor edges.
    pub proof fn lemma_backward_reach(&self, a: CfgNode, b: CfgNode)
        requires
            self.wf(),
        ensures
            self.walk_reaches(a, b, false) <==> self.reaches(b, a),
    {
        if self.walk_reaches(a, b, false) {
            let p = choose|p: Seq<CfgNode>| #[trigger] self.is_walk(p, false) && p[0] == a && p.last() == b;
            self.lemma_reverse_walk(p, false);
            let q = p.reverse();
            assert(q[0] == b && q.last() == a);
            assert(self.is_walk(q, true));
        }
        if self.reaches(b, a) {
            let p = choose|p: Seq<CfgNode>| #[trigger] self.is_walk(p, true) && p[0] == b && p.last() == a;
            self.lemma_reverse_walk(p, true);
            let q = p.reverse();
            assert(q[0] == a && q.last() == b);
            assert(self.is_walk(q, false));
        }
    }
}

/// Setting an unset flag lowers the number of unset flags by one.
pub proof fn lemma_count_false_set(s: Seq<bool>, i: int)
    requires
        0 <= i < s.len(),
        !s[i],
    ensures
        count_false(s.update(i, true)) + 1 == count_false(s),
    decreases s.len(),
{
    let u = s.update(i, true);
    if i == s.len() - 1 {
        assert(u.drop_last() =~= s.drop_last());
    } else {
        assert(u.drop_last() =~= s.drop_last().update(i, true));
        lemma_count_false_set(s.drop_last(), i);
    }
}


/// Some pair of `s` has `a` as its node.
pub open spec fn mentions(s: Seq<(CfgNode, EdgeKind)>, a: CfgNode) -> bool {
    exists|k: int| 0 <= k < s.len() && (#[trigger] s[k]).0 == a
}

proof fn lemma_edges_into_mentions(es: Seq<(CfgNode, EdgeKind)>, src: CfgNode, tgt: CfgNode, a: CfgNode)
    ensures
        mentions(edges_into(es, src, tgt), a) <==> (a == src && mentions(es, tgt)),
    decreases es.len(),
{
    if es.len() > 0 {
        let init = es.drop_last();
        lemma_edges_into_mentions(init, src, tgt, a);
        let prev = edges_into(init, src, tgt);
        let tail = if es.last().0 == tgt {
            seq![(src, es.last().1)]
        } else {
            Seq::<(CfgNode, EdgeKind)>::empty()
        };
        let cur = edges_into(es, src, tgt);
        assert(cur == prev + tail);
        if mentions(cur, a) {
            let k = choose|k: int| 0 <= k < cur.len() && (#[trigger] cur[k]).0 == a;
            if k < prev.len() {
                assert(cur[k] == prev[k]);
                assert(mentions(prev, a));
                let k2 = choose|k2: int| 0 <= k2 < init.len() && (#[trigger] init[k2]).0 == tgt;
                assert(es[k2] == init[k2]);
            } else {
                assert(cur[k] == tail[k - prev.len()]);
                assert(es[es.len() - 1].0 == tgt);
            }
        }
        if a == src && mentions(es, tgt) {
            let k = choose|k: int| 0 <= k < es.len() && (#[trigger] es[k]).0 == tgt;
            if k < es.len() - 1 {
                assert(init[k] == es[k]);
                assert(mentions(init, tgt));
                let k2 = choose|k2: int| 0 <= k2 < prev.len() && (#[trigger] prev[k2]).0 == a;
                assert(cur[k2] == prev[k2]);
            } else {
                assert(cur[prev.len() as int] == (src, es.last().1));
            }
        }
    }
}

proof fn lemma_incoming_mentions(body: Body, tgt: CfgNode, m: nat, a: CfgNode)
    requires
        m <= body.num_blocks(),
    ensures
        mentions(incoming(body, tgt, m), a) <==> exists|i: int|
            0 <= i < m && a == CfgNode::Block(i as usize) && mentions(
                #[trigger] block_edges(body, i),
                tgt,
            ),
    decreases m,
{
    if m > 0 {
        let src = CfgNode::Block((m - 1) as usize);
        lemma_incoming_mentions(body, tgt, (m - 1) as nat, a);
        lemma_edges_into_mentions(block_edges(body, m - 1), src, tgt, a);
        let prev = incoming(body, tgt, (m - 1) as nat);
        let tail = edges_into(block_edges(body, m - 1), src, tgt);
        let cur = incoming(body, tgt, m);
        assert(cur == prev + tail);
        if mentions(cur, a) {
            let k = choose|k: int| 0 <= k < cur.len() && (#[trigger] cur[k]).0 == a;
            if k < prev.len() {
                assert(cur[k] == prev[k]);
                assert(mentions(prev, a));
            } else {
                assert(cur[k] == tail[k - prev.len()]);
                assert(mentions(tail, a));
                assert(mentions(block_edges(body, m - 1), tgt));
            }
        }
        if exists|i: int|
            0 <= i < m && a == CfgNode::Block(i as usize) && mentions(
                #[trigger] block_edges(body, i),
                tgt,
            ) {
            let i = choose|i: int|
                0 <= i < m && a == CfgNode::Block(i as usize) && mentions(
                    #[trigger] block_edges(body, i),
                    tgt,
                );
            if i < m - 1 {
                assert(mentions(prev, a));
                let k = choose|k: int| 0 <= k < prev.len() && (#[trigger] prev[k]).0 == a;
                assert(cur[k] == prev[k]);
            } else {
                assert(mentions(tail, a));
                let k = choose|k: int| 0 <= k < tail.len() && (#[trigger] tail[k]).0 == a;
                assert(cur[prev.len() + k] == tail[k]);
            }
        }
    }
}

pub proof fn lemma_terminator_edges_valid(k: TerminatorKind, n: nat)
    requires
        terminator_targets_ok(k, n),
    ensures
        forall|t: int|
            0 <= t < terminator_edges(k).len() ==> valid_node(#[trigger] terminator_edges(k)[t].0, n),
{
    match k {
        TerminatorKind::SwitchInt { targets, otherwise, .. } => {
            assert forall|t: int| 0 <= t < terminator_edges(k).len() implies valid_node(
                #[trigger] terminator_edges(k)[t].0,
                n,
            ) by {
                if t < targets@.len() {
                    assert(targets@[t].1 < n);
                }
            }
        },
        TerminatorKind::InlineAsm { targets, unwind } => {
            assert forall|t: int| 0 <= t < terminator_edges(k).len() implies valid_node(
                #[trigger] terminator_edges(k)[t].0,
                n,
            ) by {
                if t < targets@.len() {
                    assert(targets@[t] < n);
                }
            }
        },
        _ => {},
    }
}

proof fn lemma_block_edges_valid(body: Body, i: int)
    requires
        body.targets_valid(),
        0 <= i < body.num_blocks(),
    ensures
        forall|t: int|
            0 <= t < block_edges(body, i).len() ==> valid_node(
                #[trigger] block_edges(body, i)[t].0,
                body.num_blocks(),
            ),
{
    match body.basic_blocks@[i].terminator {
        Some(k) => lemma_terminator_edges_valid(k, body.num_blocks()),
        None => {},
    }
}

/// Every pair in `edges_into(es, src, tgt)` has `src` as its source.
proof fn lemma_edges_into_sources(es: Seq<(CfgNode, EdgeKind)>, src: CfgNode, tgt: CfgNode)
    ensures
        forall|k: int|
            0 <= k < edges_into(es, src, tgt).len() ==> (#[trigger] edges_into(es, src, tgt)[k]).0
                == src,
    decreases es.len(),
{
    if es.len() > 0 {
        lemma_edges_into_sources(es.drop_last(), src, tgt);
    }
}

proof fn lemma_incoming_mono(body: Body, tgt: CfgNode, a: nat, b: nat)
    requires
        a <= b,
    ensures
        incoming(body, tgt, a).len() <= incoming(body, tgt, b).len(),
    decreases b,
{
    if a < b {
        lemma_incoming_mono(body, tgt, a, (b - 1) as nat);
    }
}

proof fn lemma_edges_into_prefix(es: Seq<(CfgNode, EdgeKind)>, k: int, src: CfgNode, tgt: CfgNode)
    requires
        0 <= k <= es.len(),
    ensures
        edges_into(es.take(k), src, tgt).len() <= edges_into(es, src, tgt).len(),
    decreases es.len(),
{
    if k < es.len() {
        lemma_edges_into_prefix(es.drop_last(), k, src, tgt);
        assert(es.drop_last().take(k) =~= es.take(k));
    } else {
        assert(es.take(k) =~= es);
    }
}

proof fn lemma_incoming_sources(body: Body, tgt: CfgNode, m: nat, k: int)
    requires
        m <= body.num_blocks(),
        0 <= k < incoming(body, tgt, m).len(),
    ensures
        valid_node(incoming(body, tgt, m)[k].0, body.num_blocks()),
        incoming(body, tgt, m)[k].0 is Block,
    decreases m,
{
    if m > 0 {
        let prev = incoming(body, tgt, (m - 1) as nat);
        let src = CfgNode::Block((m - 1) as usize);
        if k < prev.len() {
            lemma_incoming_sources(body, tgt, (m - 1) as nat, k);
        } else {
            lemma_edges_into_sources(block_edges(body, m - 1), src, tgt);
            assert(incoming(body, tgt, m)[k] == edges_into(block_edges(body, m - 1), src, tgt)[k
                - prev.len()]);
        }
    }
}

/// Of the edges `es`, those entering `tgt`, as (source, kind) pairs, in
/// order.
pub open spec fn edges_entering(es: Seq<CfgEdge>, tgt: CfgNode) -> Seq<(CfgNode, EdgeKind)>
    decreases es.len(),
{
    if es.len() == 0 {
        Seq::empty()
    } else {
        edges_entering(es.drop_last(), tgt) + if es.last().to == tgt {
            seq![(es.last().from, es.last().kind)]
        } else {
            Seq::empty()
        }
    }
}

proof fn lemma_entering_append(a: Seq<CfgEdge>, b: Seq<CfgEdge>, tgt: CfgNode)
    ensures
        edges_entering(a + b, tgt) == edges_entering(a, tgt) + edges_entering(b, tgt),
    decreases b.len(),
{
    if b.len() == 0 {
        assert(a + b =~= a);
    } else {
        lemma_entering_append(a, b.drop_last(), tgt);
        assert((a + b).drop_last() =~= a + b.drop_last());
        assert((a + b).last() == b.last());
    }
}

proof fn lemma_entering_block(es: Seq<(CfgNode, EdgeKind)>, src: CfgNode, tgt: CfgNode)
    ensures
        edges_entering(es.map_values(|p: (CfgNode, EdgeKind)| CfgEdge { from: src, to: p.0, kind: p.1 }), tgt)
            == edges_into(es, src, tgt),
    decreases es.len(),
{
    let f = |p: (CfgNode, EdgeKind)| CfgEdge { from: src, to: p.0, kind: p.1 };
    if es.len() > 0 {
        lemma_entering_block(es.drop_last(), src, tgt);
        assert(es.map_values(f).drop_last() =~= es.drop_last().map_values(f));
    } else {
        assert(es.map_values(f) =~= Seq::<CfgEdge>::empty());
    }
}

impl ControlFlowGraph {
    /// The backward lists mirror the forward ones: in a graph built from a
    /// body, each node's predecessors are the edges of the edge list that
    /// enter it, as (source, kind) pairs, in the edge list's order.
    pub proof fn lemma_preds_are_entering_edges(&self, body: Body, j: int)
        requires
            self.wf(),
            self.is_built_from(body),
            0 <= j <= self.nb(),
        ensures
            self.pred(j) == edges_entering(edges_upto(self.succs(), self.nb(), self.nb() + 1), node_at(j, self.nb())),
    {
        let nb = self.nb();
        let tgt = node_at(j, nb);
        self.lemma_entering_upto(body, tgt, nb);
        let f = |p: (CfgNode, EdgeKind)| CfgEdge { from: node_at(nb as int, nb), to: p.0, kind: p.1 };
        assert(self.succs()[nb as int] == self.succ(nb as int));
        assert(self.succs()[nb as int].map_values(f) =~= Seq::<CfgEdge>::empty());
        lemma_entering_append(edges_upto(self.succs(), nb, nb), self.succs()[nb as int].map_values(f), tgt);
        assert(edges_entering(Seq::<CfgEdge>::empty(), tgt) =~= Seq::<(CfgNode, EdgeKind)>::empty());
    }

    proof fn lemma_entering_upto(&self, body: Body, tgt: CfgNode, m: nat)
        requires
            self.wf(),
            self.is_built_from(body),
            m <= self.nb(),
        ensures
            edges_entering(edges_upto(self.succs(), self.nb(), m), tgt) == incoming(body, tgt, m),
        decreases m,
    {
        if m == 0 {
        } else {
            let nb = self.nb();
            self.lemma_entering_upto(body, tgt, (m - 1) as nat);
            let src = node_at(m - 1, nb);
            assert(src == CfgNode::Block((m - 1) as usize));
            let f = |p: (CfgNode, EdgeKind)| CfgEdge { from: src, to: p.0, kind: p.1 };
            assert(self.succs()[m - 1] == block_edges(body, m - 1));
            lemma_entering_append(edges_upto(self.succs(), nb, (m - 1) as nat), self.succs()[m - 1].map_values(f), tgt);
            lemma_entering_block(block_edges(body, m - 1), src, tgt);
        }
    }
}

} // verus!
