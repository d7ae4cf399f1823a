//! Control dependence graph (Ferrante-Ottenstein-Warren): for each CFG edge
//! `A -> B` where `B` does not post-dominate `A`, every node on the
//! post-dominator tree path from `B` up to (not including) `ipdom(A)` is
//! control dependent on `A`.
use vstd::prelude::*;
use crate::mir::Body;
use crate::cfg::{ControlFlowGraph, CfgNode, CfgEdge, EdgeKind, valid_node, node_index, node_at, edges_upto, lists_within_limit};
use crate::postdom::{PostDominatorTree, count_true, reaches_exit, on_all_paths, eq_row, meet};

verus! {

/// An edge in the Control Dependence Graph.
#[derive(Clone, Copy, Debug, PartialEq, Eq, Hash, Structural)]
pub struct ControlDependenceEdge {
    /// The node that controls the dependent node
    pub controller: CfgNode,
    /// The node that is control-dependent
    pub dependent: CfgNode,
    /// Which controller edge leads to dependent
    pub label: EdgeKind,
}

/// The post-dominator tree path from `cur` upwards, stopping before `stop`
/// or at the root, taking at most `fuel` nodes.
pub open spec fn chain(
    pdt: PostDominatorTree,
    cur: Option<CfgNode>,
    stop: Option<CfgNode>,
    nb: nat,
    fuel: nat,
) -> Seq<CfgNode>
    decreases fuel,
{
    match cur {
        None => Seq::empty(),
        Some(x) => if Some(x) == stop || fuel == 0 {
            Seq::empty()
        } else {
            seq![x] + chain(pdt, pdt.ipdom(node_index(x, nb)), stop, nb, (fuel - 1) as nat)
        },
    }
}

/// Enough steps to walk any post-dominator tree path of a graph with `nb`
/// blocks.
pub open spec fn chain_fuel(nb: nat) -> nat {
    nb + 2
}

/// The control dependences that one CFG edge gives.
pub open spec fn edge_dependences(pdt: PostDominatorTree, e: CfgEdge, nb: nat) -> Seq<
    ControlDependenceEdge,
> {
    if pdt.row(node_index(e.from, nb))[node_index(e.to, nb)] {
        Seq::empty()
    } else {
        chain(pdt, Some(e.to), pdt.ipdom(node_index(e.from, nb)), nb, chain_fuel(nb)).map_values(
            |x: CfgNode| ControlDependenceEdge { controller: e.from, dependent: x, label: e.kind },
        )
    }
}

/// The control dependences of a list of CFG edges, in order, with repeats.
pub open spec fn raw_dependences(pdt: PostDominatorTree, es: Seq<CfgEdge>, nb: nat) -> Seq<
    ControlDependenceEdge,
>
    decreases es.len(),
{
    if es.len() == 0 {
        Seq::empty()
    } else {
        raw_dependences(pdt, es.drop_last(), nb) + edge_dependences(pdt, es.last(), nb)
    }
}

/// The first occurrence of each element, in order.
pub open spec fn dedup<T>(s: Seq<T>) -> Seq<T>
    decreases s.len(),
{
    if s.len() == 0 {
        Seq::empty()
    } else {
        let d = dedup(s.drop_last());
        if d.contains(s.last()) {
            d
        } else {
            d.push(s.last())
        }
    }
}

/// (controller, label) of the edges whose dependent is `x`, in order.
pub open spec fn deps_of(es: Seq<ControlDependenceEdge>, x: CfgNode) -> Seq<(CfgNode, EdgeKind)>
    decreases es.len(),
{
    if es.len() == 0 {
        Seq::empty()
    } else {
        deps_of(es.drop_last(), x) + if es.last().dependent == x {
            seq![(es.last().controller, es.last().label)]
        } else {
            Seq::empty()
        }
    }
}

/// (dependent, label) of the edges whose controller is `a`, in order.
pub open spec fn ctl_of(es: Seq<ControlDependenceEdge>, a: CfgNode) -> Seq<(CfgNode, EdgeKind)>
    decreases es.len(),
{
    if es.len() == 0 {
        Seq::empty()
    } else {
        ctl_of(es.drop_last(), a) + if es.last().controller == a {
            seq![(es.last().dependent, es.last().label)]
        } else {
            Seq::empty()
        }
    }
}

/// Control Dependence Graph; per-node lists in node order.
pub struct ControlDependenceGraph {
    num_nodes: usize,
    /// Dependent to (controller, edge label) list
    dependences: Vec<Vec<(CfgNode, EdgeKind)>>,
    /// Reverse map, controller to (dependent, label)
    controlled_by: Vec<Vec<(CfgNode, EdgeKind)>>,
    /// All edges
    edges: Vec<ControlDependenceEdge>,
}

impl ControlDependenceGraph {
    pub closed spec fn n(&self) -> nat {
        self.num_nodes as nat
    }

    /// All control dependence edges, in the order found.
    pub closed spec fn edge_list(&self) -> Seq<ControlDependenceEdge> {
        self.edges@
    }

    /// The controllers of the node at position `i`.
    pub closed spec fn deps(&self, i: int) -> Seq<(CfgNode, EdgeKind)> {
        self.dependences@[i]@
    }

    /// The dependents of the node at position `i`.
    pub closed spec fn ctls(&self, i: int) -> Seq<(CfgNode, EdgeKind)> {
        self.controlled_by@[i]@
    }

    /// Per-node lists match the edge list.
    pub closed spec fn ok(&self) -> bool {
        &&& self.num_nodes >= 2
        &&& self.dependences@.len() == self.num_nodes
        &&& self.controlled_by@.len() == self.num_nodes
        &&& forall|i: int|
            0 <= i < self.num_nodes ==> #[trigger] self.dependences@[i]@ == deps_of(
                self.edges@,
                node_at(i, (self.num_nodes - 1) as nat),
            )
        &&& forall|i: int|
            0 <= i < self.num_nodes ==> #[trigger] self.controlled_by@[i]@ == ctl_of(
                self.edges@,
                node_at(i, (self.num_nodes - 1) as nat),
            )
    }

    /// Number of basic blocks of the analysed graph.
    pub open spec fn blocks(&self) -> nat {
        (self.n() - 1) as nat
    }

    /// The graph is the control dependence graph of `cfg` under `pdt`: its
    /// edges are the dependences of the CFG edges, in CFG edge order, each
    /// kept once.
    pub open spec fn is_cdg_of(&self, cfg: ControlFlowGraph, pdt: PostDominatorTree) -> bool {
        &&& self.ok()
        &&& self.n() == cfg.nb() + 1
        &&& self.edge_list() == dedup(
            raw_dependences(pdt, edges_upto(cfg.succs(), cfg.nb(), cfg.nb() + 1), cfg.nb()),
        )
    }

    /// Build the CDG (Ferrante-Ottenstein-Warren) by walking the
    /// post-dominator tree.
    pub fn build(cfg: &ControlFlowGraph, pdt: &PostDominatorTree) -> (g: Self)
        requires
            pdt.wf_for(*cfg),
        ensures
            g.is_cdg_of(*cfg, *pdt),
    {
        let n = cfg.nodes().len();
        let nb = n - 1;
        let ghost gnb = cfg.nb();
        let mut dependences: Vec<Vec<(CfgNode, EdgeKind)>> = Vec::new();
        let mut controlled_by: Vec<Vec<(CfgNode, EdgeKind)>> = Vec::new();
        let mut edges: Vec<ControlDependenceEdge> = Vec::new();

        // init empty mappings
        let mut i: usize = 0;
        while i < n
            invariant
                i <= n,
                dependences@.len() == i,
                controlled_by@.len() == i,
                forall|j: int| 0 <= j < i ==> (#[trigger] dependences@[j])@.len() == 0,
                forall|j: int| 0 <= j < i ==> (#[trigger] controlled_by@[j])@.len() == 0,
            decreases n - i,
        {
            dependences.push(Vec::new());
            controlled_by.push(Vec::new());
            i = i + 1;
        }
        proof {
            assert forall|j: int| 0 <= j < n implies #[trigger] dependences@[j]@ == deps_of(edges@, node_at(j, gnb)) by {
                assert(dependences@[j]@ =~= Seq::<(CfgNode, EdgeKind)>::empty());
            }
            assert forall|j: int| 0 <= j < n implies #[trigger] controlled_by@[j]@ == ctl_of(edges@, node_at(j, gnb)) by {
                assert(controlled_by@[j]@ =~= Seq::<(CfgNode, EdgeKind)>::empty());
            }
        }

        // process CFG edges
        let cfg_edges = cfg.edges();
        let ghost all = cfg_edges@;
        proof {
            lemma_edges_valid(*cfg);
        }
        let mut k: usize = 0;
        while k < cfg_edges.len()
            invariant
                pdt.wf_for(*cfg),
                n == gnb + 1,
                nb == gnb,
                gnb == cfg.nb(),
                all == cfg_edges@,
                all == edges_upto(cfg.succs(), gnb, gnb + 1),
                forall|t: int| 0 <= t < all.len() ==> valid_node((#[trigger] all[t]).from, gnb) && valid_node(all[t].to, gnb),
                k <= all.len(),
                dependences@.len() == n,
                controlled_by@.len() == n,
                edges@ == dedup(raw_dependences(*pdt, all.take(k as int), gnb)),
                forall|j: int| 0 <= j < n ==> #[trigger] dependences@[j]@ == deps_of(edges@, node_at(j, gnb)),
                forall|j: int| 0 <= j < n ==> #[trigger] controlled_by@[j]@ == ctl_of(edges@, node_at(j, gnb)),
            decreases all.len() - k,
        {
            let edge = cfg_edges[k];
            let a = edge.from;
            let b = edge.to;
            let ghost base = raw_dependences(*pdt, all.take(k as int), gnb);
            proof {
                assert(all.take(k + 1).drop_last() =~= all.take(k as int));
                assert(all.take(k + 1).last() == edge);
                assert(valid_node(a, gnb) && valid_node(b, gnb));
            }
            // Skip if B post-dominates A
            if pdt.postdominates(b, a) {
                k = k + 1;
                continue;
            }
            // walk to ipdom(A)
            let ipdom_a = pdt.immediate_postdominator(a);
            let mut current = Some(b);
            let ghost full = chain(*pdt, Some(b), ipdom_a, gnb, chain_fuel(gnb));
            let ghost mk = |x: CfgNode| ControlDependenceEdge { controller: a, dependent: x, label: edge.kind };
            let ghost mut walked: Seq<CfgNode> = Seq::empty();
            proof {
                assert(full == walked + chain(*pdt, current, ipdom_a, gnb, chain_fuel(gnb)));
                assert(edges@ == dedup(base + walked.map_values(mk))) by {
                    assert(base + walked.map_values(mk) =~= base);
                }
            }
            while current.is_some() && current != ipdom_a
                invariant
                    pdt.wf_for(*cfg),
                    n == gnb + 1,
                    nb == gnb,
                    gnb == cfg.nb(),
                    valid_node(a, gnb),
                    ipdom_a == pdt.ipdom(node_index(a, gnb)),
                    current matches Some(x) ==> valid_node(x, gnb),
                    dependences@.len() == n,
                    controlled_by@.len() == n,
                    mk == (|x: CfgNode| ControlDependenceEdge { controller: a, dependent: x, label: edge.kind }),
                    full == walked + chain(*pdt, current, ipdom_a, gnb, chain_fuel(gnb)),
                    edges@ == dedup(base + walked.map_values(mk)),
                    forall|j: int| 0 <= j < n ==> #[trigger] dependences@[j]@ == deps_of(edges@, node_at(j, gnb)),
                    forall|j: int| 0 <= j < n ==> #[trigger] controlled_by@[j]@ == ctl_of(edges@, node_at(j, gnb)),
                decreases match current {
                    Some(x) => count_true(pdt.row(node_index(x, gnb))) + 1,
                    None => 0,
                },
            {
                let node = match current {
                    Some(x) => x,
                    None => a,
                };
                let ghost ni = node_index(node, gnb);
                proof {
                    assert(count_true(pdt.row(ni)) <= gnb + 1) by {
                        assert(pdt.rows()[ni] == pdt.row(ni));
                        lemma_count_true_le(pdt.row(ni));
                    }
                }
                // add CD edge
                let cd_edge = ControlDependenceEdge { controller: a, dependent: node, label: edge.kind };
                let ghost before = edges@;
                proof {
                    let sq = base + walked.map_values(mk);
                    assert(base + walked.push(node).map_values(mk) =~= sq.push(cd_edge));
                    assert(sq.push(cd_edge).drop_last() =~= sq);
                    assert(dedup(sq.push(cd_edge)) == if dedup(sq).contains(cd_edge) {
                        dedup(sq)
                    } else {
                        dedup(sq).push(cd_edge)
                    });
                }
                if !contains_edge(&edges, cd_edge) {
                    edges.push(cd_edge);
                    let di = position(nb, node);
                    let ai = position(nb, a);
                    dependences[di].push((a, edge.kind));
                    controlled_by[ai].push((node, edge.kind));
                    proof {
                        assert(edges@.drop_last() == before);
                        assert forall|j: int| 0 <= j < n implies #[trigger] dependences@[j]@ == deps_of(edges@, node_at(j, gnb)) by {
                            if j == di as int {
                                assert(node_at(j, gnb) == node);
                            } else {
                                assert(node_at(j, gnb) != node);
                            }
                        }
                        assert forall|j: int| 0 <= j < n implies #[trigger] controlled_by@[j]@ == ctl_of(edges@, node_at(j, gnb)) by {
                            if j == ai as int {
                                assert(node_at(j, gnb) == a);
                            } else {
                                assert(node_at(j, gnb) != a);
                            }
                        }
                    }
                }
                // Move up in the post-dominator tree
                let next = pdt.immediate_postdominator(node);
                proof {
                    let fuel = chain_fuel(gnb);
                    assert(chain(*pdt, current, ipdom_a, gnb, fuel) == seq![node] + chain(*pdt, next, ipdom_a, gnb, (fuel - 1) as nat));
                    if next is Some {
                        pdt.lemma_ipdom_shrinks(*cfg, ni);
                    }
                    lemma_chain_fuel(*pdt, *cfg, next, ipdom_a, (fuel - 1) as nat, fuel);
                    assert(full == walked.push(node) + chain(*pdt, next, ipdom_a, gnb, fuel)) by {
                        assert(walked.push(node) + chain(*pdt, next, ipdom_a, gnb, fuel) =~= walked + (seq![node] + chain(*pdt, next, ipdom_a, gnb, fuel)));
                    }
                    walked = walked.push(node);
                }
                current = next;
            }
            proof {
                assert(chain(*pdt, current, ipdom_a, gnb, chain_fuel(gnb)) =~= Seq::<CfgNode>::empty());
                assert(walked =~= full);
                assert(raw_dependences(*pdt, all.take(k + 1), gnb) == base + edge_dependences(*pdt, edge, gnb));
            }
            k = k + 1;
        }
        proof {
            assert(all.take(k as int) =~= all);
        }
        ControlDependenceGraph { num_nodes: n, dependences, controlled_by, edges }
    }
}

impl ControlDependenceGraph {
    fn index_of(&self, node: CfgNode) -> (r: Option<usize>)
        requires
            self.ok(),
        ensures
            r == if valid_node(node, self.blocks()) {
                Some(node_index(node, self.blocks()) as usize)
            } else {
                None::<usize>
            },
    {
        let nb = self.num_nodes - 1;
        match node {
            CfgNode::Block(b) => if b < nb {
                Some(b)
            } else {
                None
            },
            CfgNode::Exit => Some(nb),
        }
    }

    /// The controllers of a node, with the labels of the deciding edges, in
    /// the order found (none for a node not in the graph).
    pub fn control_dependences(&self, node: CfgNode) -> (r: Vec<(CfgNode, EdgeKind)>)
        requires
            self.ok(),
        ensures
            r@ == if valid_node(node, self.blocks()) {
                deps_of(self.edge_list(), node)
            } else {
                Seq::empty()
            },
    {
        match self.index_of(node) {
            Some(i) => {
                proof {
                    assert(node_at(i as int, self.blocks()) == node);
                }
                copy_pairs(&self.dependences[i])
            },
            None => Vec::new(),
        }
    }

    /// The nodes a controller controls, with the labels of its deciding
    /// edges, in the order found (none for a node not in the graph).
    pub fn controlled_nodes(&self, controller: CfgNode) -> (r: Vec<(CfgNode, EdgeKind)>)
        requires
            self.ok(),
        ensures
            r@ == if valid_node(controller, self.blocks()) {
                ctl_of(self.edge_list(), controller)
            } else {
                Seq::empty()
            },
    {
        match self.index_of(controller) {
            Some(i) => {
                proof {
                    assert(node_at(i as int, self.blocks()) == controller);
                }
                copy_pairs(&self.controlled_by[i])
            },
            None => Vec::new(),
        }
    }

    /// All control dependence edges.
    pub fn edges(&self) -> (r: &[ControlDependenceEdge])
        ensures
            r@ == self.edge_list(),
    {
        self.edges.as_slice()
    }

    /// Is `dependent` control dependent on `controller`?
    pub fn is_control_dependent(&self, dependent: CfgNode, controller: CfgNode) -> (r: bool)
        requires
            self.ok(),
        ensures
            r == (valid_node(dependent, self.blocks()) && exists|k: int|
                0 <= k < deps_of(self.edge_list(), dependent).len() && (#[trigger] deps_of(
                    self.edge_list(),
                    dependent,
                )[k]).0 == controller),
    {
        match self.index_of(dependent) {
            Some(i) => {
                let deps = &self.dependences[i];
                proof {
                    assert(node_at(i as int, self.blocks()) == dependent);
                    assert(deps@ == deps_of(self.edge_list(), dependent));
                }
                let mut k: usize = 0;
                while k < deps.len()
                    invariant
                        k <= deps@.len(),
                        deps@ == deps_of(self.edge_list(), dependent),
                        valid_node(dependent, self.blocks()),
                        forall|j: int| 0 <= j < k ==> (#[trigger] deps@[j]).0 != controller,
                    decreases deps@.len() - k,
                {
                    if deps[k].0 == controller {
                        assert(deps@[k as int].0 == controller);
                        return true;
                    }
                    k = k + 1;
                }
                false
            },
            None => false,
        }
    }
}

/// All control flow analyses for a function.
pub struct ControlFlowAnalysis {
    pub cfg: ControlFlowGraph,
    pub post_dominator_tree: PostDominatorTree,
    pub cdg: ControlDependenceGraph,
}

impl ControlFlowAnalysis {
    /// The three analyses fit together: the tree and the dependence graph
    /// are those of the control-flow graph.
    pub open spec fn consistent(&self) -> bool {
        &&& self.post_dominator_tree.wf_for(self.cfg)
        &&& self.cdg.is_cdg_of(self.cfg, self.post_dominator_tree)
    }

    /// Run all analyses on a body.
    pub fn analyze(body: &Body) -> (a: Self)
        requires
            body.targets_valid(),
            body.basic_blocks@.len() < usize::MAX,
            lists_within_limit(*body),
        ensures
            a.cfg.is_built_from(*body),
            a.consistent(),
    {
        let cfg = ControlFlowGraph::build(body);
        let post_dominator_tree = PostDominatorTree::compute(&cfg);
        let cdg = ControlDependenceGraph::build(&cfg, &post_dominator_tree);
        ControlFlowAnalysis { cfg, post_dominator_tree, cdg }
    }
}

fn copy_pairs(v: &Vec<(CfgNode, EdgeKind)>) -> (r: Vec<(CfgNode, EdgeKind)>)
    ensures
        r@ == v@,
{
    let mut r: Vec<(CfgNode, EdgeKind)> = Vec::new();
    let mut k: usize = 0;
    while k < v.len()
        invariant
            k <= v@.len(),
            r@ == v@.take(k as int),
        decreases v@.len() - k,
    {
        r.push(v[k]);
        assert(r@ =~= v@.take(k + 1));
        k = k + 1;
    }
    assert(r@ =~= v@);
    r
}

fn position(nb: usize, node: CfgNode) -> (r: usize)
    requires
        valid_node(node, nb as nat),
    ensures
        r == node_index(node, nb as nat),
{
    match node {
        CfgNode::Block(b) => b,
        CfgNode::Exit => nb,
    }
}

/// Is `e` in the list?
fn contains_edge(es: &Vec<ControlDependenceEdge>, e: ControlDependenceEdge) -> (r: bool)
    ensures
        r == es@.contains(e),
{
    let mut i: usize = 0;
    while i < es.len()
        invariant
            i <= es@.len(),
            forall|j: int| 0 <= j < i ==> es@[j] != e,
        decreases es@.len() - i,
    {
        if es[i] == e {
            return true;
        }
        i = i + 1;
    }
    false
}

proof fn lemma_count_true_le(s: Seq<bool>)
    ensures
        count_true(s) <= s.len(),
    decreases s.len(),
{
    if s.len() > 0 {
        lemma_count_true_le(s.drop_last());
    }
}

/// Any fuel above the size of the starting node's post-dominator set walks
/// the whole path.
proof fn lemma_chain_fuel(
    pdt: PostDominatorTree,
    cfg: ControlFlowGraph,
    cur: Option<CfgNode>,
    stop: Option<CfgNode>,
    f1: nat,
    f2: nat,
)
    requires
        pdt.wf_for(cfg),
        cur matches Some(x) ==> valid_node(x, cfg.nb()) && f1 > count_true(
            pdt.row(node_index(x, cfg.nb())),
        ) && f2 > count_true(pdt.row(node_index(x, cfg.nb()))),
    ensures
        chain(pdt, cur, stop, cfg.nb(), f1) == chain(pdt, cur, stop, cfg.nb(), f2),
    decreases f1,
{
    match cur {
        None => {},
        Some(x) => {
            if Some(x) != stop {
                let i = node_index(x, cfg.nb());
                let next = pdt.ipdom(i);
                if next is Some {
                    pdt.lemma_ipdom_shrinks(cfg, i);
                }
                lemma_chain_fuel(pdt, cfg, next, stop, (f1 - 1) as nat, (f2 - 1) as nat);
            }
        },
    }
}

proof fn lemma_edges_valid(cfg: ControlFlowGraph)
    requires
        cfg.wf(),
    ensures
        forall|t: int|
            0 <= t < edges_upto(cfg.succs(), cfg.nb(), cfg.nb() + 1).len() ==> valid_node(
                (#[trigger] edges_upto(cfg.succs(), cfg.nb(), cfg.nb() + 1)[t]).from,
                cfg.nb(),
            ) && valid_node(edges_upto(cfg.succs(), cfg.nb(), cfg.nb() + 1)[t].to, cfg.nb()),
{
    lemma_edges_upto_valid(cfg, cfg.nb() + 1);
}

proof fn lemma_edges_upto_valid(cfg: ControlFlowGraph, m: nat)
    requires
        cfg.wf(),
        m <= cfg.nb() + 1,
    ensures
        forall|t: int|
            0 <= t < edges_upto(cfg.succs(), cfg.nb(), m).len() ==> valid_node(
                (#[trigger] edges_upto(cfg.succs(), cfg.nb(), m)[t]).from,
                cfg.nb(),
            ) && valid_node(edges_upto(cfg.succs(), cfg.nb(), m)[t].to, cfg.nb()),
    decreases m,
{
    if m > 0 {
        lemma_edges_upto_valid(cfg, (m - 1) as nat);
        let prev = edges_upto(cfg.succs(), cfg.nb(), (m - 1) as nat);
        let cur = edges_upto(cfg.succs(), cfg.nb(), m);
        let i = m - 1;
        assert forall|t: int| 0 <= t < cur.len() implies valid_node((#[trigger] cur[t]).from, cfg.nb())
            && valid_node(cur[t].to, cfg.nb()) by {
            if t >= prev.len() {
                let u = t - prev.len();
                assert(cfg.succs()[i] == cfg.succ(i));
                assert(cur[t].to == cfg.succ(i)[u].0);
                assert(valid_node(cfg.succ(i)[u].0, cfg.nb()));
            } else {
                assert(cur[t] == prev[t]);
            }
        }
    }
}

proof fn lemma_dedup<T>(s: Seq<T>)
    ensures
        crate::cfg::distinct(dedup(s)),
        forall|x: T| dedup(s).contains(x) ==> s.contains(x),
    decreases s.len(),
{
    if s.len() > 0 {
        lemma_dedup(s.drop_last());
        let d = dedup(s.drop_last());
        assert forall|x: T| dedup(s).contains(x) implies s.contains(x) by {
            if d.contains(x) {
                let u = choose|u: int| 0 <= u < d.len() && d[u] == x;
                assert(s.drop_last().contains(x));
                let v = choose|v: int| 0 <= v < s.drop_last().len() && s.drop_last()[v] == x;
                assert(s[v] == x);
            } else {
                assert(x == s.last());
                assert(s[s.len() - 1] == x);
            }
        }
    }
}

proof fn lemma_chain_valid(pdt: PostDominatorTree, cfg: ControlFlowGraph, cur: Option<CfgNode>, stop: Option<CfgNode>, fuel: nat)
    requires
        pdt.wf_for(cfg),
        cur matches Some(x) ==> valid_node(x, cfg.nb()),
    ensures
        forall|k: int|
            0 <= k < chain(pdt, cur, stop, cfg.nb(), fuel).len() ==> valid_node(
                #[trigger] chain(pdt, cur, stop, cfg.nb(), fuel)[k],
                cfg.nb(),
            ),
    decreases fuel,
{
    match cur {
        None => {},
        Some(x) => {
            if Some(x) != stop && fuel > 0 {
                let i = node_index(x, cfg.nb());
                assert(crate::postdom::ipdom_ok(pdt.rows(), cfg.nb(), i, crate::postdom::reaches_exit(cfg, i), pdt.ipdom(i)));
                lemma_chain_valid(pdt, cfg, pdt.ipdom(i), stop, (fuel - 1) as nat);
                let rest = chain(pdt, pdt.ipdom(i), stop, cfg.nb(), (fuel - 1) as nat);
                assert forall|k: int| 0 <= k < chain(pdt, cur, stop, cfg.nb(), fuel).len() implies valid_node(
                    #[trigger] chain(pdt, cur, stop, cfg.nb(), fuel)[k],
                    cfg.nb(),
                ) by {
                    if k > 0 {
                        assert(chain(pdt, cur, stop, cfg.nb(), fuel)[k] == rest[k - 1]);
                    }
                }
            }
        },
    }
}

proof fn lemma_raw_valid(pdt: PostDominatorTree, cfg: ControlFlowGraph, es: Seq<CfgEdge>)
    requires
        pdt.wf_for(cfg),
        forall|t: int| 0 <= t < es.len() ==> valid_node((#[trigger] es[t]).from, cfg.nb()) && valid_node(es[t].to, cfg.nb()),
    ensures
        forall|k: int|
            0 <= k < raw_dependences(pdt, es, cfg.nb()).len() ==> valid_node(
                (#[trigger] raw_dependences(pdt, es, cfg.nb())[k]).controller,
                cfg.nb(),
            ) && valid_node(raw_dependences(pdt, es, cfg.nb())[k].dependent, cfg.nb()),
    decreases es.len(),
{
    if es.len() > 0 {
        let nb = cfg.nb();
        lemma_raw_valid(pdt, cfg, es.drop_last());
        let e = es.last();
        assert(e == es[es.len() - 1]);
        lemma_chain_valid(pdt, cfg, Some(e.to), pdt.ipdom(node_index(e.from, nb)), chain_fuel(nb));
        let prev = raw_dependences(pdt, es.drop_last(), nb);
        let cur = raw_dependences(pdt, es, nb);
        let ed = edge_dependences(pdt, e, nb);
        assert forall|k: int| 0 <= k < cur.len() implies valid_node((#[trigger] cur[k]).controller, nb) && valid_node(
            cur[k].dependent,
            nb,
        ) by {
            if k < prev.len() {
                assert(cur[k] == prev[k]);
            } else {
                assert(cur[k] == ed[k - prev.len()]);
            }
        }
    }
}

impl ControlDependenceGraph {
    /// The control dependence edges of a graph hold no repeats and name
    /// only nodes of the CFG.
    pub proof fn lemma_edges_distinct_and_valid(&self, cfg: ControlFlowGraph, pdt: PostDominatorTree)
        requires
            self.is_cdg_of(cfg, pdt),
            pdt.wf_for(cfg),
        ensures
            crate::cfg::distinct(self.edge_list()),
            forall|k: int|
                0 <= k < self.edge_list().len() ==> valid_node((#[trigger] self.edge_list()[k]).controller, cfg.nb())
                    && valid_node(self.edge_list()[k].dependent, cfg.nb()),
    {
        let nb = cfg.nb();
        let es = edges_upto(cfg.succs(), nb, nb + 1);
        lemma_edges_valid(cfg);
        lemma_raw_valid(pdt, cfg, es);
        let raw = raw_dependences(pdt, es, nb);
        lemma_dedup(raw);
        assert forall|k: int| 0 <= k < self.edge_list().len() implies valid_node(
            (#[trigger] self.edge_list()[k]).controller,
            nb,
        ) && valid_node(self.edge_list()[k].dependent, nb) by {
            let x = self.edge_list()[k];
            assert(dedup(raw)[k] == x);
            assert(dedup(raw).contains(x));
            assert(raw.contains(x));
            let u = choose|u: int| 0 <= u < raw.len() && raw[u] == x;
            assert(valid_node(raw[u].controller, nb) && valid_node(raw[u].dependent, nb));
        }
    }
}

/// Every node of the graph has a path to EXIT.
pub open spec fn all_reach_exit(cfg: ControlFlowGraph) -> bool {
    forall|i: int| 0 <= i <= cfg.nb() ==> #[trigger] reaches_exit(cfg, i)
}

/// The CFG has an edge `c -> b` of kind `k`.
pub open spec fn has_cfg_edge(cfg: ControlFlowGraph, c: CfgNode, b: CfgNode, k: EdgeKind) -> bool {
    edges_upto(cfg.succs(), cfg.nb(), cfg.nb() + 1).contains(CfgEdge { from: c, to: b, kind: k })
}

/// The classic definition of control dependence: through some edge
/// `c -> b` of kind `k`, `b` does not post-dominate `c`, `d` post-dominates
/// `b`, and `d` does not strictly post-dominate `c`.
pub open spec fn classic_dependence(cfg: ControlFlowGraph, c: CfgNode, d: CfgNode, k: EdgeKind) -> bool {
    exists|b: CfgNode|
        #[trigger] has_cfg_edge(cfg, c, b, k) && !on_all_paths(cfg, c, b) && on_all_paths(cfg, b, d) && (d == c
            || !on_all_paths(cfg, c, d))
}

/// `c` is a branch: it has two successors that are different nodes.
pub open spec fn is_branch(cfg: ControlFlowGraph, c: CfgNode) -> bool {
    exists|b1: CfgNode, b2: CfgNode| b1 != b2 && #[trigger] cfg.step(c, b1, true) && #[trigger] cfg.step(c, b2, true)
}

proof fn lemma_dedup_complete<T>(s: Seq<T>, x: T)
    requires
        s.contains(x),
    ensures
        dedup(s).contains(x),
    decreases s.len(),
{
    let d = dedup(s.drop_last());
    if s.last() == x {
        if !d.contains(x) {
            assert(d.push(x)[d.len() as int] == x);
        }
    } else {
        let u = choose|u: int| 0 <= u < s.len() && s[u] == x;
        assert(s.drop_last()[u] == x);
        lemma_dedup_complete(s.drop_last(), x);
        if !d.contains(s.last()) {
            let v = choose|v: int| 0 <= v < d.len() && d[v] == x;
            assert(d.push(s.last())[v] == x);
        }
    }
}

proof fn lemma_raw_member(pdt: PostDominatorTree, es: Seq<CfgEdge>, nb: nat, x: ControlDependenceEdge)
    ensures
        raw_dependences(pdt, es, nb).contains(x) <==> exists|t: int|
            0 <= t < es.len() && #[trigger] edge_dependences(pdt, es[t], nb).contains(x),
    decreases es.len(),
{
    if es.len() > 0 {
        let init = es.drop_last();
        lemma_raw_member(pdt, init, nb, x);
        let a = raw_dependences(pdt, init, nb);
        let b = edge_dependences(pdt, es.last(), nb);
        let r = raw_dependences(pdt, es, nb);
        assert(r == a + b);
        if r.contains(x) {
            let u = choose|u: int| 0 <= u < r.len() && r[u] == x;
            if u < a.len() {
                assert(a[u] == x);
                let t = choose|t: int| 0 <= t < init.len() && #[trigger] edge_dependences(pdt, init[t], nb).contains(x);
                assert(es[t] == init[t]);
            } else {
                assert(b[u - a.len()] == x);
                assert(edge_dependences(pdt, es[es.len() - 1], nb).contains(x));
            }
        }
        if exists|t: int| 0 <= t < es.len() && #[trigger] edge_dependences(pdt, es[t], nb).contains(x) {
            let t = choose|t: int| 0 <= t < es.len() && #[trigger] edge_dependences(pdt, es[t], nb).contains(x);
            if t < init.len() {
                assert(es[t] == init[t]);
                assert(a.contains(x));
                let u = choose|u: int| 0 <= u < a.len() && a[u] == x;
                assert(r[u] == x);
            } else {
                let u = choose|u: int| 0 <= u < b.len() && b[u] == x;
                assert(r[a.len() + u] == x);
            }
        }
    } else {
        assert(raw_dependences(pdt, es, nb) =~= Seq::empty());
    }
}

proof fn lemma_edges_upto_member(succs: Seq<Seq<(CfgNode, EdgeKind)>>, nb: nat, m: nat, t: int)
    requires
        0 <= t < edges_upto(succs, nb, m).len(),
    ensures
        exists|i: int, u: int|
            0 <= i < m && 0 <= u < succs[i].len() && #[trigger] edges_upto(succs, nb, m)[t] == (CfgEdge {
                from: node_at(i, nb),
                to: succs[i][u].0,
                kind: succs[i][u].1,
            }),
    decreases m,
{
    if m > 0 {
        let prev = edges_upto(succs, nb, (m - 1) as nat);
        let cur = edges_upto(succs, nb, m);
        if t < prev.len() {
            lemma_edges_upto_member(succs, nb, (m - 1) as nat, t);
            assert(cur[t] == prev[t]);
            let (i, u) = choose|i: int, u: int|
                0 <= i < m - 1 && 0 <= u < succs[i].len() && #[trigger] edges_upto(succs, nb, (m - 1) as nat)[t] == (
                CfgEdge { from: node_at(i, nb), to: succs[i][u].0, kind: succs[i][u].1 });
            assert(cur[t] == (CfgEdge { from: node_at(i, nb), to: succs[i][u].0, kind: succs[i][u].1 }));
        } else {
            let u = t - prev.len();
            assert(cur[t] == (CfgEdge { from: node_at(m - 1, nb), to: succs[m - 1][u].0, kind: succs[m - 1][u].1 }));
        }
    }
}

proof fn lemma_count_pos(s: Seq<bool>, k: int)
    requires
        0 <= k < s.len(),
        s[k],
    ensures
        count_true(s) >= 1,
    decreases s.len(),
{
    if k < s.len() - 1 {
        lemma_count_pos(s.drop_last(), k);
    }
}

/// Walking the post-dominator tree from `x` up to (not including) a
/// post-dominator `s` of `x` visits exactly the post-dominators of `x` that
/// `s` does not post-dominate.
proof fn lemma_chain_members(pdt: PostDominatorTree, cfg: ControlFlowGraph, x: CfgNode, s: CfgNode, fuel: nat)
    requires
        pdt.wf_for(cfg),
        all_reach_exit(cfg),
        valid_node(x, cfg.nb()),
        valid_node(s, cfg.nb()),
        pdt.row(node_index(x, cfg.nb()))[node_index(s, cfg.nb())],
        fuel > count_true(pdt.row(node_index(x, cfg.nb()))),
    ensures
        forall|y: CfgNode|
            valid_node(y, cfg.nb()) ==> (#[trigger] chain(pdt, Some(x), Some(s), cfg.nb(), fuel).contains(y) <==> (pdt.row(
                node_index(x, cfg.nb()),
            )[node_index(y, cfg.nb())] && !pdt.row(node_index(s, cfg.nb()))[node_index(y, cfg.nb())])),
    decreases fuel,
{
    let nb = cfg.nb();
    let xi = node_index(x, nb);
    let si = node_index(s, nb);
    let ch = chain(pdt, Some(x), Some(s), nb, fuel);
    if x == s {
        assert(ch =~= Seq::<CfgNode>::empty());
    } else {
        assert(reaches_exit(cfg, xi) && reaches_exit(cfg, si));
        pdt.lemma_postdominance_order(cfg, xi, si, xi);
        assert(pdt.rows()[xi] == pdt.row(xi));
        lemma_count_pos(pdt.row(xi), xi);
        assert(si != xi);
        if xi == nb {
            assert(pdt.rows()[nb as int][si] == pdt.row(xi)[si]);
            assert(false);
        }
        pdt.lemma_ipdom_closest(cfg, xi);
        pdt.lemma_ipdom_shrinks(cfg, xi);
        let y0 = pdt.ipdom(xi)->0;
        let y0i = node_index(y0, nb);
        assert(pdt.row(y0i)[si]);
        lemma_chain_members(pdt, cfg, y0, s, (fuel - 1) as nat);
        let rest = chain(pdt, Some(y0), Some(s), nb, (fuel - 1) as nat);
        assert(ch == seq![x] + rest);
        assert forall|y: CfgNode| valid_node(y, nb) implies (#[trigger] ch.contains(y) <==> (pdt.row(xi)[node_index(y, nb)]
            && !pdt.row(si)[node_index(y, nb)])) by {
            let yi = node_index(y, nb);
            if y == x {
                assert(ch[0] == x);
            } else {
                assert(yi != xi);
                if ch.contains(y) {
                    let u = choose|u: int| 0 <= u < ch.len() && ch[u] == y;
                    assert(u > 0);
                    assert(rest[u - 1] == y);
                    assert(rest.contains(y));
                }
                if rest.contains(y) {
                    let u = choose|u: int| 0 <= u < rest.len() && rest[u] == y;
                    assert(ch[u + 1] == y);
                }
            }
        }
    }
}

/// The dependences that the CFG edge leaving block `i` as its `u`-th
/// successor gives: exactly the classic ones, on the post-dominator sets.
proof fn lemma_edge_member(pdt: PostDominatorTree, cfg: ControlFlowGraph, i: int, u: int, x: ControlDependenceEdge)
    requires
        pdt.wf_for(cfg),
        all_reach_exit(cfg),
        0 <= i <= cfg.nb(),
        0 <= u < cfg.succs()[i].len(),
        valid_node(x.dependent, cfg.nb()),
    ensures
        ({
            let nb = cfg.nb();
            let e = CfgEdge { from: node_at(i, nb), to: cfg.succs()[i][u].0, kind: cfg.succs()[i][u].1 };
            let bi = node_index(e.to, nb);
            let di = node_index(x.dependent, nb);
            &&& i < nb
            &&& valid_node(e.to, nb)
            &&& edge_dependences(pdt, e, nb).contains(x) <==> (x.controller == e.from && x.label == e.kind
                && !pdt.row(i)[bi] && pdt.row(bi)[di] && (di == i || !pdt.row(i)[di]))
        }),
{
    let nb = cfg.nb();
    let e = CfgEdge { from: node_at(i, nb), to: cfg.succs()[i][u].0, kind: cfg.succs()[i][u].1 };
    let bi = node_index(e.to, nb);
    let di = node_index(x.dependent, nb);
    assert(cfg.succs()[i] == cfg.succ(i));
    if i == nb {
        assert(cfg.succ(nb as int).len() == 0);
    }
    assert(valid_node(cfg.succ(i)[u].0, nb));
    assert(node_index(e.from, nb) == i);
    let ed = edge_dependences(pdt, e, nb);
    if pdt.row(i)[bi] {
        assert(ed =~= Seq::<ControlDependenceEdge>::empty());
    } else {
        let m = pdt.rows();
        assert(reaches_exit(cfg, i));
        pdt.lemma_ipdom_closest(cfg, i);
        let s = pdt.ipdom(i)->0;
        pdt.lemma_ipdom_shrinks(cfg, i);
        let si = node_index(s, nb);
        assert(reaches_exit(cfg, si));
        pdt.lemma_postdominance_order(cfg, si, si, si);
        assert(pdt.row(i)[si] && si != i);
        // a strict post-dominator of the branch post-dominates each successor
        assert(m[i] == pdt.row(i) && m[bi] == pdt.row(bi));
        assert(m[i] == eq_row(cfg, m, i));
        assert(eq_row(cfg, m, i)[si]);
        assert(meet(cfg, m, i, cfg.succ(i).len() as int, si));
        assert(m[node_index(cfg.succ(i)[u].0, nb)][si]);
        assert(pdt.row(bi)[si]);
        assert(m[bi].len() == nb + 1);
        lemma_count_true_le(pdt.row(bi));
        lemma_chain_members(pdt, cfg, e.to, s, chain_fuel(nb));
        let ch = chain(pdt, Some(e.to), Some(s), nb, chain_fuel(nb));
        let f = |y: CfgNode| ControlDependenceEdge { controller: e.from, dependent: y, label: e.kind };
        assert(ed == ch.map_values(f));
        if ed.contains(x) {
            let w = choose|w: int| 0 <= w < ed.len() && ed[w] == x;
            assert(ch[w] == x.dependent);
            assert(ch.contains(x.dependent));
        }
        if x.controller == e.from && x.label == e.kind && pdt.row(bi)[di] && (di == i || !pdt.row(i)[di]) {
            assert(ch.contains(x.dependent));
            let w = choose|w: int| 0 <= w < ch.len() && ch[w] == x.dependent;
            assert(ed[w] == x);
        }
    }
}

impl ControlDependenceGraph {
    /// On a graph whose every node has a path to EXIT, the dependences are
    /// exactly the classic ones: `d` depends on `c` through an edge of kind
    /// `k` iff some edge `c -> b` of kind `k` leads to a node `b` that does
    /// not post-dominate `c`, `d` post-dominates `b`, and `d` does not
    /// strictly post-dominate `c`. Every controller is a branch, with two
    /// different successors.
    pub proof fn lemma_dependence_is_classic(
        &self,
        cfg: ControlFlowGraph,
        pdt: PostDominatorTree,
        c: CfgNode,
        d: CfgNode,
        k: EdgeKind,
    )
        requires
            self.is_cdg_of(cfg, pdt),
            pdt.wf_for(cfg),
            all_reach_exit(cfg),
            valid_node(c, cfg.nb()),
            valid_node(d, cfg.nb()),
        ensures
            self.edge_list().contains(ControlDependenceEdge { controller: c, dependent: d, label: k })
                <==> classic_dependence(cfg, c, d, k),
            self.edge_list().contains(ControlDependenceEdge { controller: c, dependent: d, label: k }) ==> is_branch(
                cfg,
                c,
            ),
    {
        let nb = cfg.nb();
        let x = ControlDependenceEdge { controller: c, dependent: d, label: k };
        let es = edges_upto(cfg.succs(), nb, nb + 1);
        let raw = raw_dependences(pdt, es, nb);
        let ci = node_index(c, nb);
        let di = node_index(d, nb);
        lemma_dedup(raw);
        lemma_raw_member(pdt, es, nb, x);
        // post-dominator rows are the path property
        assert forall|a: CfgNode, b: CfgNode| valid_node(a, nb) && valid_node(b, nb) implies #[trigger] on_all_paths(
            cfg,
            a,
            b,
        ) == pdt.row(node_index(a, nb))[node_index(b, nb)] by {
            assert(reaches_exit(cfg, node_index(a, nb)));
            assert(node_at(node_index(a, nb), nb) == a && node_at(node_index(b, nb), nb) == b);
        }
        if self.edge_list().contains(x) {
            assert(raw.contains(x));
            let t = choose|t: int| 0 <= t < es.len() && #[trigger] edge_dependences(pdt, es[t], nb).contains(x);
            lemma_edges_upto_member(cfg.succs(), nb, nb + 1, t);
            let (i, u) = choose|i: int, u: int|
                0 <= i < nb + 1 && 0 <= u < cfg.succs()[i].len() && #[trigger] edges_upto(cfg.succs(), nb, nb + 1)[t]
                    == (CfgEdge { from: node_at(i, nb), to: cfg.succs()[i][u].0, kind: cfg.succs()[i][u].1 });
            lemma_edge_member(pdt, cfg, i, u, x);
            let b = cfg.succs()[i][u].0;
            let bi = node_index(b, nb);
            assert(node_at(i, nb) == c);
            assert(ci == i);
            assert(es[t] == (CfgEdge { from: c, to: b, kind: k }));
            assert(has_cfg_edge(cfg, c, b, k));
            assert(on_all_paths(cfg, c, b) == pdt.row(ci)[bi]);
            assert(on_all_paths(cfg, b, d) == pdt.row(bi)[di]);
            assert(on_all_paths(cfg, c, d) == pdt.row(ci)[di]);
            assert(classic_dependence(cfg, c, d, k));
            // the branch has a second successor: otherwise `b` would
            // post-dominate it
            let m = pdt.rows();
            assert(cfg.succs()[i] == cfg.succ(i));
            assert(cfg.step(c, b, true)) by {
                assert(cfg.nbrs(ci, true)[u].0 == b);
            }
            if forall|w: int| 0 <= w < cfg.succ(i).len() ==> (#[trigger] cfg.succ(i)[w]).0 == b {
                assert(reaches_exit(cfg, bi));
                pdt.lemma_postdominance_order(cfg, bi, bi, bi);
                assert(m[bi] == pdt.row(bi));
                assert(meet(cfg, m, i, cfg.succ(i).len() as int, bi));
                assert(m[i] == eq_row(cfg, m, i));
                assert(m[i] == pdt.row(i));
                assert(pdt.row(i)[bi]);
                assert(false);
            }
            let w = choose|w: int| 0 <= w < cfg.succ(i).len() && (#[trigger] cfg.succ(i)[w]).0 != b;
            let b2 = cfg.succ(i)[w].0;
            assert(cfg.step(c, b2, true)) by {
                assert(cfg.nbrs(ci, true)[w].0 == b2);
            }
            assert(is_branch(cfg, c));
        }
        if classic_dependence(cfg, c, d, k) {
            let b = choose|b: CfgNode|
                #[trigger] has_cfg_edge(cfg, c, b, k) && !on_all_paths(cfg, c, b) && on_all_paths(cfg, b, d) && (d == c
                    || !on_all_paths(cfg, c, d));
            let ce = CfgEdge { from: c, to: b, kind: k };
            let t = choose|t: int| 0 <= t < es.len() && es[t] == ce;
            lemma_edges_upto_member(cfg.succs(), nb, nb + 1, t);
            let (i, u) = choose|i: int, u: int|
                0 <= i < nb + 1 && 0 <= u < cfg.succs()[i].len() && #[trigger] edges_upto(cfg.succs(), nb, nb + 1)[t]
                    == (CfgEdge { from: node_at(i, nb), to: cfg.succs()[i][u].0, kind: cfg.succs()[i][u].1 });
            lemma_edge_member(pdt, cfg, i, u, x);
            let bi = node_index(b, nb);
            assert(node_at(i, nb) == c);
            assert(ci == i);
            assert(valid_node(b, nb));
            assert(on_all_paths(cfg, c, b) == pdt.row(ci)[bi]);
            assert(on_all_paths(cfg, b, d) == pdt.row(bi)[di]);
            assert(on_all_paths(cfg, c, d) == pdt.row(ci)[di]);
            assert(edge_dependences(pdt, es[t], nb).contains(x));
            assert(raw.contains(x));
            lemma_dedup_complete(raw, x);
        }
    }
}

} // verus!
