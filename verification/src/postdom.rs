//! Post-dominator analysis: for every node, the set of nodes that lie on
//! every path from it to EXIT, the immediate post-dominator and the
//! post-dominator tree.
use vstd::prelude::*;
use crate::cfg::{ControlFlowGraph, CfgNode, distinct, valid_node, node_index, node_at};

verus! {

/// Number of `true` entries.
pub open spec fn count_true(s: Seq<bool>) -> nat
    decreases s.len(),
{
    if s.len() == 0 {
        0
    } else {
        count_true(s.drop_last()) + if s.last() {
            1nat
        } else {
            0nat
        }
    }
}

/// Number of `true` entries over all rows.
pub open spec fn total_true(m: Seq<Seq<bool>>) -> nat
    decreases m.len(),
{
    if m.len() == 0 {
        0
    } else {
        total_true(m.drop_last()) + count_true(m.last())
    }
}

/// Pointwise inclusion of two rows of the same length.
pub open spec fn subset_row(a: Seq<bool>, b: Seq<bool>) -> bool {
    &&& a.len() == b.len()
    &&& forall|i: int| 0 <= i < a.len() && a[i] ==> #[trigger] b[i]
}

/// Every path from `n` to EXIT passes through `d`.
pub open spec fn on_all_paths(cfg: ControlFlowGraph, n: CfgNode, d: CfgNode) -> bool {
    forall|p: Seq<CfgNode>|
        #[trigger] cfg.is_path(p) && p[0] == n && p.last() == CfgNode::Exit ==> p.contains(d)
}

/// The node at position `i` has a path to EXIT.
pub open spec fn reaches_exit(cfg: ControlFlowGraph, i: int) -> bool {
    cfg.reaches(node_at(i, cfg.nb()), CfgNode::Exit)
}

/// `d` is in the rows of all the first `k` successors of node `i`.
pub open spec fn meet(cfg: ControlFlowGraph, m: Seq<Seq<bool>>, i: int, k: int, d: int) -> bool {
    forall|t: int|
        0 <= t < k ==> m[node_index((#[trigger] cfg.succ(i)[t]).0, cfg.nb())][d]
}

/// The dataflow equation of node `i`:
/// `PDOM[i] = {i} ∪ ⋂ { PDOM[s] | s successor of i }` (just `{i}` without
/// successors).
pub open spec fn eq_row(cfg: ControlFlowGraph, m: Seq<Seq<bool>>, i: int) -> Seq<bool> {
    Seq::new(
        cfg.nb() + 1,
        |d: int| d == i || (cfg.succ(i).len() > 0 && meet(cfg, m, i, cfg.succ(i).len() as int, d)),
    )
}

/// The views of a vector of rows.
pub open spec fn view_rows(v: Seq<Vec<bool>>) -> Seq<Seq<bool>> {
    v.map_values(|r: Vec<bool>| r@)
}

/// The rows have one entry per node.
pub open spec fn rows_ok(cfg: ControlFlowGraph, m: Seq<Seq<bool>>) -> bool {
    &&& m.len() == cfg.nb() + 1
    &&& forall|i: int| 0 <= i < m.len() ==> (#[trigger] m[i]).len() == cfg.nb() + 1
}

/// EXIT's row is `{EXIT}`.
pub open spec fn exit_row(cfg: ControlFlowGraph, m: Seq<Seq<bool>>) -> bool {
    forall|d: int| 0 <= d <= cfg.nb() ==> (#[trigger] m[cfg.nb() as int][d] <==> d == cfg.nb())
}

/// Nodes without a path to EXIT keep the full set.
pub open spec fn outside_full(cfg: ControlFlowGraph, m: Seq<Seq<bool>>) -> bool {
    forall|i: int, d: int|
        0 <= i <= cfg.nb() && 0 <= d <= cfg.nb() && !reaches_exit(cfg, i) ==> #[trigger] m[i][d]
}

/// Each row of a node with a path to EXIT includes its equation's value.
pub open spec fn rows_shrinking(cfg: ControlFlowGraph, m: Seq<Seq<bool>>) -> bool {
    forall|i: int|
        0 <= i < cfg.nb() && reaches_exit(cfg, i) ==> subset_row(
            #[trigger] eq_row(cfg, m, i),
            m[i],
        )
}

/// Each row includes every node that lies on all paths to EXIT.
pub open spec fn rows_complete(cfg: ControlFlowGraph, m: Seq<Seq<bool>>) -> bool {
    forall|i: int, d: int|
        0 <= i <= cfg.nb() && 0 <= d <= cfg.nb() && reaches_exit(cfg, i) && on_all_paths(
            cfg,
            node_at(i, cfg.nb()),
            node_at(d, cfg.nb()),
        ) ==> #[trigger] m[i][d]
}

/// Every node with a path to EXIT satisfies its equation.
pub open spec fn rows_fixpoint(cfg: ControlFlowGraph, m: Seq<Seq<bool>>) -> bool {
    forall|i: int| 0 <= i < cfg.nb() && reaches_exit(cfg, i) ==> #[trigger] m[i] == eq_row(cfg, m, i)
}

/// Invariant of the iteration.
pub open spec fn iter_state(cfg: ControlFlowGraph, m: Seq<Seq<bool>>) -> bool {
    &&& rows_ok(cfg, m)
    &&& exit_row(cfg, m)
    &&& outside_full(cfg, m)
    &&& rows_shrinking(cfg, m)
    &&& rows_complete(cfg, m)
}

/// `d` is a candidate immediate post-dominator of node `i`: a
/// post-dominator of `i` other than `i` whose own set is smaller than that
/// of `i`.
pub open spec fn ipdom_candidate(m: Seq<Seq<bool>>, i: int, d: int) -> bool {
    &&& 0 <= d < m.len()
    &&& m[i][d]
    &&& d != i
    &&& count_true(m[d]) < count_true(m[i])
}

/// `c` is the immediate post-dominator choice for node `i`: the closest
/// candidate, the one whose own set is largest (the first in node order
/// among equals).
pub open spec fn ipdom_choice(m: Seq<Seq<bool>>, i: int, c: int) -> bool {
    &&& ipdom_candidate(m, i, c)
    &&& forall|d: int|
        #[trigger] ipdom_candidate(m, i, d) ==> count_true(m[c]) > count_true(m[d]) || (count_true(m[c])
            == count_true(m[d]) && c <= d)
}

/// `r` is the immediate post-dominator of node `i`, where `reach` says
/// whether `i` has a path to EXIT: none for EXIT; EXIT for a node without
/// such a path (whose set holds every node, EXIT's being the smallest);
/// otherwise none for a node without a candidate, else the choice above.
pub open spec fn ipdom_ok(m: Seq<Seq<bool>>, nb: nat, i: int, reach: bool, r: Option<CfgNode>) -> bool {
    if i == nb {
        r is None
    } else if !reach {
        r == Some(CfgNode::Exit)
    } else {
        match r {
            None => forall|d: int| !#[trigger] ipdom_candidate(m, i, d),
            Some(x) => valid_node(x, nb) && ipdom_choice(m, i, node_index(x, nb)),
        }
    }
}

/// The nodes among the first `k` whose immediate post-dominator is `p`, in
/// node order.
pub open spec fn children_upto(ip: Seq<Option<CfgNode>>, p: CfgNode, nb: nat, k: nat) -> Seq<
    CfgNode,
>
    decreases k,
{
    if k == 0 {
        Seq::empty()
    } else {
        children_upto(ip, p, nb, (k - 1) as nat) + if ip[k - 1] == Some(p) {
            seq![node_at(k - 1, nb)]
        } else {
            Seq::empty()
        }
    }
}

/// Post-dominator tree computed from the CFG; one entry per node, in node
/// order.
pub struct PostDominatorTree {
    num_nodes: usize,
    /// Immediate post-dominator for each node
    ipostdom: Vec<Option<CfgNode>>,
    /// Post-dominator sets for each node, one flag per node
    postdom_sets: Vec<Vec<bool>>,
    /// Children in the post-dominator tree
    children: Vec<Vec<CfgNode>>,
}

impl PostDominatorTree {
    /// Number of nodes.
    pub closed spec fn n(&self) -> nat {
        self.num_nodes as nat
    }

    /// The post-dominator set of the node at position `i`, as one flag per node.
    pub closed spec fn row(&self, i: int) -> Seq<bool> {
        self.postdom_sets@[i]@
    }

    /// All rows.
    pub open spec fn rows(&self) -> Seq<Seq<bool>> {
        Seq::new(self.n(), |i: int| self.row(i))
    }

    /// The immediate post-dominator of the node at position `i`.
    pub closed spec fn ipdom(&self, i: int) -> Option<CfgNode> {
        self.ipostdom@[i]
    }

    /// The children of the node at position `i`, in node order.
    pub closed spec fn kids(&self, i: int) -> Seq<CfgNode> {
        self.children@[i]@
    }

    pub closed spec fn sized(&self) -> bool {
        &&& self.ipostdom@.len() == self.num_nodes
        &&& self.postdom_sets@.len() == self.num_nodes
        &&& self.children@.len() == self.num_nodes
        &&& forall|i: int| 0 <= i < self.num_nodes ==> (#[trigger] self.postdom_sets@[i])@.len() == self.num_nodes
    }

    /// The tree belongs to `cfg`: one row per node and ...
    pub open spec fn shaped_for(&self, cfg: ControlFlowGraph) -> bool {
        &&& self.n() == cfg.nb() + 1
        &&& self.sized()
        &&& rows_ok(cfg, self.rows())
    }

    /// The rows are exactly the post-dominator sets: for a node with a path
    /// to EXIT, `d` is in its row iff every path from it to EXIT passes
    /// through `d`; a node without such a path keeps every node.
    pub open spec fn rows_exact(&self, cfg: ControlFlowGraph) -> bool {
        &&& forall|i: int, d: int|
            0 <= i <= cfg.nb() && 0 <= d <= cfg.nb() && reaches_exit(cfg, i) ==> (
            #[trigger] self.row(i)[d] <==> on_all_paths(
                cfg,
                node_at(i, cfg.nb()),
                node_at(d, cfg.nb()),
            ))
        &&& forall|i: int, d: int|
            0 <= i <= cfg.nb() && 0 <= d <= cfg.nb() && !reaches_exit(cfg, i) ==> #[trigger] self.row(
                i,
            )[d]
    }

    /// The immediate post-dominators of all nodes, in node order.
    pub open spec fn ipdoms(&self) -> Seq<Option<CfgNode>> {
        Seq::new(self.n(), |i: int| self.ipdom(i))
    }

    /// Every node's immediate post-dominator is the one chosen by
    /// `ipdom_ok`.
    pub open spec fn ipdom_exact(&self, cfg: ControlFlowGraph) -> bool {
        forall|i: int|
            0 <= i <= cfg.nb() ==> ipdom_ok(self.rows(), cfg.nb(), i, reaches_exit(cfg, i), #[trigger] self.ipdom(i))
    }

    /// Every node's children are the nodes whose immediate post-dominator it
    /// is, in node order.
    pub open spec fn children_exact(&self, cfg: ControlFlowGraph) -> bool {
        forall|p: int|
            0 <= p <= cfg.nb() ==> #[trigger] self.kids(p) == children_upto(
                self.ipdoms(),
                node_at(p, cfg.nb()),
                cfg.nb(),
                cfg.nb() + 1,
            )
    }

    /// The tree is the post-dominator analysis of `cfg`.
    pub open spec fn wf_for(&self, cfg: ControlFlowGraph) -> bool {
        &&& cfg.wf()
        &&& self.shaped_for(cfg)
        &&& self.rows_exact(cfg)
        &&& exit_row(cfg, self.rows())
        &&& rows_fixpoint(cfg, self.rows())
        &&& self.ipdom_exact(cfg)
        &&& self.children_exact(cfg)
    }

    /// Compute post-dominator analysis for the given CFG.
    pub fn compute(cfg: &ControlFlowGraph) -> (t: Self)
        requires
            cfg.wf(),
        ensures
            t.wf_for(*cfg),
    {
        let n = cfg.nodes().len();
        let nb = n - 1;
        let ghost gnb = cfg.nb();
        // EXIT post-dominates itself; all other nodes start with the full set
        let mut rows: Vec<Vec<bool>> = Vec::new();
        let mut i: usize = 0;
        while i < n
            invariant
                n == gnb + 1,
                nb == gnb,
                i <= n,
                rows@.len() == i,
                forall|j: int| 0 <= j < i ==> (#[trigger] rows@[j])@.len() == n,
                forall|j: int, d: int|
                    0 <= j < i && j != nb && 0 <= d < n ==> #[trigger] rows@[j]@[d],
                forall|d: int| i > nb && 0 <= d < n ==> (#[trigger] rows@[nb as int]@[d] <==> d == nb),
            decreases n - i,
        {
            let mut row: Vec<bool> = Vec::new();
            let mut d: usize = 0;
            while d < n
                invariant
                    d <= n,
                    row@.len() == d,
                    forall|e: int| 0 <= e < d ==> (#[trigger] row@[e] <==> (i != nb || e == nb)),
                decreases n - d,
            {
                row.push(i != nb || d == nb);
                d = d + 1;
            }
            rows.push(row);
            i = i + 1;
        }
        let ghost m_init = view_rows(rows@);
        proof {
            assert(rows_ok(*cfg, m_init));
            assert forall|i: int| 0 <= i < cfg.nb() && reaches_exit(*cfg, i) implies subset_row(
                #[trigger] eq_row(*cfg, m_init, i),
                m_init[i],
            ) by {
                assert(m_init[i] == rows@[i]@);
            }
            assert forall|i: int, d: int|
                0 <= i <= cfg.nb() && 0 <= d <= cfg.nb() && reaches_exit(*cfg, i) && on_all_paths(
                    *cfg,
                    node_at(i, cfg.nb()),
                    node_at(d, cfg.nb()),
                ) implies #[trigger] m_init[i][d] by {
                assert(m_init[i] == rows@[i]@);
                if i == nb {
                    let p = seq![CfgNode::Exit];
                    assert(cfg.is_path(p));
                    assert(p.contains(node_at(d, cfg.nb())));
                    assert(p[0] == node_at(d, cfg.nb()));
                }
            }
            assert forall|i: int, d: int|
                0 <= i <= cfg.nb() && 0 <= d <= cfg.nb() && !reaches_exit(*cfg, i) implies #[trigger] m_init[i][d] by {
                assert(m_init[i] == rows@[i]@);
                if i == nb {
                    let p = seq![CfgNode::Exit];
                    assert(cfg.is_walk(p, true));
                }
            }
            assert forall|d: int| 0 <= d <= cfg.nb() implies (#[trigger] m_init[cfg.nb() as int][d] <==> d == cfg.nb()) by {
                assert(m_init[nb as int] == rows@[nb as int]@);
            }
        }

        // iterate to fixpoint
        let rpo = cfg.reverse_postorder_from_exit();
        proof {
            assert forall|x: CfgNode| rpo@.contains(x) <==> valid_node(x, cfg.nb()) && cfg.reaches(x, CfgNode::Exit) by {
                cfg.lemma_backward_reach(CfgNode::Exit, x);
            }
        }
        let mut changed = true;
        while changed
            invariant
                cfg.wf(),
                n == cfg.nb() + 1,
                nb == cfg.nb(),
                iter_state(*cfg, view_rows(rows@)),
                rows@.len() == n,
                forall|x: CfgNode| rpo@.contains(x) <==> valid_node(x, cfg.nb()) && cfg.reaches(x, CfgNode::Exit),
                !changed ==> rows_fixpoint(*cfg, view_rows(rows@)),
            decreases total_true(view_rows(rows@)) + if changed {
                1nat
            } else {
                0nat
            },
        {
            changed = false;
            let ghost m0 = view_rows(rows@);
            let mut j: usize = 0;
            while j < rpo.len()
                invariant
                    cfg.wf(),
                    n == cfg.nb() + 1,
                    nb == cfg.nb(),
                    j <= rpo@.len(),
                    iter_state(*cfg, view_rows(rows@)),
                    rows@.len() == n,
                    forall|x: CfgNode| rpo@.contains(x) <==> valid_node(x, cfg.nb()) && cfg.reaches(x, CfgNode::Exit),
                    total_true(view_rows(rows@)) <= total_true(m0),
                    changed ==> total_true(view_rows(rows@)) < total_true(m0),
                    !changed ==> view_rows(rows@) == m0,
                    !changed ==> forall|jj: int|
                        0 <= jj < j && rpo@[jj] != CfgNode::Exit ==> view_rows(rows@)[node_index(
                            #[trigger] rpo@[jj],
                            cfg.nb(),
                        )] == eq_row(*cfg, view_rows(rows@), node_index(rpo@[jj], cfg.nb())),
                decreases rpo@.len() - j,
            {
                let node = rpo[j];
                proof {
                    assert(rpo@.contains(node));
                }
                match node {
                    CfgNode::Block(ni) => {
                        let ghost m = view_rows(rows@);
                        let new_row = Self::step_row(cfg, &rows, node);
                        if !rows_equal(&rows[ni], &new_row) {
                            proof {
                                assert(node_at(ni as int, cfg.nb()) == node);
                                assert(reaches_exit(*cfg, ni as int));
                                lemma_update_state(*cfg, m, ni as int);
                            }
                            rows.set(ni, new_row);
                            proof {
                                assert(view_rows(rows@) =~= m.update(ni as int, eq_row(*cfg, m, ni as int)));
                            }
                            changed = true;
                        } else {
                            proof {
                                assert(rows@[ni as int]@ == m[ni as int]);
                            }
                        }
                    },
                    CfgNode::Exit => {},
                }
                j = j + 1;
            }
            proof {
                if !changed {
                    let m = view_rows(rows@);
                    assert forall|i: int| 0 <= i < cfg.nb() && reaches_exit(*cfg, i) implies #[trigger] m[i]
                        == eq_row(*cfg, m, i) by {
                        let x = node_at(i, cfg.nb());
                        assert(rpo@.contains(x));
                        let jj = choose|jj: int| 0 <= jj < rpo@.len() && rpo@[jj] == x;
                        assert(node_index(rpo@[jj], cfg.nb()) == i);
                    }
                }
            }
        }
        let ghost m = view_rows(rows@);
        proof {
            assert forall|i: int, d: int|
                0 <= i <= cfg.nb() && 0 <= d <= cfg.nb() && reaches_exit(*cfg, i) implies (
                #[trigger] m[i][d] <==> on_all_paths(
                    *cfg,
                    node_at(i, cfg.nb()),
                    node_at(d, cfg.nb()),
                )) by {
                if m[i][d] {
                    assert forall|p: Seq<CfgNode>|
                        #[trigger] cfg.is_path(p) && p[0] == node_at(i, cfg.nb()) && p.last() == CfgNode::Exit implies p.contains(
                        node_at(d, cfg.nb()),
                    ) by {
                        lemma_sound(*cfg, m, p, d);
                    }
                }
            }
        }
        // post-dominator set sizes
        let mut sizes: Vec<usize> = Vec::new();
        let mut i: usize = 0;
        while i < n
            invariant
                n == cfg.nb() + 1,
                i <= n,
                rows_ok(*cfg, m),
                m == view_rows(rows@),
                sizes@.len() == i,
                forall|j: int| 0 <= j < i ==> #[trigger] sizes@[j] == count_true(m[j]),
            decreases n - i,
        {
            proof {
                assert(rows@[i as int]@ == m[i as int]);
            }
            sizes.push(count_row(&rows[i]));
            i = i + 1;
        }

        // immediate post-dominator: the closest post-dominator, the one with
        // the largest set (the first such in node order)
        let mut ipostdom: Vec<Option<CfgNode>> = Vec::new();
        let mut i: usize = 0;
        while i < n
            invariant
                n == cfg.nb() + 1,
                nb == cfg.nb(),
                i <= n,
                rows_ok(*cfg, m),
                m == view_rows(rows@),
                sizes@.len() == n,
                forall|j: int| 0 <= j < n ==> #[trigger] sizes@[j] == count_true(m[j]),
                ipostdom@.len() == i,
                forall|j: int| 0 <= j < i ==> ipdom_ok(m, cfg.nb(), j, reaches_exit(*cfg, j), #[trigger] ipostdom@[j]),
                forall|x: CfgNode| rpo@.contains(x) <==> valid_node(x, cfg.nb()) && cfg.reaches(x, CfgNode::Exit),
            decreases n - i,
        {
            if i == nb {
                ipostdom.push(None);
            } else if !rpo_has(&rpo, CfgNode::Block(i)) {
                proof {
                    assert(node_at(i as int, cfg.nb()) == CfgNode::Block(i));
                    assert(!reaches_exit(*cfg, i as int));
                }
                ipostdom.push(Some(CfgNode::Exit));
            } else {
                proof {
                    assert(node_at(i as int, cfg.nb()) == CfgNode::Block(i));
                    assert(reaches_exit(*cfg, i as int));
                }
                let row = &rows[i];
                proof {
                    assert(row@ == m[i as int]);
                }
                let mut best: Option<usize> = None;
                let mut d: usize = 0;
                while d < n
                    invariant
                        n == cfg.nb() + 1,
                        i < n,
                        d <= n,
                        row@ == m[i as int],
                        rows_ok(*cfg, m),
                        sizes@.len() == n,
                        forall|j: int| 0 <= j < n ==> #[trigger] sizes@[j] == count_true(m[j]),
                        best is None ==> forall|e: int| 0 <= e < d ==> !#[trigger] ipdom_candidate(m, i as int, e),
                        best matches Some(b) ==> b < d && ipdom_candidate(m, i as int, b as int) && forall|e: int|
                            0 <= e < d && #[trigger] ipdom_candidate(m, i as int, e) ==> count_true(m[b as int]) > count_true(m[e])
                                || (count_true(m[b as int]) == count_true(m[e]) && b <= e),
                    decreases n - d,
                {
                    if row[d] && d != i && sizes[d] < sizes[i] {
                        match best {
                            None => {
                                best = Some(d);
                            },
                            Some(b) => {
                                if sizes[d] > sizes[b] {
                                    best = Some(d);
                                }
                            },
                        }
                    }
                    d = d + 1;
                }
                match best {
                    None => {
                        ipostdom.push(None);
                    },
                    Some(b) => {
                        let c = if b == nb {
                            CfgNode::Exit
                        } else {
                            CfgNode::Block(b)
                        };
                        proof {
                            assert(node_index(c, cfg.nb()) == b);
                        }
                        ipostdom.push(Some(c));
                    },
                }
            }
            i = i + 1;
        }

        // post-dominator tree children
        let mut children: Vec<Vec<CfgNode>> = Vec::new();
        let mut i: usize = 0;
        while i < n
            invariant
                i <= n,
                children@.len() == i,
                forall|j: int| 0 <= j < i ==> (#[trigger] children@[j])@.len() == 0,
            decreases n - i,
        {
            children.push(Vec::new());
            i = i + 1;
        }
        let mut i: usize = 0;
        while i < n
            invariant
                n == cfg.nb() + 1,
                nb == cfg.nb(),
                i <= n,
                ipostdom@.len() == n,
                forall|j: int| 0 <= j < n ==> ipdom_ok(m, cfg.nb(), j, reaches_exit(*cfg, j), #[trigger] ipostdom@[j]),
                children@.len() == n,
                forall|p: int|
                    0 <= p < n ==> (#[trigger] children@[p])@ == children_upto(
                        ipostdom@,
                        node_at(p, cfg.nb()),
                        cfg.nb(),
                        i as nat,
                    ),
            decreases n - i,
        {
            let ghost before = children@;
            match ipostdom[i] {
                Some(parent) => {
                    proof {
                        assert(ipdom_ok(m, cfg.nb(), i as int, reaches_exit(*cfg, i as int), ipostdom@[i as int]));
                    }
                    let pi = match parent {
                        CfgNode::Block(b) => b,
                        CfgNode::Exit => nb,
                    };
                    let node = if i == nb {
                        CfgNode::Exit
                    } else {
                        CfgNode::Block(i)
                    };
                    children[pi].push(node);
                    proof {
                        assert forall|p: int| 0 <= p < n implies (#[trigger] children@[p])@ == children_upto(
                            ipostdom@,
                            node_at(p, cfg.nb()),
                            cfg.nb(),
                            (i + 1) as nat,
                        ) by {
                            if p == pi {
                                assert(node_at(p, cfg.nb()) == parent);
                            } else {
                                assert(node_at(p, cfg.nb()) != parent);
                                assert(children@[p] == before[p]);
                            }
                        }
                    }
                },
                None => {},
            }
            i = i + 1;
        }

        let t = PostDominatorTree { num_nodes: n, ipostdom, postdom_sets: rows, children };
        proof {
            assert forall|i: int| 0 <= i < t.n() implies #[trigger] t.row(i) == m[i] by {}
            assert(t.rows() =~= m);
            assert forall|i: int| 0 <= i < t.num_nodes implies (#[trigger] t.postdom_sets@[i])@.len() == t.num_nodes by {
                assert(t.row(i) == m[i]);
            }
            assert(t.ipdoms() =~= ipostdom@);
            assert forall|i: int| 0 <= i <= cfg.nb() implies ipdom_ok(
                t.rows(),
                cfg.nb(),
                i,
                reaches_exit(*cfg, i),
                #[trigger] t.ipdom(i),
            ) by {
                assert(ipdom_ok(m, cfg.nb(), i, reaches_exit(*cfg, i), ipostdom@[i]));
            }
            assert forall|p: int| 0 <= p <= cfg.nb() implies #[trigger] t.kids(p) == children_upto(
                t.ipdoms(),
                node_at(p, cfg.nb()),
                cfg.nb(),
                cfg.nb() + 1,
            ) by {
                assert(children@[p]@ == children_upto(ipostdom@, node_at(p, cfg.nb()), cfg.nb(), n as nat));
            }
        }

        t
    }

    /// One evaluation of the equation of `node` on the current rows.
    fn step_row(cfg: &ControlFlowGraph, rows: &Vec<Vec<bool>>, node: CfgNode) -> (r: Vec<bool>)
        requires
            cfg.wf(),
            node matches CfgNode::Block(b) && b < cfg.nb(),
            rows_ok(*cfg, view_rows(rows@)),
        ensures
            r@ == eq_row(*cfg, view_rows(rows@), node_index(node, cfg.nb())),
    {
        let ghost m = view_rows(rows@);
        let ghost ni = node_index(node, cfg.nb());
        let n = rows.len();
        let succs = cfg.successors(node);
        let mut new_row: Vec<bool> = Vec::new();
        let mut have = false;
        let mut t: usize = 0;
        while t < succs.len()
            invariant
                cfg.wf(),
                n == cfg.nb() + 1,
                rows_ok(*cfg, m),
                m == view_rows(rows@),
                0 <= ni < cfg.nb(),
                succs@ == cfg.succ(ni),
                t <= succs@.len(),
                have == (t > 0),
                have ==> new_row@.len() == n,
                !have ==> new_row@.len() == 0,
                have ==> forall|d: int| 0 <= d < n ==> (#[trigger] new_row@[d] <==> meet(*cfg, m, ni, t as int, d)),
            decreases succs@.len() - t,
        {
            let (succ, _) = succs[t];
            proof {
                assert(valid_node(cfg.succ(ni)[t as int].0, cfg.nb()));
            }
            let si = match succ {
                CfgNode::Block(b) => b,
                CfgNode::Exit => n - 1,
            };
            let succ_row = &rows[si];
            proof {
                assert(succ_row@ == m[si as int]);
                assert(node_index(succ, cfg.nb()) == si);
            }
            if !have {
                new_row = copy_row(succ_row);
                have = true;
                proof {
                    assert forall|d: int| 0 <= d < n implies (#[trigger] new_row@[d] <==> meet(*cfg, m, ni, (t + 1) as int, d)) by {
                        if new_row@[d] {
                            assert forall|u: int| 0 <= u < t + 1 implies m[node_index((#[trigger] cfg.succ(ni)[u]).0, cfg.nb())][d] by {
                                assert(u == 0);
                            }
                        }
                    }
                }
            } else {
                let mut d: usize = 0;
                let ghost prev = new_row@;
                while d < n
                    invariant
                        d <= n,
                        n == prev.len(),
                        new_row@.len() == n,
                        succ_row@.len() == n,
                        forall|e: int| 0 <= e < d ==> #[trigger] new_row@[e] == (prev[e] && succ_row@[e]),
                        forall|e: int| d <= e < n ==> #[trigger] new_row@[e] == prev[e],
                    decreases n - d,
                {
                    let v = new_row[d] && succ_row[d];
                    new_row.set(d, v);
                    d = d + 1;
                }
                proof {
                    assert forall|d: int| 0 <= d < n implies (#[trigger] new_row@[d] <==> meet(*cfg, m, ni, (t + 1) as int, d)) by {
                        if meet(*cfg, m, ni, (t + 1) as int, d) {
                            assert(m[node_index(cfg.succ(ni)[t as int].0, cfg.nb())][d]);
                        }
                    }
                }
            }
            t = t + 1;
        }
        if !have {
            // no successors: the empty set
            let mut d: usize = 0;
            while d < n
                invariant
                    d <= n,
                    new_row@.len() == d,
                    forall|e: int| 0 <= e < d ==> !#[trigger] new_row@[e],
                decreases n - d,
            {
                new_row.push(false);
                d = d + 1;
            }
        }
        let b = match node {
            CfgNode::Block(b) => b,
            CfgNode::Exit => n - 1,
        };
        new_row.set(b, true);
        proof {
            assert(new_row@ =~= eq_row(*cfg, m, ni));
        }
        new_row
    }
}

/// Number of `true` entries of a row.
fn count_row(r: &Vec<bool>) -> (c: usize)
    ensures
        c == count_true(r@),
{
    let mut c: usize = 0;
    let mut i: usize = 0;
    while i < r.len()
        invariant
            i <= r@.len(),
            c == count_true(r@.take(i as int)),
            c <= i,
        decreases r@.len() - i,
    {
        assert(r@.take(i + 1).drop_last() =~= r@.take(i as int));
        if r[i] {
            c = c + 1;
        }
        i = i + 1;
    }
    assert(r@.take(i as int) =~= r@);
    c
}

impl PostDominatorTree {
    /// The immediate post-dominator of a node has a strictly smaller
    /// post-dominator set, so following immediate post-dominators always
    /// ends (at EXIT, which has none).
    pub proof fn lemma_ipdom_shrinks(&self, cfg: ControlFlowGraph, i: int)
        requires
            self.wf_for(cfg),
            0 <= i <= cfg.nb(),
            self.ipdom(i) is Some,
        ensures
            valid_node(self.ipdom(i)->0, cfg.nb()),
            count_true(self.row(node_index(self.ipdom(i)->0, cfg.nb()))) < count_true(self.row(i)),
    {
        let nb = cfg.nb();
        let m = self.rows();
        assert(ipdom_ok(m, nb, i, reaches_exit(cfg, i), self.ipdom(i)));
        let x = self.ipdom(i)->0;
        let c = node_index(x, nb);
        assert(i != nb);
        assert(m[i] == self.row(i) && m[c] == self.row(c));
        if reaches_exit(cfg, i) {
            assert(ipdom_choice(m, i, c));
        } else {
            // a node without a path to EXIT keeps every node; EXIT keeps itself
            assert(c == nb);
            assert(self.row(i).len() == nb + 1);
            lemma_count_full(self.row(i));
            assert(exit_row(cfg, m));
            assert forall|d: int| 0 <= d < self.row(c).len() implies (#[trigger] self.row(c)[d] <==> d == nb) by {
                assert(m[nb as int][d] == self.row(c)[d]);
            }
            lemma_count_single(self.row(c), nb as int);
        }
    }

    /// A strict post-dominator `c` of a node `i` that reaches EXIT reaches
    /// EXIT too, does not have `i` among its post-dominators, and each of
    /// its post-dominators post-dominates `i`.
    proof fn lemma_strict_pdom(&self, cfg: ControlFlowGraph, i: int, c: int)
        requires
            self.wf_for(cfg),
            0 <= i < cfg.nb(),
            0 <= c <= cfg.nb(),
            reaches_exit(cfg, i),
            self.row(i)[c],
            c != i,
        ensures
            reaches_exit(cfg, c),
            !self.row(c)[i],
            subset_row(self.row(c), self.row(i)),
    {
        let nb = cfg.nb();
        let m = self.rows();
        assert(m[i] == self.row(i) && m[c] == self.row(c));
        let x = node_at(c, nb);
        assert(node_index(x, nb) == c);
        let a = node_at(i, nb);
        let p = choose|p: Seq<CfgNode>| #[trigger] cfg.is_walk(p, true) && p[0] == a && p.last() == CfgNode::Exit;
        let q = lemma_fresh_path(cfg, p);
        // the post-dominator c lies on q after its start
        assert(on_all_paths(cfg, a, x));
        assert(cfg.is_path(q));
        assert(q.contains(x));
        let w = choose|w: int| 0 <= w < q.len() && q[w] == x;
        assert(w != 0) by {
            if w == 0 {
                assert(node_index(a, nb) == i);
            }
        }
        let r = q.skip(w);
        lemma_skip_path(cfg, q, w);
        assert(r[0] == x && r.last() == CfgNode::Exit);
        assert(reaches_exit(cfg, c)) by {
            assert(cfg.is_walk(r, true));
        }
        // i is not on every path from c
        assert(!r.contains(a)) by {
            if r.contains(a) {
                let v = choose|v: int| 0 <= v < r.len() && r[v] == a;
                assert(q[w + v] == r[v]);
            }
        }
        assert(!on_all_paths(cfg, x, a));
        assert(!m[c][i]);
        assert(m[i][i]) by {
            assert(m[i] == eq_row(cfg, m, i));
        }
        // every post-dominator of c post-dominates i
        assert forall|d: int| 0 <= d < m[c].len() && m[c][d] implies #[trigger] m[i][d] by {
            let y = node_at(d, nb);
            assert(on_all_paths(cfg, x, y));
            assert forall|pp: Seq<CfgNode>| #[trigger] cfg.is_path(pp) && pp[0] == a && pp.last() == CfgNode::Exit implies pp.contains(y) by {
                assert(pp.contains(x));
                let u = choose|u: int| 0 <= u < pp.len() && pp[u] == x;
                lemma_skip_path(cfg, pp, u);
                let rr = pp.skip(u);
                assert(rr.contains(y));
                let v = choose|v: int| 0 <= v < rr.len() && rr[v] == y;
                assert(pp[u + v] == rr[v]);
            }
        }
    }
}

/// Joining a prefix of a path to a path from the node after it gives a
/// path.
proof fn lemma_join_paths(cfg: ControlFlowGraph, q: Seq<CfgNode>, w: int, pp: Seq<CfgNode>)
    requires
        cfg.is_path(q),
        1 <= w < q.len(),
        cfg.is_path(pp),
        pp[0] == q[w],
    ensures
        cfg.is_path(q.take(w) + pp),
        (q.take(w) + pp)[0] == q[0],
        (q.take(w) + pp).last() == pp.last(),
{
    let r = q.take(w) + pp;
    assert forall|k: int| 0 <= k < r.len() implies valid_node(#[trigger] r[k], cfg.nb()) by {
        if k < w {
            assert(r[k] == q[k]);
        } else {
            assert(r[k] == pp[k - w]);
        }
    }
    assert forall|k: int| 0 <= k < r.len() - 1 implies #[trigger] cfg.step(r[k], r[k + 1], true) by {
        if k < w - 1 {
            assert(r[k] == q[k] && r[k + 1] == q[k + 1]);
            assert(cfg.step(q[k], q[k + 1], true));
        } else if k == w - 1 {
            assert(r[k] == q[k] && r[k + 1] == pp[0]);
            assert(cfg.step(q[k], q[k + 1], true));
        } else {
            assert(r[k] == pp[k - w] && r[k + 1] == pp[k - w + 1]);
            assert(cfg.step(pp[k - w], pp[k - w + 1], true));
        }
    }
}

/// The first position from `k` on where `s` holds, given one at or after
/// `k`.
proof fn lemma_first_true(s: Seq<bool>, k: int) -> (w: int)
    requires
        0 <= k < s.len(),
        exists|j: int| k <= j < s.len() && s[j],
    ensures
        k <= w < s.len(),
        s[w],
        forall|u: int| k <= u < w ==> !s[u],
    decreases s.len() - k,
{
    if s[k] {
        k
    } else {
        let j = choose|j: int| k <= j < s.len() && s[j];
        assert(j > k);
        lemma_first_true(s, k + 1)
    }
}

impl PostDominatorTree {
    /// The tree law: a node other than EXIT with a path to EXIT has an
    /// immediate post-dominator, the closest one, whose post-dominators are
    /// exactly the node's own other than the node itself; so following
    /// immediate post-dominators from a node visits its post-dominators one
    /// at a time.
    pub proof fn lemma_ipdom_closest(&self, cfg: ControlFlowGraph, i: int)
        requires
            self.wf_for(cfg),
            0 <= i < cfg.nb(),
            reaches_exit(cfg, i),
        ensures
            self.ipdom(i) is Some,
            forall|d: int|
                0 <= d <= cfg.nb() ==> (#[trigger] self.row(node_index(self.ipdom(i)->0, cfg.nb()))[d] <==> (
                self.row(i)[d] && d != i)),
    {
        let nb = cfg.nb();
        let m = self.rows();
        let a = node_at(i, nb);
        assert(node_index(a, nb) == i);
        let p = choose|p: Seq<CfgNode>| #[trigger] cfg.is_walk(p, true) && p[0] == a && p.last() == CfgNode::Exit;
        let q = lemma_fresh_path(cfg, p);
        // EXIT post-dominates i
        assert(on_all_paths(cfg, a, CfgNode::Exit)) by {
            assert forall|pp: Seq<CfgNode>| #[trigger] cfg.is_path(pp) && pp[0] == a && pp.last() == CfgNode::Exit implies pp.contains(
                CfgNode::Exit,
            ) by {
                assert(pp[pp.len() - 1] == CfgNode::Exit);
            }
        }
        assert(node_at(nb as int, nb) == CfgNode::Exit);
        assert(self.row(i)[nb as int]);
        // the first strict post-dominator of i along q
        let hits = Seq::new(q.len(), |u: int| u >= 1 && self.row(i)[node_index(q[u], nb)]);
        assert(q.len() >= 2) by {
            if q.len() == 1 {
                assert(q[0] == a && q.last() == CfgNode::Exit);
            }
        }
        assert(hits[q.len() - 1]) by {
            assert(q[q.len() - 1] == CfgNode::Exit);
        }
        let w0 = lemma_first_true(hits, 0);
        let x0 = q[w0];
        let c0 = node_index(x0, nb);
        assert(valid_node(x0, nb));
        assert(node_at(c0, nb) == x0);
        assert(c0 != i) by {
            if c0 == i {
                assert(x0 == a);
            }
        }
        self.lemma_strict_pdom(cfg, i, c0);
        // every strict post-dominator of i post-dominates c0
        assert forall|d: int| 0 <= d <= nb && self.row(i)[d] && d != i implies #[trigger] self.row(c0)[d] by {
            let y = node_at(d, nb);
            assert(node_index(y, nb) == d);
            assert(on_all_paths(cfg, a, y));
            assert forall|pp: Seq<CfgNode>| #[trigger] cfg.is_path(pp) && pp[0] == x0 && pp.last() == CfgNode::Exit implies pp.contains(
                y,
            ) by {
                lemma_join_paths(cfg, q, w0, pp);
                let r = q.take(w0) + pp;
                assert(r.contains(y));
                let u = choose|u: int| 0 <= u < r.len() && r[u] == y;
                if u < w0 {
                    assert(r[u] == q[u]);
                    if u == 0 {
                        assert(q[0] == a);
                    } else {
                        assert(hits[u]);
                    }
                } else {
                    assert(pp[u - w0] == y);
                }
            }
            assert(on_all_paths(cfg, x0, y));
        }
        // c0 is a candidate, so a choice exists
        lemma_count_subset(self.row(c0), self.row(i));
        assert(self.row(i)[i]) by {
            assert(m[i] == eq_row(cfg, m, i));
        }
        assert(ipdom_candidate(m, i, c0));
        assert(ipdom_ok(m, nb, i, reaches_exit(cfg, i), self.ipdom(i)));
        assert(self.ipdom(i) is Some);
        let c = node_index(self.ipdom(i)->0, nb);
        assert(ipdom_choice(m, i, c));
        assert(m[c] == self.row(c) && m[c0] == self.row(c0) && m[i] == self.row(i));
        self.lemma_strict_pdom(cfg, i, c);
        assert(subset_row(self.row(c), self.row(c0))) by {
            assert forall|e: int| 0 <= e < self.row(c).len() && self.row(c)[e] implies #[trigger] self.row(c0)[e] by {
                assert(self.row(i)[e]);
                if e == i {
                }
            }
        }
        lemma_count_subset(self.row(c), self.row(c0));
        assert forall|d: int| 0 <= d <= nb implies (#[trigger] self.row(c)[d] <==> (self.row(i)[d] && d != i)) by {
            if self.row(i)[d] && d != i {
                assert(self.row(c0)[d]);
            }
        }
    }
}

proof fn lemma_children_upto(ip: Seq<Option<CfgNode>>, p: CfgNode, nb: nat, k: nat)
    requires
        k <= nb + 1,
        nb < usize::MAX,
    ensures
        forall|x: int| 0 <= x < k ==> (children_upto(ip, p, nb, k).contains(node_at(x, nb)) <==> ip[x] == Some(p)),
        forall|a: int|
            0 <= a < children_upto(ip, p, nb, k).len() ==> valid_node(#[trigger] children_upto(ip, p, nb, k)[a], nb)
                && node_index(children_upto(ip, p, nb, k)[a], nb) < k,
        forall|a: int, b: int|
            0 <= a < b < children_upto(ip, p, nb, k).len() ==> node_index(#[trigger] children_upto(ip, p, nb, k)[a], nb)
                < node_index(#[trigger] children_upto(ip, p, nb, k)[b], nb),
    decreases k,
{
    if k > 0 {
        lemma_children_upto(ip, p, nb, (k - 1) as nat);
        let prev = children_upto(ip, p, nb, (k - 1) as nat);
        let cur = children_upto(ip, p, nb, k);
        let y = node_at(k - 1, nb);
        assert(node_index(y, nb) == k - 1);
        assert forall|x: int| 0 <= x < k implies (cur.contains(node_at(x, nb)) <==> ip[x] == Some(p)) by {
            let z = node_at(x, nb);
            assert(node_index(z, nb) == x);
            if x < k - 1 {
                if cur.contains(z) {
                    let u = choose|u: int| 0 <= u < cur.len() && cur[u] == z;
                    if u < prev.len() {
                        assert(cur[u] == prev[u]);
                    } else {
                        assert(cur[u] == y);
                    }
                }
                if prev.contains(z) {
                    let u = choose|u: int| 0 <= u < prev.len() && prev[u] == z;
                    assert(cur[u] == prev[u]);
                }
            } else {
                if ip[x] == Some(p) {
                    assert(cur[prev.len() as int] == y);
                } else {
                    assert(cur =~= prev);
                    if prev.contains(z) {
                        let u = choose|u: int| 0 <= u < prev.len() && prev[u] == z;
                    }
                }
            }
        }
        assert forall|a: int| 0 <= a < cur.len() implies valid_node(#[trigger] cur[a], nb) && node_index(cur[a], nb) < k by {
            if a < prev.len() {
                assert(cur[a] == prev[a]);
            }
        }
        assert forall|a: int, b: int| 0 <= a < b < cur.len() implies node_index(#[trigger] cur[a], nb) < node_index(
            #[trigger] cur[b],
            nb,
        ) by {
            assert(cur[a] == prev[a]);
            if b < prev.len() {
                assert(cur[b] == prev[b]);
            }
        }
    }
}

impl PostDominatorTree {
    /// The children of a node are exactly the nodes whose immediate
    /// post-dominator it is, listed in ascending node order (so without
    /// repeats).
    pub proof fn lemma_children_are_ipdom_inverse(&self, cfg: ControlFlowGraph, p: int)
        requires
            self.wf_for(cfg),
            0 <= p <= cfg.nb(),
        ensures
            forall|x: int|
                0 <= x <= cfg.nb() ==> (self.kids(p).contains(node_at(x, cfg.nb())) <==> #[trigger] self.ipdom(x) == Some(
                    node_at(p, cfg.nb()),
                )),
            forall|a: int, b: int|
                0 <= a < b < self.kids(p).len() ==> node_index(#[trigger] self.kids(p)[a], cfg.nb()) < node_index(
                    #[trigger] self.kids(p)[b],
                    cfg.nb(),
                ),
            forall|a: int| 0 <= a < self.kids(p).len() ==> valid_node(#[trigger] self.kids(p)[a], cfg.nb()),
    {
        let nb = cfg.nb();
        lemma_children_upto(self.ipdoms(), node_at(p, nb), nb, nb + 1);
        assert(self.kids(p) == children_upto(self.ipdoms(), node_at(p, nb), nb, nb + 1));
        assert forall|x: int| 0 <= x <= nb implies (self.kids(p).contains(node_at(x, nb)) <==> #[trigger] self.ipdom(x) == Some(
            node_at(p, nb),
        )) by {
            assert(self.ipdoms()[x] == self.ipdom(x));
        }
    }
}

impl PostDominatorTree {
    /// On a path `q` from node `c` to EXIT, a post-dominator `a` of `c`
    /// first met (at `wa`) before the first meeting of another one, `b`,
    /// is post-dominated by `b`.
    proof fn lemma_earlier_pdom(&self, cfg: ControlFlowGraph, c: int, a: int, b: int, q: Seq<CfgNode>, wa: int, wb: int)
        requires
            self.wf_for(cfg),
            0 <= a <= cfg.nb(),
            0 <= b <= cfg.nb(),
            0 <= c <= cfg.nb(),
            reaches_exit(cfg, a),
            reaches_exit(cfg, c),
            self.row(c)[b],
            cfg.is_path(q),
            q[0] == node_at(c, cfg.nb()),
            q.last() == CfgNode::Exit,
            1 <= wa < wb < q.len(),
            q[wa] == node_at(a, cfg.nb()),
            q[wb] == node_at(b, cfg.nb()),
            forall|u: int| 0 <= u < wb ==> q[u] != node_at(b, cfg.nb()),
        ensures
            self.row(a)[b],
    {
        let nb = cfg.nb();
        let x = node_at(a, nb);
        let y = node_at(b, nb);
        assert(on_all_paths(cfg, node_at(c, nb), y));
        assert forall|pp: Seq<CfgNode>| #[trigger] cfg.is_path(pp) && pp[0] == x && pp.last() == CfgNode::Exit implies pp.contains(
            y,
        ) by {
            lemma_join_paths(cfg, q, wa, pp);
            let r = q.take(wa) + pp;
            assert(r.contains(y));
            let u = choose|u: int| 0 <= u < r.len() && r[u] == y;
            if u < wa {
                assert(r[u] == q[u]);
            } else {
                assert(pp[u - wa] == y);
            }
        }
        assert(on_all_paths(cfg, x, y));
    }

    /// Post-dominance among nodes with a path to EXIT is a partial order
    /// with EXIT on top: reflexive, antisymmetric and transitive, EXIT
    /// post-dominates every node, and any two post-dominators of a node are
    /// ordered.
    pub proof fn lemma_postdominance_order(&self, cfg: ControlFlowGraph, a: int, b: int, c: int)
        requires
            self.wf_for(cfg),
            0 <= a <= cfg.nb(),
            0 <= b <= cfg.nb(),
            0 <= c <= cfg.nb(),
            reaches_exit(cfg, a),
            reaches_exit(cfg, b),
            reaches_exit(cfg, c),
        ensures
            self.row(a)[a],
            self.row(a)[cfg.nb() as int],
            self.row(b)[a] && self.row(a)[b] ==> a == b,
            self.row(b)[a] && self.row(c)[b] ==> self.row(c)[a],
            self.row(c)[a] && self.row(c)[b] ==> self.row(b)[a] || self.row(a)[b],
    {
        let nb = cfg.nb();
        let m = self.rows();
        assert(m[a] == self.row(a) && m[b] == self.row(b) && m[c] == self.row(c) && m[nb as int] == self.row(nb as int));
        // reflexive, and EXIT on top
        let xa = node_at(a, nb);
        assert(on_all_paths(cfg, xa, xa)) by {
            assert forall|pp: Seq<CfgNode>| #[trigger] cfg.is_path(pp) && pp[0] == xa && pp.last() == CfgNode::Exit implies pp.contains(
                xa,
            ) by {
                assert(pp[0] == xa);
            }
        }
        assert(on_all_paths(cfg, xa, CfgNode::Exit)) by {
            assert forall|pp: Seq<CfgNode>| #[trigger] cfg.is_path(pp) && pp[0] == xa && pp.last() == CfgNode::Exit implies pp.contains(
                CfgNode::Exit,
            ) by {
                assert(pp[pp.len() - 1] == CfgNode::Exit);
            }
        }
        assert(node_at(nb as int, nb) == CfgNode::Exit);
        assert(node_at(a, nb) == xa);
        // antisymmetric
        if self.row(b)[a] && self.row(a)[b] && a != b {
            if b == nb {
                assert(exit_row(cfg, m));
            } else {
                self.lemma_strict_pdom(cfg, b, a);
            }
        }
        // transitive
        if self.row(b)[a] && self.row(c)[b] && b != c {
            if c == nb {
                assert(exit_row(cfg, m));
                assert(b == nb);
            } else {
                self.lemma_strict_pdom(cfg, c, b);
            }
        }
        // any two post-dominators of c are ordered
        if self.row(c)[a] && self.row(c)[b] && a != b && a != c && b != c {
            if c == nb {
                assert(exit_row(cfg, m));
            } else {
                let xc = node_at(c, nb);
                assert(node_index(xc, nb) == c);
                let p = choose|p: Seq<CfgNode>| #[trigger] cfg.is_walk(p, true) && p[0] == xc && p.last() == CfgNode::Exit;
                let q = lemma_fresh_path(cfg, p);
                let xb = node_at(b, nb);
                assert(node_index(xa, nb) == a && node_index(xb, nb) == b);
                assert(on_all_paths(cfg, xc, xa));
                assert(on_all_paths(cfg, xc, xb));
                assert(q.contains(xa) && q.contains(xb));
                let ha = Seq::new(q.len(), |u: int| q[u] == xa);
                let hb = Seq::new(q.len(), |u: int| q[u] == xb);
                let ua = choose|u: int| 0 <= u < q.len() && q[u] == xa;
                let ub = choose|u: int| 0 <= u < q.len() && q[u] == xb;
                assert(ha[ua] && hb[ub]);
                let wa = lemma_first_true(ha, 0);
                let wb = lemma_first_true(hb, 0);
                assert(wa != 0 && wb != 0);
                assert(wa != wb);
                if wa < wb {
                    assert forall|u: int| 0 <= u < wb implies q[u] != xb by {
                        assert(!hb[u]);
                    }
                    self.lemma_earlier_pdom(cfg, c, a, b, q, wa, wb);
                } else {
                    assert forall|u: int| 0 <= u < wa implies q[u] != xa by {
                        assert(!ha[u]);
                    }
                    self.lemma_earlier_pdom(cfg, c, b, a, q, wb, wa);
                }
            }
        }
    }
}

/// From a path to EXIT, one from the same start that does not come back to
/// it.
proof fn lemma_fresh_path(cfg: ControlFlowGraph, p: Seq<CfgNode>) -> (q: Seq<CfgNode>)
    requires
        cfg.wf(),
        cfg.is_path(p),
        p.last() == CfgNode::Exit,
    ensures
        cfg.is_path(q),
        q[0] == p[0],
        q.last() == CfgNode::Exit,
        forall|k: int| 1 <= k < q.len() ==> #[trigger] q[k] != p[0],
    decreases p.len(),
{
    if exists|k: int| 1 <= k < p.len() && #[trigger] p[k] == p[0] {
        let k = choose|k: int| 1 <= k < p.len() && #[trigger] p[k] == p[0];
        lemma_skip_path(cfg, p, k);
        lemma_fresh_path(cfg, p.skip(k))
    } else {
        p
    }
}

/// A suffix of a path is a path.
proof fn lemma_skip_path(cfg: ControlFlowGraph, p: Seq<CfgNode>, w: int)
    requires
        cfg.is_path(p),
        0 <= w < p.len(),
    ensures
        cfg.is_path(p.skip(w)),
        p.skip(w)[0] == p[w],
        p.skip(w).last() == p.last(),
{
    let r = p.skip(w);
    assert forall|k: int| 0 <= k < r.len() implies valid_node(#[trigger] r[k], cfg.nb()) by {
        assert(r[k] == p[w + k]);
    }
    assert forall|k: int| 0 <= k < r.len() - 1 implies #[trigger] cfg.step(r[k], r[k + 1], true) by {
        let j = w + k;
        assert(r[k] == p[j] && r[k + 1] == p[j + 1]);
        assert(cfg.step(p[j], p[j + 1], true));
    }
}

/// Whether `x` occurs in `v`.
fn rpo_has(v: &Vec<CfgNode>, x: CfgNode) -> (r: bool)
    ensures
        r == v@.contains(x),
{
    let mut k: usize = 0;
    while k < v.len()
        invariant
            k <= v@.len(),
            forall|j: int| 0 <= j < k ==> v@[j] != x,
        decreases v@.len() - k,
    {
        let same = match (v[k], x) {
            (CfgNode::Block(a), CfgNode::Block(b)) => a == b,
            (CfgNode::Exit, CfgNode::Exit) => true,
            _ => false,
        };
        if same {
            proof {
                assert(v@[k as int] == x);
            }
            return true;
        }
        k = k + 1;
    }
    false
}

proof fn lemma_count_full(s: Seq<bool>)
    requires
        forall|d: int| 0 <= d < s.len() ==> #[trigger] s[d],
    ensures
        count_true(s) == s.len(),
    decreases s.len(),
{
    if s.len() > 0 {
        lemma_count_full(s.drop_last());
    }
}

proof fn lemma_count_single(s: Seq<bool>, x: int)
    requires
        0 <= x < s.len(),
        forall|d: int| 0 <= d < s.len() ==> (#[trigger] s[d] <==> d == x),
    ensures
        count_true(s) == 1,
    decreases s.len(),
{
    if x < s.len() - 1 {
        lemma_count_single(s.drop_last(), x);
    } else {
        lemma_count_none(s.drop_last());
    }
}

proof fn lemma_count_none(s: Seq<bool>)
    requires
        forall|d: int| 0 <= d < s.len() ==> !#[trigger] s[d],
    ensures
        count_true(s) == 0,
    decreases s.len(),
{
    if s.len() > 0 {
        lemma_count_none(s.drop_last());
    }
}

/// The nodes among the first `k` whose flag is set, in node order.
pub open spec fn members(row: Seq<bool>, nb: nat, k: nat) -> Seq<CfgNode>
    decreases k,
{
    if k == 0 {
        Seq::empty()
    } else {
        members(row, nb, (k - 1) as nat) + if row[k - 1] {
            seq![node_at(k - 1, nb)]
        } else {
            Seq::empty()
        }
    }
}

impl PostDominatorTree {
    /// Number of basic blocks of the analysed graph.
    pub open spec fn blocks(&self) -> nat {
        (self.n() - 1) as nat
    }

    /// The storage holds one entry per node of a graph with at least one block.
    pub open spec fn ok(&self) -> bool {
        &&& self.n() >= 2
        &&& self.sized()
    }

    fn position(&self, node: CfgNode) -> (r: Option<usize>)
        requires
            self.ok(),
        ensures
            r == if valid_node(node, self.blocks()) {
                Some(node_index(node, self.blocks()) as usize)
            } else {
                None::<usize>
            },
    {
        let nb = self.num_nodes - 1;
        match node {
            CfgNode::Block(b) => if b < nb {
                Some(b)
            } else {
                None
            },
            CfgNode::Exit => Some(nb),
        }
    }

    /// Immediate post-dominator of a node (none for EXIT and for a node not
    /// in the graph).
    pub fn immediate_postdominator(&self, node: CfgNode) -> (r: Option<CfgNode>)
        requires
            self.ok(),
        ensures
            r == if valid_node(node, self.blocks()) {
                self.ipdom(node_index(node, self.blocks()))
            } else {
                None::<CfgNode>
            },
    {
        match self.position(node) {
            Some(i) => self.ipostdom[i],
            None => None,
        }
    }

    /// The full post-dominator set of a node, in node order (none for a node
    /// not in the graph).
    pub fn postdominators(&self, node: CfgNode) -> (r: Option<Vec<CfgNode>>)
        requires
            self.ok(),
        ensures
            match r {
                Some(v) => valid_node(node, self.blocks()) && v@ == members(
                    self.row(node_index(node, self.blocks())),
                    self.blocks(),
                    self.n(),
                ),
                None => !valid_node(node, self.blocks()),
            },
    {
        match self.position(node) {
            Some(i) => {
                let row = &self.postdom_sets[i];
                let nb = self.num_nodes - 1;
                let mut v: Vec<CfgNode> = Vec::new();
                let mut d: usize = 0;
                while d < self.num_nodes
                    invariant
                        self.ok(),
                        i < self.n(),
                        nb == self.blocks(),
                        row@ == self.row(i as int),
                        row@.len() == self.n(),
                        d <= self.n(),
                        v@ == members(self.row(i as int), self.blocks(), d as nat),
                    decreases self.n() - d,
                {
                    if row[d] {
                        v.push(
                            if d == nb {
                                CfgNode::Exit
                            } else {
                                CfgNode::Block(d)
                            },
                        );
                    }
                    proof {
                        assert(row@ == self.postdom_sets@[i as int]@);
                    }
                    d = d + 1;
                }
                Some(v)
            },
            None => None,
        }
    }

    /// Does `dominator` post-dominate `dominated`?
    pub fn postdominates(&self, dominator: CfgNode, dominated: CfgNode) -> (r: bool)
        requires
            self.ok(),
        ensures
            r == (valid_node(dominated, self.blocks()) && valid_node(dominator, self.blocks())
                && self.row(node_index(dominated, self.blocks()))[node_index(
                dominator,
                self.blocks(),
            )]),
    {
        match self.position(dominated) {
            Some(i) => match self.position(dominator) {
                Some(d) => {
                    proof {
                        assert(self.postdom_sets@[i as int]@.len() == self.n());
                    }
                    self.postdom_sets[i][d]
                },
                None => false,
            },
            None => false,
        }
    }

    /// Children of a node in the post-dominator tree (none for a node not in
    /// the graph).
    pub fn children(&self, node: CfgNode) -> (r: Vec<CfgNode>)
        requires
            self.ok(),
        ensures
            r@ == if valid_node(node, self.blocks()) {
                self.kids(node_index(node, self.blocks()))
            } else {
                Seq::empty()
            },
    {
        let mut v: Vec<CfgNode> = Vec::new();
        match self.position(node) {
            Some(i) => {
                let kids = &self.children[i];
                let mut k: usize = 0;
                while k < kids.len()
                    invariant
                        k <= kids@.len(),
                        v@ == kids@.take(k as int),
                    decreases kids@.len() - k,
                {
                    v.push(kids[k]);
                    assert(v@ =~= kids@.take(k + 1));
                    k = k + 1;
                }
                assert(v@ =~= kids@);
            },
            None => {},
        }
        v
    }

    /// (node, immediate post-dominator) pairs in node order.
    pub fn iter_ipostdom(&self) -> (r: Vec<(CfgNode, Option<CfgNode>)>)
        requires
            self.ok(),
        ensures
            r@ == Seq::new(self.n(), |i: int| (node_at(i, self.blocks()), self.ipdom(i))),
    {
        let nb = self.num_nodes - 1;
        let mut v: Vec<(CfgNode, Option<CfgNode>)> = Vec::new();
        let mut i: usize = 0;
        while i < self.num_nodes
            invariant
                self.ok(),
                nb == self.blocks(),
                i <= self.n(),
                v@ == Seq::new(i as nat, |j: int| (node_at(j, self.blocks()), self.ipdom(j))),
            decreases self.n() - i,
        {
            let node = if i == nb {
                CfgNode::Exit
            } else {
                CfgNode::Block(i)
            };
            v.push((node, self.ipostdom[i]));
            assert(v@ =~= Seq::new((i + 1) as nat, |j: int| (node_at(j, self.blocks()), self.ipdom(j))));
            i = i + 1;
        }
        v
    }
}

/// A copy of a row.
fn copy_row(r: &Vec<bool>) -> (c: Vec<bool>)
    ensures
        c@ == r@,
{
    let mut c: Vec<bool> = Vec::new();
    let mut i: usize = 0;
    while i < r.len()
        invariant
            i <= r@.len(),
            c@ == r@.take(i as int),
        decreases r@.len() - i,
    {
        c.push(r[i]);
        assert(c@ =~= r@.take(i + 1));
        i = i + 1;
    }
    assert(c@ =~= r@);
    c
}

/// Do two rows hold the same flags?
fn rows_equal(a: &Vec<bool>, b: &Vec<bool>) -> (r: bool)
    ensures
        r == (a@ == b@),
{
    if a.len() != b.len() {
        return false;
    }
    let mut i: usize = 0;
    while i < a.len()
        invariant
            a@.len() == b@.len(),
            i <= a@.len(),
            forall|j: int| 0 <= j < i ==> a@[j] == b@[j],
        decreases a@.len() - i,
    {
        if a[i] != b[i] {
            return false;
        }
        i = i + 1;
    }
    assert(a@ =~= b@);
    true
}

proof fn lemma_count_subset(a: Seq<bool>, b: Seq<bool>)
    requires
        subset_row(a, b),
    ensures
        count_true(a) <= count_true(b),
        (exists|i: int| 0 <= i < a.len() && b[i] && !a[i]) ==> count_true(a) < count_true(b),
    decreases a.len(),
{
    if a.len() > 0 {
        lemma_count_subset(a.drop_last(), b.drop_last());
        if exists|i: int| 0 <= i < a.len() && b[i] && !a[i] {
            let i = choose|i: int| 0 <= i < a.len() && b[i] && !a[i];
            if i < a.len() - 1 {
                assert(b.drop_last()[i] && !a.drop_last()[i]);
            }
        }
    }
}

proof fn lemma_total_update(m: Seq<Seq<bool>>, i: int, r: Seq<bool>)
    requires
        0 <= i < m.len(),
    ensures
        total_true(m.update(i, r)) + count_true(m[i]) == total_true(m) + count_true(r),
    decreases m.len(),
{
    let u = m.update(i, r);
    if i == m.len() - 1 {
        assert(u.drop_last() =~= m.drop_last());
    } else {
        assert(u.drop_last() =~= m.drop_last().update(i, r));
        lemma_total_update(m.drop_last(), i, r);
    }
}

/// The equation is monotone in the rows.
proof fn lemma_eq_mono(cfg: ControlFlowGraph, a: Seq<Seq<bool>>, b: Seq<Seq<bool>>, i: int)
    requires
        cfg.wf(),
        rows_ok(cfg, a),
        rows_ok(cfg, b),
        0 <= i < cfg.nb(),
        forall|j: int| 0 <= j <= cfg.nb() ==> subset_row(#[trigger] a[j], b[j]),
    ensures
        subset_row(eq_row(cfg, a, i), eq_row(cfg, b, i)),
{
    assert forall|d: int| 0 <= d < eq_row(cfg, a, i).len() && eq_row(cfg, a, i)[d] implies #[trigger] eq_row(
        cfg,
        b,
        i,
    )[d] by {
        if d != i {
            assert forall|t: int| 0 <= t < cfg.succ(i).len() implies b[node_index(
                (#[trigger] cfg.succ(i)[t]).0,
                cfg.nb(),
            )][d] by {
                let s = cfg.succ(i)[t].0;
                assert(valid_node(s, cfg.nb()));
                assert(a[node_index(s, cfg.nb())][d]);
                assert(subset_row(a[node_index(s, cfg.nb())], b[node_index(s, cfg.nb())]));
            }
        }
    }
}

/// Replacing the row of a node that has a path to EXIT by its equation's
/// value keeps the iteration invariant and shrinks the total.
proof fn lemma_update_state(cfg: ControlFlowGraph, m: Seq<Seq<bool>>, i: int)
    requires
        cfg.wf(),
        iter_state(cfg, m),
        0 <= i < cfg.nb(),
        reaches_exit(cfg, i),
        eq_row(cfg, m, i) != m[i],
    ensures
        iter_state(cfg, m.update(i, eq_row(cfg, m, i))),
        total_true(m.update(i, eq_row(cfg, m, i))) < total_true(m),
{
    let e = eq_row(cfg, m, i);
    let m2 = m.update(i, e);
    assert(subset_row(e, m[i]));
    // strict shrink
    assert(exists|d: int| 0 <= d < e.len() && m[i][d] && !e[d]) by {
        if !(exists|d: int| 0 <= d < e.len() && m[i][d] && !e[d]) {
            assert(e =~= m[i]);
        }
    }
    lemma_count_subset(e, m[i]);
    lemma_total_update(m, i, e);
    assert forall|j: int| 0 <= j <= cfg.nb() implies subset_row(#[trigger] m2[j], m[j]) by {
        if j != i {
            assert(m2[j] == m[j]);
        }
    }
    assert(rows_ok(cfg, m2)) by {
        assert forall|j: int| 0 <= j < m2.len() implies (#[trigger] m2[j]).len() == cfg.nb() + 1 by {
            if j == i {
                assert(m2[j] == e);
            }
        }
    }
    // shrinking
    assert forall|j: int| 0 <= j < cfg.nb() && reaches_exit(cfg, j) implies subset_row(
        #[trigger] eq_row(cfg, m2, j),
        m2[j],
    ) by {
        lemma_eq_mono(cfg, m2, m, j);
        if j != i {
            assert(subset_row(eq_row(cfg, m, j), m[j]));
            assert(m2[j] == m[j]);
        } else {
            assert(m2[j] == e);
        }
    }
    // completeness
    assert forall|j: int, d: int|
        0 <= j <= cfg.nb() && 0 <= d <= cfg.nb() && reaches_exit(cfg, j) && on_all_paths(
            cfg,
            node_at(j, cfg.nb()),
            node_at(d, cfg.nb()),
        ) implies #[trigger] m2[j][d] by {
        if j == i {
            lemma_complete_step(cfg, m, i, d);
        } else {
            assert(m2[j] == m[j]);
        }
    }
    // outside rows and EXIT's row are untouched
    assert forall|j: int, d: int|
        0 <= j <= cfg.nb() && 0 <= d <= cfg.nb() && !reaches_exit(cfg, j) implies #[trigger] m2[j][d] by {
        assert(j != i);
    }
    assert forall|d: int| 0 <= d <= cfg.nb() implies (#[trigger] m2[cfg.nb() as int][d] <==> d == cfg.nb()) by {
        assert(m2[cfg.nb() as int] == m[cfg.nb() as int]);
    }
}

/// Prepending a node to a path from one of its successors gives a path.
proof fn lemma_prepend(cfg: ControlFlowGraph, a: CfgNode, q: Seq<CfgNode>)
    requires
        cfg.wf(),
        valid_node(a, cfg.nb()),
        cfg.is_path(q),
        cfg.step(a, q[0], true),
    ensures
        cfg.is_path(seq![a] + q),
        (seq![a] + q)[0] == a,
        (seq![a] + q).last() == q.last(),
{
    let r = seq![a] + q;
    assert forall|k: int| 0 <= k < r.len() implies valid_node(#[trigger] r[k], cfg.nb()) by {
        if k > 0 {
            assert(r[k] == q[k - 1]);
        }
    }
    assert forall|k: int| 0 <= k < r.len() - 1 implies #[trigger] cfg.step(r[k], r[k + 1], true) by {
        if k == 0 {
            assert(r[1] == q[0]);
        } else {
            let j = k - 1;
            assert(r[k] == q[j] && r[k + 1] == q[j + 1]);
            assert(cfg.step(q[j], q[j + 1], true));
        }
    }
}

/// The equation's value of a node with a path to EXIT holds every node on
/// all of its paths to EXIT.
proof fn lemma_complete_step(cfg: ControlFlowGraph, m: Seq<Seq<bool>>, i: int, d: int)
    requires
        cfg.wf(),
        iter_state(cfg, m),
        0 <= i < cfg.nb(),
        0 <= d <= cfg.nb(),
        reaches_exit(cfg, i),
        on_all_paths(cfg, node_at(i, cfg.nb()), node_at(d, cfg.nb())),
    ensures
        eq_row(cfg, m, i)[d],
{
    let nb = cfg.nb();
    let a = node_at(i, nb);
    if d != i {
        // a path to EXIT starts with an edge
        let p = choose|p: Seq<CfgNode>| #[trigger] cfg.is_walk(p, true) && p[0] == a && p.last() == CfgNode::Exit;
        assert(p.len() >= 2) by {
            if p.len() < 2 {
                assert(p[0] == p.last());
            }
        }
        assert(cfg.step(p[0int], p[0int + 1], true));
        assert(node_index(a, nb) == i);
        assert(cfg.succ(i).len() > 0);
        assert forall|t: int| 0 <= t < cfg.succ(i).len() implies m[node_index(
            (#[trigger] cfg.succ(i)[t]).0,
            nb,
        )][d] by {
            let s = cfg.succ(i)[t].0;
            let si = node_index(s, nb);
            assert(valid_node(s, nb));
            assert(node_at(si, nb) == s);
            if reaches_exit(cfg, si) {
                assert forall|q: Seq<CfgNode>|
                    #[trigger] cfg.is_path(q) && q[0] == s && q.last() == CfgNode::Exit implies q.contains(
                    node_at(d, nb),
                ) by {
                    assert(cfg.step(a, s, true)) by {
                        assert(cfg.nbrs(node_index(a, nb), true)[t].0 == s);
                    }
                    lemma_prepend(cfg, a, q);
                    let r = seq![a] + q;
                    assert(r.contains(node_at(d, nb)));
                    let w = choose|w: int| 0 <= w < r.len() && r[w] == node_at(d, nb);
                    assert(node_at(d, nb) != a);
                    assert(w > 0);
                    assert(q[w - 1] == r[w]);
                }
            }
        }
    }
}

/// A row that satisfies the equations lists only nodes on the given path.
proof fn lemma_sound(cfg: ControlFlowGraph, m: Seq<Seq<bool>>, p: Seq<CfgNode>, d: int)
    requires
        cfg.wf(),
        iter_state(cfg, m),
        rows_fixpoint(cfg, m),
        cfg.is_path(p),
        p.last() == CfgNode::Exit,
        0 <= d <= cfg.nb(),
        m[node_index(p[0], cfg.nb())][d],
    ensures
        p.contains(node_at(d, cfg.nb())),
    decreases p.len(),
{
    let nb = cfg.nb();
    let i = node_index(p[0], nb);
    assert(valid_node(p[0], nb));
    assert(node_at(i, nb) == p[0]);
    if p[0] == CfgNode::Exit {
        assert(d == nb);
        assert(p[0] == node_at(d, nb));
    } else if d == i {
        assert(p[0] == node_at(d, nb));
    } else {
        assert(p.len() >= 2) by {
            if p.len() < 2 {
                assert(p[0] == p.last());
            }
        }
        assert(reaches_exit(cfg, i)) by {
            assert(cfg.is_walk(p, true));
        }
        assert(m[i] == eq_row(cfg, m, i));
        assert(cfg.step(p[0int], p[0int + 1], true));
        let t = choose|t: int| 0 <= t < cfg.nbrs(i, true).len() && (#[trigger] cfg.nbrs(i, true)[t]).0 == p[1];
        assert(meet(cfg, m, i, cfg.succ(i).len() as int, d));
        assert(cfg.succ(i)[t].0 == p[1]);
        let q = p.skip(1);
        assert(q[0] == p[1]);
        assert(cfg.is_path(q)) by {
            assert forall|k: int| 0 <= k < q.len() implies valid_node(#[trigger] q[k], nb) by {
                assert(q[k] == p[k + 1]);
            }
            assert forall|k: int| 0 <= k < q.len() - 1 implies #[trigger] cfg.step(q[k], q[k + 1], true) by {
                let j = k + 1;
                assert(q[k] == p[j] && q[k + 1] == p[j + 1]);
                assert(cfg.step(p[j], p[j + 1], true));
            }
        }
        assert(q.last() == p.last());
        lemma_sound(cfg, m, q, d);
        let w = choose|w: int| 0 <= w < q.len() && q[w] == node_at(d, nb);
        assert(p[w + 1] == q[w]);
    }
}

} // verus!
