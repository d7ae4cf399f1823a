//! The printed reports of the analyses: the CFG with its adjacency lists,
//! the post-dominators, and the control dependences, as the text that a
//! debug dump prints.
use vstd::prelude::*;
use crate::cfg::{ControlFlowGraph, CfgNode, CfgEdge, EdgeKind, node_at, node_seq, node_index, valid_node};
use crate::postdom::PostDominatorTree;
use crate::cdg::{ControlDependenceGraph, ControlDependenceEdge, deps_of, ControlFlowAnalysis};
use crate::render::{
    node_name, opt_node_name, kind_debug, concat_map, join_map, lemma_concat_step, lemma_join_step,
    push_node, push_opt_node, push_kind_debug, cfg_line, all_cfg_edges, ipdom_pairs,
};
use crate::text::{decimal, push_decimal};

verus! {

/// The positions `0..n`.
pub open spec fn positions(n: nat) -> Seq<int> {
    Seq::new(n, |i: int| i)
}

/// A node's name in quotes, as a debug listing of strings shows it.
pub open spec fn quoted_name(n: CfgNode) -> Seq<char> {
    "\""@ + node_name(n) + "\""@
}

/// The CFG report: its nodes, then its edges.
pub open spec fn cfg_report(cfg: ControlFlowGraph) -> Seq<char> {
    "=== Control Flow Graph ===\nNodes: ["@ + join_map(node_seq(cfg.nb()), |n: CfgNode| quoted_name(n))
        + "]\n\nEdges:\n"@ + concat_map(all_cfg_edges(cfg), |e: CfgEdge| cfg_line(e)) + "\n"@
}

/// A successor (or controller) with the kind of its edge: `bb1(Goto)`.
pub open spec fn item_text(p: (CfgNode, EdgeKind)) -> Seq<char> {
    node_name(p.0) + "("@ + kind_debug(p.1) + ")"@
}

/// The adjacency line of the node at position `i`.
pub open spec fn adjacency_line(cfg: ControlFlowGraph, i: int) -> Seq<char> {
    "  "@ + node_name(node_at(i, cfg.nb())) + " -> ["@ + join_map(cfg.succ(i), |p: (CfgNode, EdgeKind)| item_text(p))
        + "]\n"@
}

/// The adjacency report: each node with its successors.
pub open spec fn adjacency_report(cfg: ControlFlowGraph) -> Seq<char> {
    "=== CFG Adjacency List ===\n"@ + concat_map(positions(cfg.nb() + 1), |i: int| adjacency_line(cfg, i))
        + "\n"@
}

/// The immediate post-dominator line of the node at position `i`.
pub open spec fn ipdom_line(pdt: PostDominatorTree, i: int) -> Seq<char> {
    "  ipdom("@ + node_name(node_at(i, pdt.blocks())) + ") = "@ + opt_node_name(pdt.ipdom(i)) + "\n"@
}

/// The children line of the node at position `i` (none without children).
pub open spec fn children_line(pdt: PostDominatorTree, i: int) -> Seq<char> {
    if pdt.kids(i).len() == 0 {
        Seq::empty()
    } else {
        "  "@ + node_name(node_at(i, pdt.blocks())) + " -> ["@ + join_map(pdt.kids(i), |n: CfgNode| node_name(n))
            + "]\n"@
    }
}

/// The post-dominator report: each node's immediate post-dominator, then
/// the tree as parent and children.
pub open spec fn postdom_report(pdt: PostDominatorTree) -> Seq<char> {
    "=== Post-Dominator Analysis ===\n\nImmediate Post-Dominators:\n"@ + concat_map(
        positions(pdt.n()),
        |i: int| ipdom_line(pdt, i),
    ) + "\nPost-Dominator Tree (parent -> children):\n"@ + concat_map(
        positions(pdt.n()),
        |i: int| children_line(pdt, i),
    ) + "\n"@
}

/// One control dependence edge, spelled out.
pub open spec fn cdg_report_line(e: ControlDependenceEdge) -> Seq<char> {
    "  "@ + node_name(e.controller) + " --["@ + kind_debug(e.label) + "]--> "@ + node_name(e.dependent)
        + " is control-dependent on "@ + node_name(e.controller) + "\n"@
}

/// The CDG report: every control dependence edge.
pub open spec fn cdg_report(cdg: ControlDependenceGraph) -> Seq<char> {
    "=== Control Dependence Graph ===\n(dependent is control-dependent on controller)\n\n"@ + concat_map(
        cdg.edge_list(),
        |e: ControlDependenceEdge| cdg_report_line(e),
    ) + "\n"@
}

/// The controllers of a node, as the CDG answers for it.
pub open spec fn controllers_of(cdg: ControlDependenceGraph, n: CfgNode) -> Seq<(CfgNode, EdgeKind)> {
    if valid_node(n, cdg.blocks()) {
        deps_of(cdg.edge_list(), n)
    } else {
        Seq::empty()
    }
}

/// The dependence line of the CFG node at position `i` (none without
/// controllers).
pub open spec fn dependence_line(cdg: ControlDependenceGraph, cfg: ControlFlowGraph, i: int) -> Seq<char> {
    let n = node_at(i, cfg.nb());
    let deps = controllers_of(cdg, n);
    if deps.len() == 0 {
        Seq::empty()
    } else {
        "  "@ + node_name(n) + " depends on: ["@ + join_map(deps, |p: (CfgNode, EdgeKind)| item_text(p)) + "]\n"@
    }
}

/// The dependence report: each CFG node with its controllers.
pub open spec fn dependences_report(cdg: ControlDependenceGraph, cfg: ControlFlowGraph) -> Seq<char> {
    "=== Control Dependences (node -> controllers) ===\n"@ + concat_map(
        positions(cfg.nb() + 1),
        |i: int| dependence_line(cdg, cfg, i),
    ) + "\n"@
}

fn push_items(s: &mut String, items: &Vec<(CfgNode, EdgeKind)>)
    ensures
        final(s)@ == old(s)@ + join_map(items@, |p: (CfgNode, EdgeKind)| item_text(p)),
{
    let ghost f = |p: (CfgNode, EdgeKind)| item_text(p);
    let mut k: usize = 0;
    while k < items.len()
        invariant
            k <= items@.len(),
            f == (|p: (CfgNode, EdgeKind)| item_text(p)),
            s@ == old(s)@ + join_map(items@.take(k as int), f),
        decreases items@.len() - k,
    {
        let ghost before = s@;
        if k > 0 {
            s.append(", ");
        }
        let (n, kind) = items[k];
        push_node(s, n);
        s.append("(");
        push_kind_debug(s, kind);
        s.append(")");
        proof {
            lemma_join_step(items@, k as int, f);
            if k == 0 {
                assert(join_map(items@.take(0), f) =~= Seq::<char>::empty());
            }
            assert(s@ =~= old(s)@ + join_map(items@.take(k + 1), f));
        }
        k = k + 1;
    }
    assert(items@.take(k as int) =~= items@);
}

fn push_names(s: &mut String, items: &Vec<CfgNode>, quoted: bool)
    ensures
        quoted ==> final(s)@ == old(s)@ + join_map(items@, |n: CfgNode| quoted_name(n)),
        !quoted ==> final(s)@ == old(s)@ + join_map(items@, |n: CfgNode| node_name(n)),
{
    let ghost f = if quoted {
        |n: CfgNode| quoted_name(n)
    } else {
        |n: CfgNode| node_name(n)
    };
    let mut k: usize = 0;
    while k < items.len()
        invariant
            k <= items@.len(),
            f == if quoted {
                |n: CfgNode| quoted_name(n)
            } else {
                |n: CfgNode| node_name(n)
            },
            s@ == old(s)@ + join_map(items@.take(k as int), f),
        decreases items@.len() - k,
    {
        let ghost before = s@;
        if k > 0 {
            s.append(", ");
        }
        if quoted {
            s.append("\"");
        }
        push_node(s, items[k]);
        if quoted {
            s.append("\"");
        }
        proof {
            lemma_join_step(items@, k as int, f);
            if k == 0 {
                assert(join_map(items@.take(0), f) =~= Seq::<char>::empty());
            }
            assert(s@ =~= old(s)@ + join_map(items@.take(k + 1), f));
        }
        k = k + 1;
    }
    assert(items@.take(k as int) =~= items@);
}

/// Print all CFG edges: the report text.
pub fn print_cfg(cfg: &ControlFlowGraph) -> (r: String)
    requires
        cfg.wf(),
    ensures
        r@ == cfg_report(*cfg),
{
    let mut s = String::new();
    s.append("=== Control Flow Graph ===\nNodes: [");
    let nodes = cfg.nodes();
    let mut names: Vec<CfgNode> = Vec::new();
    let mut k: usize = 0;
    while k < nodes.len()
        invariant
            k <= nodes@.len(),
            names@ == nodes@.take(k as int),
        decreases nodes@.len() - k,
    {
        names.push(nodes[k]);
        assert(nodes@.take(k + 1) =~= nodes@.take(k as int).push(nodes@[k as int]));
        k = k + 1;
    }
    assert(nodes@.take(k as int) =~= nodes@);
    push_names(&mut s, &names, true);
    s.append("]\n\nEdges:\n");
    let ghost mid = s@;
    let edges = cfg.edges();
    let ghost f = |e: CfgEdge| cfg_line(e);
    let mut j: usize = 0;
    while j < edges.len()
        invariant
            j <= edges@.len(),
            f == (|e: CfgEdge| cfg_line(e)),
            s@ == mid + concat_map(edges@.take(j as int), f),
        decreases edges@.len() - j,
    {
        let e = edges[j];
        let ghost before = s@;
        s.append("  ");
        push_node(&mut s, e.from);
        s.append(" -> ");
        push_node(&mut s, e.to);
        s.append(" [");
        push_kind_debug(&mut s, e.kind);
        s.append("]\n");
        proof {
            assert(s@ =~= before + cfg_line(e));
            lemma_concat_step(edges@, j as int, f);
        }
        j = j + 1;
    }
    assert(edges@.take(j as int) =~= edges@);
    s.append("\n");
    proof {
        reveal_strlit("=== Control Flow Graph ===\nNodes: [");
        reveal_strlit("]\n\nEdges:\n");
        reveal_strlit("\n");
        assert(s@ =~= cfg_report(*cfg));
    }
    s
}

/// Print CFG as adjacency list: the report text.
pub fn print_cfg_adjacency(cfg: &ControlFlowGraph) -> (r: String)
    requires
        cfg.wf(),
    ensures
        r@ == adjacency_report(*cfg),
{
    let mut s = String::new();
    s.append("=== CFG Adjacency List ===\n");
    let ghost head = s@;
    let nodes = cfg.nodes();
    let ghost f = |i: int| adjacency_line(*cfg, i);
    let ghost ps = positions(cfg.nb() + 1);
    let mut k: usize = 0;
    while k < nodes.len()
        invariant
            cfg.wf(),
            nodes@ == node_seq(cfg.nb()),
            ps == positions(cfg.nb() + 1),
            k <= nodes@.len(),
            f == (|i: int| adjacency_line(*cfg, i)),
            s@ == head + concat_map(ps.take(k as int), f),
        decreases nodes@.len() - k,
    {
        let node = nodes[k];
        let succs = cfg.successors(node);
        let ghost before = s@;
        s.append("  ");
        push_node(&mut s, node);
        s.append(" -> [");
        push_items(&mut s, &succs);
        s.append("]\n");
        proof {
            assert(node == node_at(k as int, cfg.nb()));
            assert(node_index(node, cfg.nb()) == k as int);
            assert(s@ =~= before + adjacency_line(*cfg, k as int));
            assert(ps[k as int] == k as int);
            lemma_concat_step(ps, k as int, f);
        }
        k = k + 1;
    }
    assert(ps.take(k as int) =~= ps);
    s.append("\n");
    proof {
        reveal_strlit("=== CFG Adjacency List ===\n");
        reveal_strlit("\n");
        assert(s@ =~= adjacency_report(*cfg));
    }
    s
}

/// Print post-dominator tree and sets: the report text.
pub fn print_post_dominators(pdt: &PostDominatorTree) -> (r: String)
    requires
        pdt.ok(),
    ensures
        r@ == postdom_report(*pdt),
{
    let mut s = String::new();
    s.append("=== Post-Dominator Analysis ===\n\nImmediate Post-Dominators:\n");
    let ghost head = s@;
    let entries = pdt.iter_ipostdom();
    let ghost f = |i: int| ipdom_line(*pdt, i);
    let ghost g = |i: int| children_line(*pdt, i);
    let ghost ps = positions(pdt.n());
    let mut k: usize = 0;
    while k < entries.len()
        invariant
            pdt.ok(),
            entries@ == Seq::new(pdt.n(), |i: int| (node_at(i, pdt.blocks()), pdt.ipdom(i))),
            ps == positions(pdt.n()),
            k <= entries@.len(),
            f == (|i: int| ipdom_line(*pdt, i)),
            s@ == head + concat_map(ps.take(k as int), f),
        decreases entries@.len() - k,
    {
        let (node, ipdom) = entries[k];
        let ghost before = s@;
        s.append("  ipdom(");
        push_node(&mut s, node);
        s.append(") = ");
        push_opt_node(&mut s, ipdom);
        s.append("\n");
        proof {
            assert(s@ =~= before + ipdom_line(*pdt, k as int));
            assert(ps[k as int] == k as int);
            lemma_concat_step(ps, k as int, f);
        }
        k = k + 1;
    }
    assert(ps.take(k as int) =~= ps);
    s.append("\nPost-Dominator Tree (parent -> children):\n");
    let ghost mid = s@;
    let mut j: usize = 0;
    while j < entries.len()
        invariant
            pdt.ok(),
            entries@ == Seq::new(pdt.n(), |i: int| (node_at(i, pdt.blocks()), pdt.ipdom(i))),
            ps == positions(pdt.n()),
            j <= entries@.len(),
            g == (|i: int| children_line(*pdt, i)),
            s@ == mid + concat_map(ps.take(j as int), g),
        decreases entries@.len() - j,
    {
        let (node, _) = entries[j];
        let children = pdt.children(node);
        let ghost before = s@;
        proof {
            assert(node == node_at(j as int, pdt.blocks()));
            assert(valid_node(node, pdt.blocks()));
            assert(node_index(node, pdt.blocks()) == j as int);
        }
        if children.len() > 0 {
            s.append("  ");
            push_node(&mut s, node);
            s.append(" -> [");
            push_names(&mut s, &children, false);
            s.append("]\n");
        }
        proof {
            assert(s@ =~= before + children_line(*pdt, j as int));
            assert(ps[j as int] == j as int);
            lemma_concat_step(ps, j as int, g);
        }
        j = j + 1;
    }
    assert(ps.take(j as int) =~= ps);
    s.append("\n");
    proof {
        reveal_strlit("=== Post-Dominator Analysis ===\n\nImmediate Post-Dominators:\n");
        reveal_strlit("\nPost-Dominator Tree (parent -> children):\n");
        reveal_strlit("\n");
        assert(s@ =~= postdom_report(*pdt));
    }
    s
}

/// Print all CDG edges: the report text.
pub fn print_cdg(cdg: &ControlDependenceGraph) -> (r: String)
    ensures
        r@ == cdg_report(*cdg),
{
    let mut s = String::new();
    s.append("=== Control Dependence Graph ===\n(dependent is control-dependent on controller)\n\n");
    let ghost head = s@;
    let es = cdg.edges();
    let ghost f = |e: ControlDependenceEdge| cdg_report_line(e);
    let mut k: usize = 0;
    while k < es.len()
        invariant
            k <= es@.len(),
            es@ == cdg.edge_list(),
            f == (|e: ControlDependenceEdge| cdg_report_line(e)),
            s@ == head + concat_map(es@.take(k as int), f),
        decreases es@.len() - k,
    {
        let e = es[k];
        let ghost before = s@;
        s.append("  ");
        push_node(&mut s, e.controller);
        s.append(" --[");
        push_kind_debug(&mut s, e.label);
        s.append("]--> ");
        push_node(&mut s, e.dependent);
        s.append(" is control-dependent on ");
        push_node(&mut s, e.controller);
        s.append("\n");
        proof {
            assert(s@ =~= before + cdg_report_line(e));
            lemma_concat_step(es@, k as int, f);
        }
        k = k + 1;
    }
    assert(es@.take(k as int) =~= es@);
    s.append("\n");
    proof {
        reveal_strlit("=== Control Dependence Graph ===\n(dependent is control-dependent on controller)\n\n");
        reveal_strlit("\n");
        assert(s@ =~= cdg_report(*cdg));
    }
    s
}

/// Print each node's controllers: the report text.
pub fn print_cdg_dependences(cdg: &ControlDependenceGraph, cfg: &ControlFlowGraph) -> (r: String)
    requires
        cdg.ok(),
        cfg.wf(),
    ensures
        r@ == dependences_report(*cdg, *cfg),
{
    let mut s = String::new();
    s.append("=== Control Dependences (node -> controllers) ===\n");
    let ghost head = s@;
    let nodes = cfg.nodes();
    let ghost f = |i: int| dependence_line(*cdg, *cfg, i);
    let ghost ps = positions(cfg.nb() + 1);
    let mut k: usize = 0;
    while k < nodes.len()
        invariant
            cdg.ok(),
            nodes@ == node_seq(cfg.nb()),
            ps == positions(cfg.nb() + 1),
            k <= nodes@.len(),
            f == (|i: int| dependence_line(*cdg, *cfg, i)),
            s@ == head + concat_map(ps.take(k as int), f),
        decreases nodes@.len() - k,
    {
        let node = nodes[k];
        let deps = cdg.control_dependences(node);
        let ghost before = s@;
        if deps.len() > 0 {
            s.append("  ");
            push_node(&mut s, node);
            s.append(" depends on: [");
            push_items(&mut s, &deps);
            s.append("]\n");
        }
        proof {
            assert(node == node_at(k as int, cfg.nb()));
            assert(s@ =~= before + dependence_line(*cdg, *cfg, k as int));
            assert(ps[k as int] == k as int);
            lemma_concat_step(ps, k as int, f);
        }
        k = k + 1;
    }
    assert(ps.take(k as int) =~= ps);
    s.append("\n");
    proof {
        reveal_strlit("=== Control Dependences (node -> controllers) ===\n");
        reveal_strlit("\n");
        assert(s@ =~= dependences_report(*cdg, *cfg));
    }
    s
}

/// Print summary of all analyses: the five reports in turn.
pub fn print_analysis(analysis: &ControlFlowAnalysis) -> (r: String)
    requires
        analysis.cfg.wf(),
        analysis.post_dominator_tree.ok(),
        analysis.cdg.ok(),
    ensures
        r@ == cfg_report(analysis.cfg) + adjacency_report(analysis.cfg) + postdom_report(
            analysis.post_dominator_tree,
        ) + cdg_report(analysis.cdg) + dependences_report(analysis.cdg, analysis.cfg),
{
    let mut s = print_cfg(&analysis.cfg);
    let a = print_cfg_adjacency(&analysis.cfg);
    s.append(a.as_str());
    let p = print_post_dominators(&analysis.post_dominator_tree);
    s.append(p.as_str());
    let c = print_cdg(&analysis.cdg);
    s.append(c.as_str());
    let d = print_cdg_dependences(&analysis.cdg, &analysis.cfg);
    s.append(d.as_str());
    s
}

/// One line of the summary's immediate post-dominator listing.
pub open spec fn summary_ipdom_line(p: (CfgNode, Option<CfgNode>)) -> Seq<char> {
    "  ipdom("@ + node_name(p.0) + ") = "@ + opt_node_name(p.1) + "\n"@
}

/// One line of the summary's control dependence listing.
pub open spec fn summary_dependence_line(e: ControlDependenceEdge) -> Seq<char> {
    "  "@ + node_name(e.dependent) + " is control-dependent on "@ + node_name(e.controller) + " ["@ + kind_debug(
        e.label,
    ) + "]\n"@
}

/// The summary of a function's analysis: a title with the function's name,
/// the counts of blocks, CFG edges and control dependences, then the CFG
/// edges, every node's immediate post-dominator and the control
/// dependences.
pub open spec fn summary_text(fn_name: Seq<char>, a: ControlFlowAnalysis) -> Seq<char> {
    "Control Flow Analysis for: "@ + fn_name + "\n"@ + "========================================\n\n"@
        + "Basic Blocks: "@ + decimal(a.cfg.nb()) + "\n"@ + "CFG Edges: "@ + decimal(all_cfg_edges(a.cfg).len())
        + "\n"@ + "CDG Edges: "@ + decimal(a.cdg.edge_list().len()) + "\n\n"@ + "CFG Edges:\n"@ + concat_map(
        all_cfg_edges(a.cfg),
        |e: CfgEdge| cfg_line(e),
    ) + "\nImmediate Post-Dominators:\n"@ + concat_map(
        ipdom_pairs(a.post_dominator_tree),
        |p: (CfgNode, Option<CfgNode>)| summary_ipdom_line(p),
    ) + "\nControl Dependence Edges:\n"@ + concat_map(
        a.cdg.edge_list(),
        |e: ControlDependenceEdge| summary_dependence_line(e),
    )
}

/// The summary text of a function's analysis (see `summary_text`).
pub fn analysis_summary(fn_name: &str, analysis: &ControlFlowAnalysis) -> (r: String)
    requires
        analysis.cfg.wf(),
        analysis.post_dominator_tree.ok(),
    ensures
        r@ == summary_text(fn_name@, *analysis),
{
    let cfg = &analysis.cfg;
    let mut s = String::new();
    s.append("Control Flow Analysis for: ");
    s.append(fn_name);
    s.append("\n");
    s.append("========================================\n\n");
    s.append("Basic Blocks: ");
    let nodes = cfg.nodes();
    push_decimal(&mut s, (nodes.len() - 1) as u128);
    s.append("\n");
    let edges = cfg.edges();
    s.append("CFG Edges: ");
    push_decimal(&mut s, edges.len() as u128);
    s.append("\n");
    let deps = analysis.cdg.edges();
    s.append("CDG Edges: ");
    push_decimal(&mut s, deps.len() as u128);
    s.append("\n\n");
    s.append("CFG Edges:\n");
    let ghost head = s@;
    let ghost f = |e: CfgEdge| cfg_line(e);
    let mut k: usize = 0;
    while k < edges.len()
        invariant
            k <= edges@.len(),
            f == (|e: CfgEdge| cfg_line(e)),
            s@ == head + concat_map(edges@.take(k as int), f),
        decreases edges@.len() - k,
    {
        let e = edges[k];
        let ghost before = s@;
        s.append("  ");
        push_node(&mut s, e.from);
        s.append(" -> ");
        push_node(&mut s, e.to);
        s.append(" [");
        push_kind_debug(&mut s, e.kind);
        s.append("]\n");
        proof {
            assert(s@ =~= before + cfg_line(e));
            lemma_concat_step(edges@, k as int, f);
        }
        k = k + 1;
    }
    assert(edges@.take(k as int) =~= edges@);
    s.append("\nImmediate Post-Dominators:\n");
    let ghost head2 = s@;
    let pairs = analysis.post_dominator_tree.iter_ipostdom();
    let ghost g = |p: (CfgNode, Option<CfgNode>)| summary_ipdom_line(p);
    proof {
        assert(pairs@ =~= ipdom_pairs(analysis.post_dominator_tree));
    }
    let mut k: usize = 0;
    while k < pairs.len()
        invariant
            k <= pairs@.len(),
            g == (|p: (CfgNode, Option<CfgNode>)| summary_ipdom_line(p)),
            s@ == head2 + concat_map(pairs@.take(k as int), g),
        decreases pairs@.len() - k,
    {
        let (node, ipdom) = pairs[k];
        let ghost before = s@;
        s.append("  ipdom(");
        push_node(&mut s, node);
        s.append(") = ");
        push_opt_node(&mut s, ipdom);
        s.append("\n");
        proof {
            assert(s@ =~= before + summary_ipdom_line(pairs@[k as int]));
            lemma_concat_step(pairs@, k as int, g);
        }
        k = k + 1;
    }
    assert(pairs@.take(k as int) =~= pairs@);
    s.append("\nControl Dependence Edges:\n");
    let ghost head3 = s@;
    let ghost h = |e: ControlDependenceEdge| summary_dependence_line(e);
    let mut k: usize = 0;
    while k < deps.len()
        invariant
            k <= deps@.len(),
            h == (|e: ControlDependenceEdge| summary_dependence_line(e)),
            s@ == head3 + concat_map(deps@.take(k as int), h),
        decreases deps@.len() - k,
    {
        let e = deps[k];
        let ghost before = s@;
        s.append("  ");
        push_node(&mut s, e.dependent);
        s.append(" is control-dependent on ");
        push_node(&mut s, e.controller);
        s.append(" [");
        push_kind_debug(&mut s, e.label);
        s.append("]\n");
        proof {
            assert(s@ =~= before + summary_dependence_line(e));
            lemma_concat_step(deps@, k as int, h);
        }
        k = k + 1;
    }
    assert(deps@.take(k as int) =~= deps@);
    proof {
        assert(s@ =~= summary_text(fn_name@, *analysis));
    }
    s
}

} // verus!
