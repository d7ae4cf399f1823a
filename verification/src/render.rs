//! Text renderings of the analyses: node names, edge listings, Graphviz DOT
//! graphs and the printed reports.
use vstd::prelude::*;
use crate::cfg::{ControlFlowGraph, CfgNode, CfgEdge, EdgeKind, edges_upto, node_seq};
use crate::postdom::PostDominatorTree;
use crate::cdg::{ControlDependenceGraph, ControlDependenceEdge};
use crate::text::{decimal, push_decimal, digit_char};

verus! {

/// `bbN` for block N, `EXIT` for the exit node.
pub open spec fn node_name(n: CfgNode) -> Seq<char> {
    match n {
        CfgNode::Block(i) => "bb"@ + decimal(i as nat),
        CfgNode::Exit => "EXIT"@,
    }
}

/// The node's name, or `None`.
pub open spec fn opt_node_name(o: Option<CfgNode>) -> Seq<char> {
    match o {
        Some(n) => node_name(n),
        None => "None"@,
    }
}

/// Debug text of an edge kind (variant name, with the switch value).
pub open spec fn kind_debug(k: EdgeKind) -> Seq<char> {
    match k {
        EdgeKind::Goto => "Goto"@,
        EdgeKind::SwitchInt(Some(v)) => "SwitchInt(Some("@ + decimal(v as nat) + "))"@,
        EdgeKind::SwitchInt(None) => "SwitchInt(None)"@,
        EdgeKind::AssertSuccess => "AssertSuccess"@,
        EdgeKind::AssertUnwind => "AssertUnwind"@,
        EdgeKind::Return => "Return"@,
        EdgeKind::CallReturn => "CallReturn"@,
        EdgeKind::CallUnwind => "CallUnwind"@,
        EdgeKind::Drop => "Drop"@,
        EdgeKind::Yield => "Yield"@,
        EdgeKind::InlineAsm => "InlineAsm"@,
        EdgeKind::FalseEdge => "FalseEdge"@,
        EdgeKind::FalseUnwind => "FalseUnwind"@,
        EdgeKind::Other => "Other"@,
    }
}

/// Concatenation of `f` over the elements of `s`.
pub open spec fn concat_map<T>(s: Seq<T>, f: spec_fn(T) -> Seq<char>) -> Seq<char>
    decreases s.len(),
{
    if s.len() == 0 {
        Seq::empty()
    } else {
        concat_map(s.drop_last(), f) + f(s.last())
    }
}

/// `f` over the elements of `s`, separated by `", "`.
pub open spec fn join_map<T>(s: Seq<T>, f: spec_fn(T) -> Seq<char>) -> Seq<char>
    decreases s.len(),
{
    if s.len() == 0 {
        Seq::empty()
    } else if s.len() == 1 {
        f(s[0])
    } else {
        join_map(s.drop_last(), f) + ", "@ + f(s.last())
    }
}

pub proof fn lemma_concat_step<T>(s: Seq<T>, k: int, f: spec_fn(T) -> Seq<char>)
    requires
        0 <= k < s.len(),
    ensures
        concat_map(s.take(k + 1), f) == concat_map(s.take(k), f) + f(s[k]),
{
    assert(s.take(k + 1).drop_last() =~= s.take(k));
}

pub proof fn lemma_join_step<T>(s: Seq<T>, k: int, f: spec_fn(T) -> Seq<char>)
    requires
        0 <= k < s.len(),
    ensures
        join_map(s.take(k + 1), f) == if k == 0 {
            f(s[0])
        } else {
            join_map(s.take(k), f) + ", "@ + f(s[k])
        },
{
    assert(s.take(k + 1).drop_last() =~= s.take(k));
}

/// Appends the node's name.
pub fn push_node(s: &mut String, n: CfgNode)
    ensures
        final(s)@ == old(s)@ + node_name(n),
{
    match n {
        CfgNode::Block(i) => {
            s.append("bb");
            push_decimal(s, i as u128);
        },
        CfgNode::Exit => s.append("EXIT"),
    }
    proof {
        assert(final(s)@ =~= old(s)@ + node_name(n));
    }
}

/// Appends the node's name, or `None`.
pub fn push_opt_node(s: &mut String, o: Option<CfgNode>)
    ensures
        final(s)@ == old(s)@ + opt_node_name(o),
{
    match o {
        Some(n) => push_node(s, n),
        None => s.append("None"),
    }
}

/// Appends the debug text of an edge kind.
pub fn push_kind_debug(s: &mut String, k: EdgeKind)
    ensures
        final(s)@ == old(s)@ + kind_debug(k),
{
    match k {
        EdgeKind::Goto => s.append("Goto"),
        EdgeKind::SwitchInt(Some(v)) => {
            s.append("SwitchInt(Some(");
            push_decimal(s, v);
            s.append("))");
        },
        EdgeKind::SwitchInt(None) => s.append("SwitchInt(None)"),
        EdgeKind::AssertSuccess => s.append("AssertSuccess"),
        EdgeKind::AssertUnwind => s.append("AssertUnwind"),
        EdgeKind::Return => s.append("Return"),
        EdgeKind::CallReturn => s.append("CallReturn"),
        EdgeKind::CallUnwind => s.append("CallUnwind"),
        EdgeKind::Drop => s.append("Drop"),
        EdgeKind::Yield => s.append("Yield"),
        EdgeKind::InlineAsm => s.append("InlineAsm"),
        EdgeKind::FalseEdge => s.append("FalseEdge"),
        EdgeKind::FalseUnwind => s.append("FalseUnwind"),
        EdgeKind::Other => s.append("Other"),
    }
    proof {
        assert(final(s)@ =~= old(s)@ + kind_debug(k));
    }
}

impl CfgNode {
    /// `bbN` for block N, `EXIT` for the exit node.
    pub fn to_string(&self) -> (r: String)
        ensures
            r@ == node_name(*self),
    {
        let mut s = String::new();
        push_node(&mut s, *self);
        assert(s@ =~= node_name(*self));
        s
    }
}

/// One line of the CFG edge listing.
pub open spec fn cfg_line(e: CfgEdge) -> Seq<char> {
    "  "@ + node_name(e.from) + " -> "@ + node_name(e.to) + " ["@ + kind_debug(e.kind) + "]\n"@
}

/// One line of the CDG edge listing.
pub open spec fn cdg_line(e: ControlDependenceEdge) -> Seq<char> {
    "  "@ + node_name(e.dependent) + " <- "@ + node_name(e.controller) + " ["@ + kind_debug(
        e.label,
    ) + "]\n"@
}

/// The CFG edges of a graph.
pub open spec fn all_cfg_edges(cfg: ControlFlowGraph) -> Seq<CfgEdge> {
    edges_upto(cfg.succs(), cfg.nb(), cfg.nb() + 1)
}

fn push_cfg_line(s: &mut String, e: CfgEdge)
    ensures
        final(s)@ == old(s)@ + cfg_line(e),
{
    s.append("  ");
    push_node(s, e.from);
    s.append(" -> ");
    push_node(s, e.to);
    s.append(" [");
    push_kind_debug(s, e.kind);
    s.append("]\n");
    assert(final(s)@ =~= old(s)@ + cfg_line(e));
}

fn push_cfg_lines(s: &mut String, es: &[CfgEdge])
    ensures
        final(s)@ == old(s)@ + concat_map(es@, |e: CfgEdge| cfg_line(e)),
{
    let ghost f = |e: CfgEdge| cfg_line(e);
    let mut k: usize = 0;
    while k < es.len()
        invariant
            k <= es@.len(),
            f == (|e: CfgEdge| cfg_line(e)),
            s@ == old(s)@ + concat_map(es@.take(k as int), f),
        decreases es@.len() - k,
    {
        push_cfg_line(s, es[k]);
        proof {
            lemma_concat_step(es@, k as int, f);
        }
        k = k + 1;
    }
    assert(es@.take(k as int) =~= es@);
}

/// Format CFG edges as a string.
pub fn cfg_to_string(cfg: &ControlFlowGraph) -> (r: String)
    requires
        cfg.wf(),
    ensures
        r@ == "CFG Edges:\n"@ + concat_map(all_cfg_edges(*cfg), |e: CfgEdge| cfg_line(e)),
{
    let mut result = String::new();
    result.append("CFG Edges:\n");
    let edges = cfg.edges();
    push_cfg_lines(&mut result, edges.as_slice());
    result
}

/// Format CDG edges as a string.
pub fn cdg_to_string(cdg: &ControlDependenceGraph) -> (r: String)
    ensures
        r@ == "CDG Edges (dependent <- controller):\n"@ + concat_map(
            cdg.edge_list(),
            |e: ControlDependenceEdge| cdg_line(e),
        ),
{
    let mut result = String::new();
    result.append("CDG Edges (dependent <- controller):\n");
    let es = cdg.edges();
    let ghost f = |e: ControlDependenceEdge| cdg_line(e);
    let mut k: usize = 0;
    while k < es.len()
        invariant
            k <= es@.len(),
            es@ == cdg.edge_list(),
            f == (|e: ControlDependenceEdge| cdg_line(e)),
            result@ == "CDG Edges (dependent <- controller):\n"@ + concat_map(es@.take(k as int), f),
        decreases es@.len() - k,
    {
        let e = es[k];
        let ghost before = result@;
        result.append("  ");
        push_node(&mut result, e.dependent);
        result.append(" <- ");
        push_node(&mut result, e.controller);
        result.append(" [");
        push_kind_debug(&mut result, e.label);
        result.append("]\n");
        proof {
            assert(result@ =~= before + cdg_line(e));
            lemma_concat_step(es@, k as int, f);
        }
        k = k + 1;
    }
    assert(es@.take(k as int) =~= es@);
    result
}

/// (color, label) of a CFG edge kind in the DOT rendering.
pub open spec fn dot_style(k: EdgeKind) -> (Seq<char>, Seq<char>) {
    match k {
        EdgeKind::Goto => ("black"@, "goto"@),
        EdgeKind::SwitchInt(Some(_v)) => ("blue"@, "switch"@),
        EdgeKind::SwitchInt(None) => ("blue"@, "otherwise"@),
        EdgeKind::AssertSuccess => ("green"@, "assert_ok"@),
        EdgeKind::AssertUnwind => ("red"@, "assert_fail"@),
        EdgeKind::Return => ("darkgreen"@, "return"@),
        EdgeKind::CallReturn => ("purple"@, "call_ret"@),
        EdgeKind::CallUnwind => ("red"@, "call_unwind"@),
        EdgeKind::Drop => ("orange"@, "drop"@),
        EdgeKind::Yield => ("cyan"@, "yield"@),
        EdgeKind::InlineAsm => ("gray"@, "asm"@),
        EdgeKind::FalseEdge => ("lightgray"@, "false_edge"@),
        EdgeKind::FalseUnwind => ("lightgray"@, "false_unwind"@),
        EdgeKind::Other => ("black"@, "other"@),
    }
}

fn dot_style_of(k: EdgeKind) -> (r: (&'static str, &'static str))
    ensures
        (r.0@, r.1@) == dot_style(k),
{
    match k {
        EdgeKind::Goto => ("black", "goto"),
        EdgeKind::SwitchInt(Some(_v)) => ("blue", "switch"),
        EdgeKind::SwitchInt(None) => ("blue", "otherwise"),
        EdgeKind::AssertSuccess => ("green", "assert_ok"),
        EdgeKind::AssertUnwind => ("red", "assert_fail"),
        EdgeKind::Return => ("darkgreen", "return"),
        EdgeKind::CallReturn => ("purple", "call_ret"),
        EdgeKind::CallUnwind => ("red", "call_unwind"),
        EdgeKind::Drop => ("orange", "drop"),
        EdgeKind::Yield => ("cyan", "yield"),
        EdgeKind::InlineAsm => ("gray", "asm"),
        EdgeKind::FalseEdge => ("lightgray", "false_edge"),
        EdgeKind::FalseUnwind => ("lightgray", "false_unwind"),
        EdgeKind::Other => ("black", "other"),
    }
}

/// One edge of the CFG in DOT.
pub open spec fn cfg_dot_line(e: CfgEdge) -> Seq<char> {
    "    "@ + node_name(e.from) + " -> "@ + node_name(e.to) + " [label=\""@ + dot_style(e.kind).1
        + "\", color="@ + dot_style(e.kind).0 + "];\n"@
}

/// Opening of the CFG DOT graph.
pub open spec fn cfg_dot_head() -> Seq<char> {
    "digraph CFG {\n    // CHANGED BY JAYITHI GAVVA: Generated CFG visualization\n    rankdir=TB;\n    node [shape=box, style=filled];\n\n    // Node styling\n    bb0 [label=\"bb0\\n(ENTRY)\", fillcolor=lightgreen];\n    EXIT [label=\"EXIT\", fillcolor=lightcoral, shape=ellipse];\n\n    // Edges\n"@
}

/// CFG in Graphviz DOT format.
#[verifier::rlimit(40)]
pub fn cfg_to_dot(cfg: &ControlFlowGraph) -> (r: String)
    requires
        cfg.wf(),
    ensures
        r@ == cfg_dot_head() + concat_map(all_cfg_edges(*cfg), |e: CfgEdge| cfg_dot_line(e))
            + "}\n"@,
{
    let mut dot = String::new();
    dot.append(
        "digraph CFG {\n    // CHANGED BY JAYITHI GAVVA: Generated CFG visualization\n    rankdir=TB;\n    node [shape=box, style=filled];\n\n    // Node styling\n    bb0 [label=\"bb0\\n(ENTRY)\", fillcolor=lightgreen];\n    EXIT [label=\"EXIT\", fillcolor=lightcoral, shape=ellipse];\n\n    // Edges\n",
    );
    let edges = cfg.edges();
    let ghost f = |e: CfgEdge| cfg_dot_line(e);
    let mut k: usize = 0;
    while k < edges.len()
        invariant
            k <= edges@.len(),
            edges@ == all_cfg_edges(*cfg),
            f == (|e: CfgEdge| cfg_dot_line(e)),
            dot@ == cfg_dot_head() + concat_map(edges@.take(k as int), f),
        decreases edges@.len() - k,
    {
        let e = edges[k];
        let ghost before = dot@;
        let (color, label) = dot_style_of(e.kind);
        dot.append("    ");
        push_node(&mut dot, e.from);
        dot.append(" -> ");
        push_node(&mut dot, e.to);
        dot.append(" [label=\"");
        dot.append(label);
        dot.append("\", color=");
        dot.append(color);
        dot.append("];\n");
        proof {
            assert(dot@ =~= before + cfg_dot_line(e));
            lemma_concat_step(edges@, k as int, f);
        }
        k = k + 1;
    }
    assert(edges@.take(k as int) =~= edges@);
    dot.append("}\n");
    dot
}

/// One tree edge `node -> ipdom(node)` in DOT, if the node has one.
pub open spec fn pdt_dot_line(p: (CfgNode, Option<CfgNode>)) -> Seq<char> {
    match p.1 {
        Some(parent) => "    "@ + node_name(p.0) + " -> "@ + node_name(parent) + ";\n"@,
        None => Seq::empty(),
    }
}

/// Opening of the post-dominator tree DOT graph.
pub open spec fn pdt_dot_head() -> Seq<char> {
    "digraph PostDominatorTree {\n    // CHANGED BY JAYITHI GAVVA: Generated Post-Dominator Tree visualization\n    rankdir=BT;  // Bottom to top (EXIT at top)\n    node [shape=box, style=filled, fillcolor=lightyellow];\n\n    EXIT [label=\"EXIT\\n(root)\", fillcolor=lightcoral, shape=ellipse];\n\n    // Edges (node -> immediate post-dominator)\n"@
}

/// The (node, immediate post-dominator) pairs of a tree, in node order.
pub open spec fn ipdom_pairs(pdt: PostDominatorTree) -> Seq<(CfgNode, Option<CfgNode>)> {
    Seq::new(pdt.n(), |i: int| (crate::cfg::node_at(i, pdt.blocks()), pdt.ipdom(i)))
}

/// Post-dominator tree in Graphviz DOT format.
pub fn pdt_to_dot(pdt: &PostDominatorTree, _cfg: &ControlFlowGraph) -> (r: String)
    requires
        pdt.ok(),
    ensures
        r@ == pdt_dot_head() + concat_map(
            ipdom_pairs(*pdt),
            |p: (CfgNode, Option<CfgNode>)| pdt_dot_line(p),
        ) + "}\n"@,
{
    let mut dot = String::new();
    dot.append(
        "digraph PostDominatorTree {\n    // CHANGED BY JAYITHI GAVVA: Generated Post-Dominator Tree visualization\n    rankdir=BT;  // Bottom to top (EXIT at top)\n    node [shape=box, style=filled, fillcolor=lightyellow];\n\n    EXIT [label=\"EXIT\\n(root)\", fillcolor=lightcoral, shape=ellipse];\n\n    // Edges (node -> immediate post-dominator)\n",
    );
    let pairs = pdt.iter_ipostdom();
    let ghost f = |p: (CfgNode, Option<CfgNode>)| pdt_dot_line(p);
    proof {
        assert(pairs@ =~= ipdom_pairs(*pdt));
    }
    let mut k: usize = 0;
    while k < pairs.len()
        invariant
            k <= pairs@.len(),
            pairs@ == ipdom_pairs(*pdt),
            f == (|p: (CfgNode, Option<CfgNode>)| pdt_dot_line(p)),
            dot@ == pdt_dot_head() + concat_map(pairs@.take(k as int), f),
        decreases pairs@.len() - k,
    {
        let (node, ipdom) = pairs[k];
        let ghost before = dot@;
        match ipdom {
            Some(parent) => {
                dot.append("    ");
                push_node(&mut dot, node);
                dot.append(" -> ");
                push_node(&mut dot, parent);
                dot.append(";\n");
            },
            None => {},
        }
        proof {
            assert(dot@ =~= before + pdt_dot_line(pairs@[k as int]));
            lemma_concat_step(pairs@, k as int, f);
        }
        k = k + 1;
    }
    assert(pairs@.take(k as int) =~= pairs@);
    dot.append("}\n");
    dot
}

/// Label of a control dependence in the DOT rendering.
pub open spec fn cdg_label(k: EdgeKind) -> Seq<char> {
    match k {
        EdgeKind::SwitchInt(Some(v)) => "val="@ + decimal(v as nat),
        EdgeKind::SwitchInt(None) => "otherwise"@,
        EdgeKind::AssertSuccess => "true"@,
        EdgeKind::AssertUnwind => "false"@,
        _ => kind_debug(k),
    }
}

/// One control dependence in DOT.
pub open spec fn cdg_dot_line(e: ControlDependenceEdge) -> Seq<char> {
    "    "@ + node_name(e.controller) + " -> "@ + node_name(e.dependent) + " [label=\""@ + cdg_label(
        e.label,
    ) + "\", style=dashed, color=red];\n"@
}

/// Opening of the CDG DOT graph.
pub open spec fn cdg_dot_head() -> Seq<char> {
    "digraph CDG {\n    // CHANGED BY JAYITHI GAVVA: Generated Control Dependence Graph visualization\n    rankdir=TB;\n    node [shape=box, style=filled, fillcolor=lightblue];\n\n    bb0 [label=\"bb0\\n(ENTRY)\", fillcolor=lightgreen];\n    EXIT [label=\"EXIT\", fillcolor=lightcoral, shape=ellipse];\n\n    // Control Dependence Edges (controller -> dependent)\n"@
}

fn push_cdg_label(s: &mut String, k: EdgeKind)
    ensures
        final(s)@ == old(s)@ + cdg_label(k),
{
    match k {
        EdgeKind::SwitchInt(Some(v)) => {
            s.append("val=");
            push_decimal(s, v);
        },
        EdgeKind::SwitchInt(None) => s.append("otherwise"),
        EdgeKind::AssertSuccess => s.append("true"),
        EdgeKind::AssertUnwind => s.append("false"),
        _ => push_kind_debug(s, k),
    }
    proof {
        assert(final(s)@ =~= old(s)@ + cdg_label(k));
    }
}

/// CDG in Graphviz DOT format.
pub fn cdg_to_dot(cdg: &ControlDependenceGraph, _cfg: &ControlFlowGraph) -> (r: String)
    ensures
        r@ == cdg_dot_head() + concat_map(
            cdg.edge_list(),
            |e: ControlDependenceEdge| cdg_dot_line(e),
        ) + "}\n"@,
{
    let mut dot = String::new();
    dot.append(
        "digraph CDG {\n    // CHANGED BY JAYITHI GAVVA: Generated Control Dependence Graph visualization\n    rankdir=TB;\n    node [shape=box, style=filled, fillcolor=lightblue];\n\n    bb0 [label=\"bb0\\n(ENTRY)\", fillcolor=lightgreen];\n    EXIT [label=\"EXIT\", fillcolor=lightcoral, shape=ellipse];\n\n    // Control Dependence Edges (controller -> dependent)\n",
    );
    let es = cdg.edges();
    let ghost f = |e: ControlDependenceEdge| cdg_dot_line(e);
    let mut k: usize = 0;
    while k < es.len()
        invariant
            k <= es@.len(),
            es@ == cdg.edge_list(),
            f == (|e: ControlDependenceEdge| cdg_dot_line(e)),
            dot@ == cdg_dot_head() + concat_map(es@.take(k as int), f),
        decreases es@.len() - k,
    {
        let e = es[k];
        let ghost before = dot@;
        dot.append("    ");
        push_node(&mut dot, e.controller);
        dot.append(" -> ");
        push_node(&mut dot, e.dependent);
        dot.append(" [label=\"");
        push_cdg_label(&mut dot, e.label);
        dot.append("\", style=dashed, color=red];\n");
        proof {
            assert(dot@ =~= before + cdg_dot_line(e));
            lemma_concat_step(es@, k as int, f);
        }
        k = k + 1;
    }
    assert(es@.take(k as int) =~= es@);
    dot.append("}\n");
    dot
}

/// One CFG edge of the combined graph.
pub open spec fn combined_cfg_line(e: CfgEdge) -> Seq<char> {
    "    "@ + node_name(e.from) + " -> "@ + node_name(e.to) + " [color=black];\n"@
}

/// One CDG edge of the combined graph.
pub open spec fn combined_cdg_line(e: ControlDependenceEdge) -> Seq<char> {
    "    "@ + node_name(e.controller) + " -> "@ + node_name(e.dependent)
        + " [style=dashed, color=red, constraint=false];\n"@
}

/// Opening of the combined DOT graph.
pub open spec fn combined_dot_head() -> Seq<char> {
    "digraph Combined_CFG_CDG {\n    // CHANGED BY JAYITHI GAVVA: Combined CFG and CDG visualization\n    rankdir=TB;\n    node [shape=box, style=filled, fillcolor=lightyellow];\n\n    bb0 [label=\"bb0\\n(ENTRY)\", fillcolor=lightgreen];\n    EXIT [label=\"EXIT\", fillcolor=lightcoral, shape=ellipse];\n\n    // CFG Edges (solid)\n"@
}

/// A combined graph showing both the CFG (solid) and the CDG (dashed).
pub fn combined_cfg_cdg_to_dot(cfg: &ControlFlowGraph, cdg: &ControlDependenceGraph) -> (r: String)
    requires
        cfg.wf(),
    ensures
        r@ == combined_dot_head() + concat_map(
            all_cfg_edges(*cfg),
            |e: CfgEdge| combined_cfg_line(e),
        ) + "\n    // CDG Edges (dashed red)\n"@ + concat_map(
            cdg.edge_list(),
            |e: ControlDependenceEdge| combined_cdg_line(e),
        ) + "}\n"@,
{
    let mut dot = String::new();
    dot.append(
        "digraph Combined_CFG_CDG {\n    // CHANGED BY JAYITHI GAVVA: Combined CFG and CDG visualization\n    rankdir=TB;\n    node [shape=box, style=filled, fillcolor=lightyellow];\n\n    bb0 [label=\"bb0\\n(ENTRY)\", fillcolor=lightgreen];\n    EXIT [label=\"EXIT\", fillcolor=lightcoral, shape=ellipse];\n\n    // CFG Edges (solid)\n",
    );
    let edges = cfg.edges();
    let ghost f = |e: CfgEdge| combined_cfg_line(e);
    let mut k: usize = 0;
    while k < edges.len()
        invariant
            k <= edges@.len(),
            edges@ == all_cfg_edges(*cfg),
            f == (|e: CfgEdge| combined_cfg_line(e)),
            dot@ == combined_dot_head() + concat_map(edges@.take(k as int), f),
        decreases edges@.len() - k,
    {
        let e = edges[k];
        let ghost before = dot@;
        dot.append("    ");
        push_node(&mut dot, e.from);
        dot.append(" -> ");
        push_node(&mut dot, e.to);
        dot.append(" [color=black];\n");
        proof {
            assert(dot@ =~= before + combined_cfg_line(e));
            lemma_concat_step(edges@, k as int, f);
        }
        k = k + 1;
    }
    assert(edges@.take(k as int) =~= edges@);
    dot.append("\n    // CDG Edges (dashed red)\n");
    let ghost mid = dot@;
    let es = cdg.edges();
    let ghost g = |e: ControlDependenceEdge| combined_cdg_line(e);
    let mut k: usize = 0;
    while k < es.len()
        invariant
            k <= es@.len(),
            es@ == cdg.edge_list(),
            g == (|e: ControlDependenceEdge| combined_cdg_line(e)),
            dot@ == mid + concat_map(es@.take(k as int), g),
        decreases es@.len() - k,
    {
        let e = es[k];
        let ghost before = dot@;
        dot.append("    ");
        push_node(&mut dot, e.controller);
        dot.append(" -> ");
        push_node(&mut dot, e.dependent);
        dot.append(" [style=dashed, color=red, constraint=false];\n");
        proof {
            assert(dot@ =~= before + combined_cdg_line(e));
            lemma_concat_step(es@, k as int, g);
        }
        k = k + 1;
    }
    assert(es@.take(k as int) =~= es@);
    dot.append("}\n");
    dot
}

proof fn lemma_decimal_nonempty(n: nat)
    ensures
        decimal(n).len() >= 1,
        n >= 10 ==> decimal(n).len() >= 2,
    decreases n,
{
    if n >= 10 {
        lemma_decimal_nonempty(n / 10);
    }
}

/// Different numbers have different decimal numerals.
pub proof fn lemma_decimal_injective(a: nat, b: nat)
    requires
        decimal(a) == decimal(b),
    ensures
        a == b,
    decreases a,
{
    lemma_decimal_nonempty(a);
    lemma_decimal_nonempty(b);
    if a < 10 && b < 10 {
        assert(decimal(a) == seq![digit_char(a)]);
        assert(decimal(b) == seq![digit_char(b)]);
        assert(seq![digit_char(a)][0] == digit_char(a));
        assert(seq![digit_char(b)][0] == digit_char(b));
        assert(decimal(a)[0] == decimal(b)[0]);
        assert(digit_char(a) == digit_char(b));
        assert((48 + a) as char == (48 + b) as char);
    } else if a >= 10 && b >= 10 {
        assert(decimal(a) == decimal(a / 10).push(digit_char(a % 10)));
        assert(decimal(b) == decimal(b / 10).push(digit_char(b % 10)));
        assert(decimal(a).last() == decimal(b).last());
        assert(decimal(a).drop_last() =~= decimal(a / 10));
        assert(decimal(b).drop_last() =~= decimal(b / 10));
        lemma_decimal_injective(a / 10, b / 10);
        assert(decimal(a / 10).push(digit_char(a % 10)).last() == digit_char(a % 10));
        assert(decimal(b / 10).push(digit_char(b % 10)).last() == digit_char(b % 10));
        assert(digit_char(a % 10) == digit_char(b % 10));
        assert((48 + a % 10) as char == (48 + b % 10) as char);
    }
}

/// The rendering of nodes is injective: two nodes with the same name are
/// the same node.
pub proof fn lemma_node_name_injective(x: CfgNode, y: CfgNode)
    requires
        node_name(x) == node_name(y),
    ensures
        x == y,
{
    reveal_strlit("bb");
    reveal_strlit("EXIT");
    match (x, y) {
        (CfgNode::Block(i), CfgNode::Block(j)) => {
            assert(node_name(x).skip(2) =~= decimal(i as nat));
            assert(node_name(y).skip(2) =~= decimal(j as nat));
            lemma_decimal_injective(i as nat, j as nat);
        },
        (CfgNode::Block(i), CfgNode::Exit) => {
            assert(node_name(x)[0] == 'b');
            assert(node_name(y)[0] == 'E');
        },
        (CfgNode::Exit, CfgNode::Block(j)) => {
            assert(node_name(x)[0] == 'E');
            assert(node_name(y)[0] == 'b');
        },
        _ => {},
    }
}

} // verus!
