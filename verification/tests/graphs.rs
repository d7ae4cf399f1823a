use j2_passes::cdg::{ControlDependenceGraph, ControlFlowAnalysis};
use j2_passes::cfg::{CfgNode, ControlFlowGraph, EdgeKind};
use j2_passes::mir::{BasicBlockData, Body, Operand, Place, TerminatorKind};
use j2_passes::postdom::PostDominatorTree;
use j2_passes::render::{cdg_to_dot, cdg_to_string, cfg_to_dot, cfg_to_string, combined_cfg_cdg_to_dot, pdt_to_dot};
use j2_passes::report::{analysis_summary, print_analysis, print_cdg, print_cdg_dependences, print_cfg, print_cfg_adjacency, print_post_dominators};

fn place(l: usize) -> Place {
    Place { local: l, projection: vec![] }
}

fn block(t: TerminatorKind) -> BasicBlockData {
    BasicBlockData { statements: vec![], terminator: Some(t) }
}

/// bb0 switches to bb1 (value 0) or bb2; both go to bb3, which returns.
fn diamond() -> Body {
    Body {
        basic_blocks: vec![
            block(TerminatorKind::SwitchInt { discr: Operand::Copy(place(1)), targets: vec![(0, 1)], otherwise: 2 }),
            block(TerminatorKind::Goto { target: 3 }),
            block(TerminatorKind::Goto { target: 3 }),
            block(TerminatorKind::Return),
        ],
        arg_count: 1, local_tys: vec![]
    }
}

fn b(i: usize) -> CfgNode {
    CfgNode::Block(i)
}

#[test]
fn cfg_of_diamond_has_its_edges() {
    let cfg = ControlFlowGraph::build(&diamond());
    assert_eq!(cfg.nodes().to_vec(), vec![b(0), b(1), b(2), b(3), CfgNode::Exit]);
    assert_eq!(cfg.successors(b(0)), vec![(b(1), EdgeKind::SwitchInt(Some(0))), (b(2), EdgeKind::SwitchInt(None))]);
    assert_eq!(cfg.predecessors(b(3)), vec![(b(1), EdgeKind::Goto), (b(2), EdgeKind::Goto)]);
    assert_eq!(cfg.predecessors(CfgNode::Exit), vec![(b(3), EdgeKind::Return)]);
    assert_eq!(cfg.num_successors(b(0)), 2);
    assert!(cfg.is_branch(b(0)));
    assert!(!cfg.is_branch(b(1)));
    assert_eq!(cfg.entry(), b(0));
    assert_eq!(cfg.exit(), CfgNode::Exit);
    let edges: Vec<(CfgNode, CfgNode, EdgeKind)> = cfg.edges().iter().map(|e| (e.from, e.to, e.kind)).collect();
    assert_eq!(
        edges,
        vec![
            (b(0), b(1), EdgeKind::SwitchInt(Some(0))),
            (b(0), b(2), EdgeKind::SwitchInt(None)),
            (b(1), b(3), EdgeKind::Goto),
            (b(2), b(3), EdgeKind::Goto),
            (b(3), CfgNode::Exit, EdgeKind::Return),
        ]
    );
}

#[test]
fn successors_and_predecessors_mirror_each_other() {
    let cfg = ControlFlowGraph::build(&diamond());
    for n in cfg.nodes().to_vec() {
        for (s, k) in cfg.successors(n) {
            assert!(cfg.predecessors(s).contains(&(n, k)));
        }
        for (p, k) in cfg.predecessors(n) {
            assert!(cfg.successors(p).contains(&(n, k)));
        }
    }
}

#[test]
fn reverse_postorders_of_diamond() {
    let cfg = ControlFlowGraph::build(&diamond());
    assert_eq!(cfg.reverse_postorder(), vec![b(0), b(2), b(1), b(3), CfgNode::Exit]);
    assert_eq!(cfg.reverse_postorder_from_exit(), vec![CfgNode::Exit, b(3), b(2), b(1), b(0)]);
}

#[test]
fn reverse_postorder_skips_unreachable_blocks() {
    let body = Body {
        basic_blocks: vec![block(TerminatorKind::Return), block(TerminatorKind::Goto { target: 0 })],
        arg_count: 0, local_tys: vec![]
    };
    let cfg = ControlFlowGraph::build(&body);
    assert_eq!(cfg.reverse_postorder(), vec![b(0), CfgNode::Exit]);
    assert_eq!(cfg.reverse_postorder_from_exit(), vec![CfgNode::Exit, b(0), b(1)]);
}

#[test]
fn call_and_assert_edges() {
    let body = Body {
        basic_blocks: vec![
            block(TerminatorKind::Call {
                func: Operand::Copy(place(1)),
                args: vec![],
                destination: place(2),
                target: Some(1),
                unwind: j2_passes::mir::UnwindAction::Cleanup(2),
            }),
            block(TerminatorKind::Assert { target: 3, unwind: j2_passes::mir::UnwindAction::Continue }),
            block(TerminatorKind::UnwindResume),
            block(TerminatorKind::Return),
        ],
        arg_count: 1, local_tys: vec![]
    };
    let cfg = ControlFlowGraph::build(&body);
    assert_eq!(cfg.successors(b(0)), vec![(b(1), EdgeKind::CallReturn), (b(2), EdgeKind::CallUnwind)]);
    assert_eq!(cfg.successors(b(1)), vec![(b(3), EdgeKind::AssertSuccess)]);
    assert_eq!(cfg.successors(b(2)), vec![(CfgNode::Exit, EdgeKind::Other)]);
}

#[test]
fn post_dominators_of_diamond() {
    let cfg = ControlFlowGraph::build(&diamond());
    let pdt = PostDominatorTree::compute(&cfg);
    assert_eq!(pdt.postdominators(b(0)), Some(vec![b(0), b(3), CfgNode::Exit]));
    assert_eq!(pdt.postdominators(b(1)), Some(vec![b(1), b(3), CfgNode::Exit]));
    assert_eq!(pdt.postdominators(CfgNode::Exit), Some(vec![CfgNode::Exit]));
    assert!(pdt.postdominates(b(3), b(0)));
    assert!(!pdt.postdominates(b(1), b(0)));
    assert!(pdt.postdominates(b(0), b(0)));
    // the closest post-dominator is chosen
    assert_eq!(pdt.immediate_postdominator(b(0)), Some(b(3)));
    assert_eq!(pdt.immediate_postdominator(b(3)), Some(CfgNode::Exit));
    assert_eq!(pdt.immediate_postdominator(CfgNode::Exit), None);
    assert_eq!(pdt.children(CfgNode::Exit), vec![b(3)]);
    assert_eq!(pdt.children(b(3)), vec![b(0), b(1), b(2)]);
    assert_eq!(
        pdt.iter_ipostdom(),
        vec![
            (b(0), Some(b(3))),
            (b(1), Some(b(3))),
            (b(2), Some(b(3))),
            (b(3), Some(CfgNode::Exit)),
            (CfgNode::Exit, None),
        ]
    );
}

#[test]
fn blocks_that_never_exit_are_post_dominated_by_everything() {
    // bb0 -> bb1 -> bb1 (no way out)
    let body = Body {
        basic_blocks: vec![block(TerminatorKind::Goto { target: 1 }), block(TerminatorKind::Goto { target: 1 })],
        arg_count: 0, local_tys: vec![]
    };
    let cfg = ControlFlowGraph::build(&body);
    let pdt = PostDominatorTree::compute(&cfg);
    assert_eq!(pdt.postdominators(b(0)), Some(vec![b(0), b(1), CfgNode::Exit]));
    assert_eq!(pdt.immediate_postdominator(b(0)), Some(CfgNode::Exit));
}

/// bb0 -> bb1 -> bb2 -> return: each block's closest post-dominator is the
/// next one.
#[test]
fn immediate_post_dominators_of_a_chain() {
    let body = Body {
        basic_blocks: vec![
            block(TerminatorKind::Goto { target: 1 }),
            block(TerminatorKind::Goto { target: 2 }),
            block(TerminatorKind::Return),
        ],
        arg_count: 0, local_tys: vec![]
    };
    let cfg = ControlFlowGraph::build(&body);
    let pdt = PostDominatorTree::compute(&cfg);
    assert_eq!(pdt.immediate_postdominator(b(0)), Some(b(1)));
    assert_eq!(pdt.immediate_postdominator(b(1)), Some(b(2)));
    assert_eq!(pdt.immediate_postdominator(b(2)), Some(CfgNode::Exit));
}

/// A diamond followed by a chain: bb2 depends on bb0 through its branch.
#[test]
fn control_dependences_of_diamond_then_chain() {
    // bb0 switches to bb1 or bb2; bb1 -> bb3; bb2 -> bb3; bb3 -> bb4; bb4 returns
    let body = Body {
        basic_blocks: vec![
            block(TerminatorKind::SwitchInt { discr: Operand::Copy(place(1)), targets: vec![(0, 1)], otherwise: 2 }),
            block(TerminatorKind::Goto { target: 3 }),
            block(TerminatorKind::Goto { target: 3 }),
            block(TerminatorKind::Goto { target: 4 }),
            block(TerminatorKind::Return),
        ],
        arg_count: 1, local_tys: vec![]
    };
    let cfg = ControlFlowGraph::build(&body);
    let pdt = PostDominatorTree::compute(&cfg);
    assert_eq!(pdt.immediate_postdominator(b(0)), Some(b(3)));
    let cdg = ControlDependenceGraph::build(&cfg, &pdt);
    assert!(cdg.is_control_dependent(b(2), b(0)));
    assert!(cdg.is_control_dependent(b(1), b(0)));
    assert!(!cdg.is_control_dependent(b(3), b(0)));
    assert!(!cdg.is_control_dependent(b(4), b(0)));
}

#[test]
fn control_dependences_of_diamond() {
    let cfg = ControlFlowGraph::build(&diamond());
    let pdt = PostDominatorTree::compute(&cfg);
    let cdg = ControlDependenceGraph::build(&cfg, &pdt);
    let edges: Vec<(CfgNode, CfgNode, EdgeKind)> = cdg.edges().iter().map(|e| (e.controller, e.dependent, e.label)).collect();
    assert_eq!(edges, vec![(b(0), b(1), EdgeKind::SwitchInt(Some(0))), (b(0), b(2), EdgeKind::SwitchInt(None))]);
    assert_eq!(cdg.control_dependences(b(1)), vec![(b(0), EdgeKind::SwitchInt(Some(0)))]);
    assert_eq!(cdg.control_dependences(b(3)), vec![]);
    assert_eq!(
        cdg.controlled_nodes(b(0)),
        vec![(b(1), EdgeKind::SwitchInt(Some(0))), (b(2), EdgeKind::SwitchInt(None))]
    );
    assert!(cdg.is_control_dependent(b(2), b(0)));
    assert!(!cdg.is_control_dependent(b(3), b(0)));
}

#[test]
fn analyze_bundles_the_three_analyses() {
    let a = ControlFlowAnalysis::analyze(&diamond());
    assert_eq!(a.cfg.edges().len(), 5);
    assert_eq!(a.post_dominator_tree.immediate_postdominator(b(1)), Some(b(3)));
    assert_eq!(a.cdg.edges().len(), 2);
}

#[test]
fn edge_listings_of_diamond() {
    let cfg = ControlFlowGraph::build(&diamond());
    let pdt = PostDominatorTree::compute(&cfg);
    let cdg = ControlDependenceGraph::build(&cfg, &pdt);
    assert_eq!(
        cfg_to_string(&cfg),
        "CFG Edges:\n  bb0 -> bb1 [SwitchInt(Some(0))]\n  bb0 -> bb2 [SwitchInt(None)]\n  bb1 -> bb3 [Goto]\n  bb2 -> bb3 [Goto]\n  bb3 -> EXIT [Return]\n"
    );
    assert_eq!(
        cdg_to_string(&cdg),
        "CDG Edges (dependent <- controller):\n  bb1 <- bb0 [SwitchInt(Some(0))]\n  bb2 <- bb0 [SwitchInt(None)]\n"
    );
}

#[test]
fn dot_renderings_of_diamond() {
    let cfg = ControlFlowGraph::build(&diamond());
    let pdt = PostDominatorTree::compute(&cfg);
    let cdg = ControlDependenceGraph::build(&cfg, &pdt);
    let dot = cfg_to_dot(&cfg);
    assert!(dot.starts_with("digraph CFG {\n"));
    assert!(dot.contains("    bb0 -> bb1 [label=\"switch\", color=blue];\n"));
    assert!(dot.contains("    bb0 -> bb2 [label=\"otherwise\", color=blue];\n"));
    assert!(dot.contains("    bb3 -> EXIT [label=\"return\", color=darkgreen];\n"));
    assert!(dot.ends_with("}\n"));
    let p = pdt_to_dot(&pdt, &cfg);
    assert!(p.starts_with("digraph PostDominatorTree {\n"));
    assert!(p.contains("    bb2 -> bb3;\n"));
    assert!(p.contains("    bb3 -> EXIT;\n"));
    assert!(!p.contains("    EXIT -> "));
    let c = cdg_to_dot(&cdg, &cfg);
    assert!(c.contains("    bb0 -> bb1 [label=\"val=0\", style=dashed, color=red];\n"));
    assert!(c.contains("    bb0 -> bb2 [label=\"otherwise\", style=dashed, color=red];\n"));
    let both = combined_cfg_cdg_to_dot(&cfg, &cdg);
    assert!(both.contains("    bb1 -> bb3 [color=black];\n"));
    assert!(both.contains("    bb0 -> bb2 [style=dashed, color=red, constraint=false];\n"));
}

#[test]
fn printed_reports_of_diamond() {
    let a = ControlFlowAnalysis::analyze(&diamond());
    let r = print_cfg(&a.cfg);
    assert!(r.starts_with("=== Control Flow Graph ===\nNodes: [\"bb0\", \"bb1\", \"bb2\", \"bb3\", \"EXIT\"]\n\nEdges:\n"));
    assert!(r.ends_with("  bb3 -> EXIT [Return]\n\n"));
    let adj = print_cfg_adjacency(&a.cfg);
    assert_eq!(
        adj,
        "=== CFG Adjacency List ===\n  bb0 -> [bb1(SwitchInt(Some(0))), bb2(SwitchInt(None))]\n  bb1 -> [bb3(Goto)]\n  bb2 -> [bb3(Goto)]\n  bb3 -> [EXIT(Return)]\n  EXIT -> []\n\n"
    );
    let pd = print_post_dominators(&a.post_dominator_tree);
    assert_eq!(
        pd,
        "=== Post-Dominator Analysis ===\n\nImmediate Post-Dominators:\n  ipdom(bb0) = bb3\n  ipdom(bb1) = bb3\n  ipdom(bb2) = bb3\n  ipdom(bb3) = EXIT\n  ipdom(EXIT) = None\n\nPost-Dominator Tree (parent -> children):\n  bb3 -> [bb0, bb1, bb2]\n  EXIT -> [bb3]\n\n"
    );
    let c = print_cdg(&a.cdg);
    assert_eq!(
        c,
        "=== Control Dependence Graph ===\n(dependent is control-dependent on controller)\n\n  bb0 --[SwitchInt(Some(0))]--> bb1 is control-dependent on bb0\n  bb0 --[SwitchInt(None)]--> bb2 is control-dependent on bb0\n\n"
    );
    let d = print_cdg_dependences(&a.cdg, &a.cfg);
    assert_eq!(
        d,
        "=== Control Dependences (node -> controllers) ===\n  bb1 depends on: [bb0(SwitchInt(Some(0)))]\n  bb2 depends on: [bb0(SwitchInt(None))]\n\n"
    );
    let all = print_analysis(&a);
    assert_eq!(all, format!("{}{}{}{}{}", r, adj, pd, c, d));
}

#[test]
fn cfg_node_from_block() {
    assert_eq!(CfgNode::from_block(7), CfgNode::Block(7));
    assert_eq!(CfgNode::Block(12).to_string(), "bb12");
}

#[test]
fn predecessors_are_the_entering_edges_in_edge_order() {
    let cfg = ControlFlowGraph::build(&diamond());
    for n in cfg.nodes().to_vec() {
        let entering: Vec<(CfgNode, EdgeKind)> =
            cfg.edges().iter().filter(|e| e.to == n).map(|e| (e.from, e.kind)).collect();
        assert_eq!(cfg.predecessors(n), entering);
    }
}

#[test]
fn control_dependence_edges_are_distinct() {
    let a = ControlFlowAnalysis::analyze(&diamond());
    let es = a.cdg.edges();
    for i in 0..es.len() {
        for j in 0..i {
            assert_ne!(es[i], es[j]);
        }
    }
}

#[test]
fn node_names_are_distinct() {
    let names: Vec<String> = vec![b(0), b(1), b(10), b(11), b(101), CfgNode::Exit].iter().map(|n| n.to_string()).collect();
    for i in 0..names.len() {
        for j in 0..i {
            assert_ne!(names[i], names[j]);
        }
    }
}

#[test]
fn post_dominance_is_ordered_along_a_chain() {
    let cfg = ControlFlowGraph::build(&diamond());
    let pdt = PostDominatorTree::compute(&cfg);
    assert!(pdt.postdominates(CfgNode::Exit, b(0)));
    assert!(pdt.postdominates(b(3), b(0)) && pdt.postdominates(CfgNode::Exit, b(3)));
    assert!(!pdt.postdominates(b(0), b(3)));
}

/// bb0 switches to bb1, which spins forever, or bb2 -> bb3 -> return. A
/// block without a way out gets EXIT as its immediate post-dominator, not
/// the largest of the smaller sets (bb0's).
#[test]
fn a_block_without_a_way_out_has_exit_as_immediate_post_dominator() {
    let body = Body {
        basic_blocks: vec![
            block(TerminatorKind::SwitchInt { discr: Operand::Copy(place(1)), targets: vec![(0, 1)], otherwise: 2 }),
            block(TerminatorKind::Goto { target: 1 }),
            block(TerminatorKind::Goto { target: 3 }),
            block(TerminatorKind::Return),
        ],
        arg_count: 1, local_tys: vec![]
    };
    let cfg = ControlFlowGraph::build(&body);
    let pdt = PostDominatorTree::compute(&cfg);
    assert_eq!(pdt.postdominators(b(0)), Some(vec![b(0), b(2), b(3), CfgNode::Exit]));
    assert_eq!(pdt.postdominators(b(1)), Some(vec![b(0), b(1), b(2), b(3), CfgNode::Exit]));
    assert_eq!(pdt.immediate_postdominator(b(1)), Some(CfgNode::Exit));
    assert_eq!(pdt.immediate_postdominator(b(0)), Some(b(2)));
    assert_eq!(pdt.children(CfgNode::Exit), vec![b(1), b(3)]);
}

/// On the diamond followed by a chain, the dependences are those of the
/// classic definition: bb1 and bb2 each depend on the branch at bb0 through
/// their own edge, and nothing else depends on anything.
#[test]
fn control_dependences_follow_the_classic_definition() {
    let body = Body {
        basic_blocks: vec![
            block(TerminatorKind::SwitchInt { discr: Operand::Copy(place(1)), targets: vec![(0, 1)], otherwise: 2 }),
            block(TerminatorKind::Goto { target: 3 }),
            block(TerminatorKind::Goto { target: 3 }),
            block(TerminatorKind::Goto { target: 4 }),
            block(TerminatorKind::Return),
        ],
        arg_count: 1, local_tys: vec![]
    };
    let a = ControlFlowAnalysis::analyze(&body);
    let edges: Vec<(CfgNode, CfgNode, EdgeKind)> = a.cdg.edges().iter().map(|e| (e.controller, e.dependent, e.label)).collect();
    assert_eq!(edges, vec![(b(0), b(1), EdgeKind::SwitchInt(Some(0))), (b(0), b(2), EdgeKind::SwitchInt(None))]);
    // the only controller is a branch
    assert!(a.cfg.is_branch(b(0)));
}

#[test]
fn summary_of_diamond() {
    let a = ControlFlowAnalysis::analyze(&diamond());
    let expected = [
        "Control Flow Analysis for: app::f\n",
        "========================================\n\n",
        "Basic Blocks: 4\n",
        "CFG Edges: 5\n",
        "CDG Edges: 2\n\n",
        "CFG Edges:\n",
        "  bb0 -> bb1 [SwitchInt(Some(0))]\n",
        "  bb0 -> bb2 [SwitchInt(None)]\n",
        "  bb1 -> bb3 [Goto]\n",
        "  bb2 -> bb3 [Goto]\n",
        "  bb3 -> EXIT [Return]\n",
        "\nImmediate Post-Dominators:\n",
        "  ipdom(bb0) = bb3\n",
        "  ipdom(bb1) = bb3\n",
        "  ipdom(bb2) = bb3\n",
        "  ipdom(bb3) = EXIT\n",
        "  ipdom(EXIT) = None\n",
        "\nControl Dependence Edges:\n",
        "  bb1 is control-dependent on bb0 [SwitchInt(Some(0))]\n",
        "  bb2 is control-dependent on bb0 [SwitchInt(None)]\n",
    ]
    .concat();
    assert_eq!(analysis_summary("app::f", &a), expected);
}
