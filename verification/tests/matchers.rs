use j2_passes::detect::SimpleLoop;
use j2_passes::gates::{is_in_sysroot_crate, is_runtime_fn_name, is_trivial_callee, invoke_costs_ok, parallel_pass_quick_skip};
use j2_passes::invoke::{find_invoke_chains, find_invoke_pairs, parallel_invoke_chains, parallel_invoke_pairs, CalleeInfo};
use j2_passes::mir::{AggregateKind, BasicBlockData, BinOp, Body, Const, Operand, Place, ProjectionElem, Rvalue, StatementKind, TerminatorKind, UnwindAction};
use j2_passes::shape::{detect_range_loop_shape, loop_alias_map, rvalue_reads_local, walk_passthrough_blocks, LoopShape};
use std::collections::BTreeMap;

fn place(l: usize) -> Place {
    Place { local: l, projection: vec![] }
}

fn copy(l: usize) -> Operand {
    Operand::Copy(place(l))
}

fn assign(l: usize, rv: Rvalue) -> StatementKind {
    StatementKind::Assign(place(l), rv)
}

fn call(path: &str, arg: usize, dest: usize, target: usize) -> TerminatorKind {
    TerminatorKind::Call {
        func: Operand::Constant(Const::FnDef { path: path.to_string() }),
        args: vec![copy(arg)],
        destination: place(dest),
        target: Some(target),
        unwind: UnwindAction::Continue,
    }
}

fn blk(stmts: Vec<StatementKind>, t: TerminatorKind) -> BasicBlockData {
    BasicBlockData { statements: stmts, terminator: Some(t) }
}

fn good_info(cost: usize) -> CalleeInfo {
    CalleeInfo {
        is_local: true,
        in_sysroot: false,
        sig_inputs: 1,
        output_matches_dest: true,
        dest_ty_identical: true,
        invoke_pure: true,
        cost,
    }
}

#[test]
fn reads_of_a_local() {
    assert!(rvalue_reads_local(&Rvalue::Use(copy(3)), 3));
    assert!(rvalue_reads_local(&Rvalue::Use(Operand::Copy(Place { local: 3, projection: vec![ProjectionElem::Field(1)] })), 3));
    assert!(rvalue_reads_local(&Rvalue::BinaryOp(BinOp::Add, copy(1), copy(3)), 3));
    assert!(rvalue_reads_local(&Rvalue::Aggregate(AggregateKind::Other, vec![copy(1), copy(3)]), 3));
    assert!(rvalue_reads_local(&Rvalue::Discriminant(place(3)), 3));
    assert!(!rvalue_reads_local(&Rvalue::ShallowInitBox(copy(3)), 3));
    assert!(!rvalue_reads_local(&Rvalue::Use(copy(4)), 3));
}

#[test]
fn passthrough_blocks_are_walked() {
    let body = Body {
        basic_blocks: vec![
            blk(vec![StatementKind::StorageLive(1)], TerminatorKind::Goto { target: 1 }),
            blk(vec![assign(5, Rvalue::Use(copy(6)))], TerminatorKind::Goto { target: 2 }),
            blk(vec![], TerminatorKind::Return),
        ],
        arg_count: 0, local_tys: vec![]
    };
    let mut seen = vec![];
    assert_eq!(walk_passthrough_blocks(&body, 0, 9, None, 8, &mut seen), Some(2));
    assert_eq!(seen, vec![0, 1]);
    let mut seen = vec![];
    assert_eq!(walk_passthrough_blocks(&body, 0, 6, None, 8, &mut seen), None);
    assert_eq!(seen, vec![0]);
    let mut seen = vec![];
    assert_eq!(walk_passthrough_blocks(&body, 0, 9, Some(5), 8, &mut seen), None);
    let mut seen = vec![];
    assert_eq!(walk_passthrough_blocks(&body, 0, 9, None, 1, &mut seen), None);
    assert_eq!(seen, vec![0]);
}

/// bb0: goto bb1
/// bb1: _6 = <Range as Iterator>::next(move _5) -> bb2
/// bb2: _7 = discriminant(_6); switch _7 [0 -> bb4, 1 -> bb3, otherwise bb5]
/// bb3: _8 = copy ((_6 as Some).0); _9 = copy _8; _10 = &(*_9); goto bb1
/// bb4: return
fn range_loop() -> Body {
    Body {
        basic_blocks: vec![
            blk(vec![assign(11, Rvalue::Use(copy(1)))], TerminatorKind::Goto { target: 1 }),
            blk(vec![], TerminatorKind::Call {
                func: Operand::Constant(Const::FnDef { path: "core::iter::range::<impl Iterator for Range<usize>>::next".to_string() }),
                args: vec![Operand::Move(place(5))],
                destination: place(6),
                target: Some(2),
                unwind: UnwindAction::Continue,
            }),
            blk(
                vec![assign(7, Rvalue::Discriminant(place(6)))],
                TerminatorKind::SwitchInt { discr: Operand::Move(place(7)), targets: vec![(0, 4), (1, 3)], otherwise: 5 },
            ),
            blk(
                vec![
                    assign(8, Rvalue::Use(Operand::Copy(Place { local: 6, projection: vec![ProjectionElem::Downcast(1), ProjectionElem::Field(0)] }))),
                    assign(9, Rvalue::Use(copy(8))),
                    assign(10, Rvalue::Ref(j2_passes::mir::BorrowKind::Shared, Place { local: 9, projection: vec![ProjectionElem::Deref] })),
                ],
                TerminatorKind::Goto { target: 1 },
            ),
            blk(vec![], TerminatorKind::Return),
            blk(vec![], TerminatorKind::Unreachable),
        ],
        arg_count: 1, local_tys: vec![]
    }
}

#[test]
fn the_shape_of_a_range_loop() {
    let body = range_loop();
    let lp = SimpleLoop { header: 1, body: vec![1, 2, 3] };
    let shape = detect_range_loop_shape(&body, &lp).expect("a range loop");
    assert_eq!(shape.entry_bb, 0);
    assert_eq!(shape.exit_bb, 4);
    assert_eq!(shape.i_root, 8);
    assert!(shape.same_as_i(9));
    assert!(shape.same_as_i(10));
    assert!(!shape.same_as_i(11));
    let mut expected = BTreeMap::new();
    expected.insert(9, 8);
    expected.insert(10, 9);
    expected.insert(11, 1);
    assert_eq!(shape.alias_root, expected);
    assert_eq!(loop_alias_map(&body, &lp), expected);
    assert_eq!(LoopShape::resolve(&expected, 10), 8);
}

#[test]
fn a_loop_entered_twice_has_no_shape() {
    let mut body = range_loop();
    body.basic_blocks[4].terminator = Some(TerminatorKind::Goto { target: 1 });
    let lp = SimpleLoop { header: 1, body: vec![1, 2, 3] };
    assert!(detect_range_loop_shape(&body, &lp).is_none());
}

#[test]
fn a_header_not_calling_next_has_no_shape() {
    let mut body = range_loop();
    body.basic_blocks[1].terminator = Some(call("core::iter::Iterator::nth", 5, 6, 2));
    let lp = SimpleLoop { header: 1, body: vec![1, 2, 3] };
    assert!(detect_range_loop_shape(&body, &lp).is_none());
}

#[test]
fn gates() {
    assert!(is_in_sysroot_crate("core"));
    assert!(is_in_sysroot_crate("hashbrown"));
    assert!(!is_in_sysroot_crate("my_crate"));
    assert!(is_runtime_fn_name("parallel_runtime::helpers::go", false));
    assert!(!is_runtime_fn_name("app::parallel_invoke_me", false));
    assert!(is_runtime_fn_name("app::parallel_invoke_me", true));
    assert!(is_trivial_callee("core::num::foo", false));
    assert!(is_trivial_callee("my::u32::wrapping_add", false));
    assert!(is_trivial_callee("my::Ord::max", false));
    assert!(!is_trivial_callee("my::work", false));
    assert!(is_trivial_callee("my::parallel_reduce_sum", true));
    assert!(!is_trivial_callee("my::parallel_reduce_sum", false));
    assert!(invoke_costs_ok(&vec![30, 300]));
    assert!(!invoke_costs_ok(&vec![30, 301]));
    assert!(!invoke_costs_ok(&vec![29, 100]));
    assert!(invoke_costs_ok(&vec![usize::MAX, usize::MAX / 10 + 1]));
    let body = Body { basic_blocks: vec![blk(vec![], TerminatorKind::Return)], arg_count: 0, local_tys: vec![] };
    assert!(parallel_pass_quick_skip(&body, 2, false, false));
    assert!(!parallel_pass_quick_skip(&body, 1, false, false));
    assert!(parallel_pass_quick_skip(&body, 1, true, false));
    assert!(parallel_pass_quick_skip(&body, 1, false, true));
}

/// bb0: _2 = work_a(_1) -> bb1; bb1: StorageLive(_3); goto bb2;
/// bb2: _3 = work_b(_1) -> bb3; bb3: return
fn two_calls() -> Body {
    Body {
        basic_blocks: vec![
            blk(vec![], call("app::work_a", 1, 2, 1)),
            blk(vec![StatementKind::StorageLive(3)], TerminatorKind::Goto { target: 2 }),
            blk(vec![], call("app::work_b", 1, 3, 3)),
            blk(vec![], TerminatorKind::Return),
        ],
        arg_count: 1, local_tys: vec![]
    }
}

#[test]
fn a_pair_of_independent_calls() {
    let body = two_calls();
    let infos = vec![good_info(100); 4];
    let helpers = vec![true; 5];
    let pairs = find_invoke_pairs(&body, &infos, &helpers);
    assert_eq!(pairs.len(), 1);
    let p = &pairs[0];
    assert_eq!((p.bb_a, p.bb_b, p.bb_c, p.arity, p.a_local, p.b_local), (0, 2, 3, 1, 2, 3));
    assert_eq!(p.passthrough, vec![1]);
    assert_eq!(parallel_invoke_pairs(&body, true, "app", "app::main", false, &infos, &helpers).len(), 1);
    assert!(parallel_invoke_pairs(&body, false, "app", "app::main", false, &infos, &helpers).is_empty());
    assert!(parallel_invoke_pairs(&body, true, "std", "app::main", false, &infos, &helpers).is_empty());
    assert!(parallel_invoke_pairs(&body, true, "app", "app::parallel_invoke_x", false, &infos, &helpers).is_empty());
}

#[test]
fn dependent_or_unbalanced_calls_are_not_paired() {
    let mut body = two_calls();
    // the second call reads the first one's result
    body.basic_blocks[2].terminator = Some(call("app::work_b", 2, 3, 3));
    let infos = vec![good_info(100); 4];
    assert!(find_invoke_pairs(&body, &infos, &vec![true; 5]).is_empty());
    let body = two_calls();
    let mut infos = vec![good_info(100); 4];
    infos[2].cost = 1001;
    assert!(find_invoke_pairs(&body, &infos, &vec![true; 5]).is_empty());
    infos[2].cost = 20;
    assert!(find_invoke_pairs(&body, &infos, &vec![true; 5]).is_empty());
    let infos = vec![good_info(100); 4];
    assert!(find_invoke_pairs(&body, &infos, &vec![true, false, true, true, true]).is_empty());
}

/// Three calls in a row: _2 = a(_1) -> bb1; _3 = b(_1) -> bb2; _4 = c(_1) -> bb3; return.
fn three_calls() -> Body {
    Body {
        basic_blocks: vec![
            blk(vec![], call("app::a", 1, 2, 1)),
            blk(vec![], call("app::b", 1, 3, 2)),
            blk(vec![], call("app::c", 1, 4, 3)),
            blk(vec![], TerminatorKind::Return),
        ],
        arg_count: 1, local_tys: vec![]
    }
}

fn helpers_for(n: usize, m: usize) -> Vec<Vec<bool>> {
    let mut h = vec![vec![false; 21]; 14];
    h[n - 3][m] = true;
    h
}

#[test]
fn a_chain_of_three_calls() {
    let body = three_calls();
    let infos = vec![good_info(100); 4];
    let chains = find_invoke_chains(&body, &infos, &helpers_for(3, 1));
    assert_eq!(chains.len(), 1);
    let c = &chains[0];
    assert_eq!((c.bb_a, c.bb_after, c.n_calls, c.arity), (0, 3, 3, 1));
    assert_eq!(c.dest_locals, vec![2, 3, 4]);
    assert_eq!(c.intermediate, vec![1, 2]);
    // no helper for three calls of arity one
    assert!(find_invoke_chains(&body, &infos, &helpers_for(3, 2)).is_empty());
    assert_eq!(parallel_invoke_chains(&body, true, "app", "app::main", false, &infos, &helpers_for(3, 1)).len(), 1);
    assert!(parallel_invoke_chains(&body, true, "app", "app::main", true, &infos, &helpers_for(3, 1)).is_empty());
}

#[test]
fn a_chain_of_four_calls_uses_the_four_way_helper() {
    let body = Body {
        basic_blocks: vec![
            blk(vec![], call("app::a", 1, 2, 1)),
            blk(vec![], call("app::b", 1, 3, 2)),
            blk(vec![], call("app::c", 1, 4, 3)),
            blk(vec![], call("app::d", 1, 5, 4)),
            blk(vec![], TerminatorKind::Return),
        ],
        arg_count: 1, local_tys: vec![]
    };
    let infos = vec![good_info(100); 5];
    let chains = find_invoke_chains(&body, &infos, &helpers_for(4, 1));
    assert_eq!(chains.len(), 1);
    let c = &chains[0];
    assert_eq!((c.bb_a, c.bb_after, c.n_calls, c.arity), (0, 4, 4, 1));
    assert_eq!(c.dest_locals, vec![2, 3, 4, 5]);
    assert_eq!(c.intermediate, vec![1, 2, 3]);
}
