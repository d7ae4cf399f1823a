use j2_passes::fork::{try_transform_parallel_invoke, try_transform_parallel_invoke_n_way};
use j2_passes::invoke::CalleeInfo;
use j2_passes::mir::{
    BasicBlockData, Body, Const, LocalTy, Operand, Place, ProjectionElem, Rvalue, StatementKind, TerminatorKind,
    UnwindAction,
};

fn place(l: usize) -> Place {
    Place { local: l, projection: vec![] }
}

fn call(path: &str, arg: usize, dest: usize, target: usize) -> TerminatorKind {
    TerminatorKind::Call {
        func: Operand::Constant(Const::FnDef { path: path.to_string() }),
        args: vec![Operand::Copy(place(arg))],
        destination: place(dest),
        target: Some(target),
        unwind: UnwindAction::Continue,
    }
}

fn blk(stmts: Vec<StatementKind>, t: TerminatorKind) -> BasicBlockData {
    BasicBlockData { statements: stmts, terminator: Some(t) }
}

fn good_info(cost: usize) -> CalleeInfo {
    CalleeInfo {
        is_local: true,
        in_sysroot: false,
        sig_inputs: 1,
        output_matches_dest: true,
        dest_ty_identical: true,
        invoke_pure: true,
        cost,
    }
}

fn helpers_for(n: usize, m: usize) -> Vec<Vec<bool>> {
    let mut h = vec![vec![false; 21]; 14];
    h[n - 3][m] = true;
    h
}

/// bb0: _2 = work_a(_1) -> bb1; bb1: StorageLive(_3); goto bb2;
/// bb2: _3 = work_b(_1) -> bb3; bb3: return
fn two_calls() -> Body {
    Body {
        basic_blocks: vec![
            blk(vec![], call("app::work_a", 1, 2, 1)),
            blk(vec![StatementKind::StorageLive(3)], TerminatorKind::Goto { target: 2 }),
            blk(vec![], call("app::work_b", 1, 3, 3)),
            blk(vec![], TerminatorKind::Return),
        ],
        arg_count: 1,
        local_tys: vec![LocalTy::Other; 4],
    }
}

fn is_cast_of(s: &StatementKind, local: usize, path: &str) -> bool {
    match s {
        StatementKind::Assign(p, Rvalue::Cast(Operand::Constant(Const::FnDef { path: q }))) => {
            p.local == local && p.projection.is_empty() && q == path
        }
        _ => false,
    }
}

fn is_move_of(o: &Operand, local: usize) -> bool {
    matches!(o, Operand::Move(p) if p.local == local && p.projection.is_empty())
}

fn is_copy_of(o: &Operand, local: usize) -> bool {
    matches!(o, Operand::Copy(p) if p.local == local && p.projection.is_empty())
}

fn is_unpack(s: &StatementKind, dest: usize, tuple: usize, field: usize) -> bool {
    match s {
        StatementKind::Assign(d, Rvalue::Use(Operand::Move(p))) => {
            d.local == dest
                && d.projection.is_empty()
                && p.local == tuple
                && p.projection.len() == 1
                && matches!(p.projection[0], ProjectionElem::Field(f) if f == field)
        }
        _ => false,
    }
}

#[test]
fn a_pair_is_forked_through_the_two_way_helper() {
    let mut body = two_calls();
    let infos = vec![good_info(100); 4];
    let helpers = vec![true; 5];
    let n = try_transform_parallel_invoke(&mut body, true, "app", "app::main", false, &infos, &helpers);
    assert_eq!(n, 1);
    // a tuple local and two function-pointer locals
    assert_eq!(body.local_tys.len(), 7);
    assert_eq!(body.basic_blocks.len(), 5);
    let b0 = &body.basic_blocks[0];
    assert_eq!(b0.statements.len(), 3);
    assert!(matches!(b0.statements[0], StatementKind::StorageLive(3)));
    assert!(is_cast_of(&b0.statements[1], 5, "app::work_a"));
    assert!(is_cast_of(&b0.statements[2], 6, "app::work_b"));
    match &b0.terminator {
        Some(TerminatorKind::Call { func, args, destination, target, unwind }) => {
            assert!(matches!(func, Operand::Constant(Const::FnDef { path }) if path == "parallel_runtime_parallel_invoke_2_fn1"));
            assert_eq!(args.len(), 4);
            assert!(is_move_of(&args[0], 5));
            assert!(is_copy_of(&args[1], 1));
            assert!(is_move_of(&args[2], 6));
            assert!(is_copy_of(&args[3], 1));
            assert_eq!(destination.local, 4);
            assert!(destination.projection.is_empty());
            assert_eq!(*target, Some(4));
            assert!(matches!(unwind, UnwindAction::Unreachable));
        }
        _ => panic!("the first block must call the helper"),
    }
    let unpack = &body.basic_blocks[4];
    assert_eq!(unpack.statements.len(), 2);
    assert!(is_unpack(&unpack.statements[0], 2, 4, 0));
    assert!(is_unpack(&unpack.statements[1], 3, 4, 1));
    assert!(matches!(unpack.terminator, Some(TerminatorKind::Goto { target: 3 })));
    // the other blocks are left as they were
    assert!(matches!(body.basic_blocks[1].terminator, Some(TerminatorKind::Goto { target: 2 })));
    assert!(matches!(body.basic_blocks[2].terminator, Some(TerminatorKind::Call { .. })));
    assert!(matches!(body.basic_blocks[3].terminator, Some(TerminatorKind::Return)));
}

#[test]
fn a_gated_body_is_left_alone() {
    let infos = vec![good_info(100); 4];
    let helpers = vec![true; 5];
    for (enabled, krate, name) in [(false, "app", "app::main"), (true, "core", "app::main"), (true, "app", "app::parallel_runtime_x")] {
        let mut body = two_calls();
        let n = try_transform_parallel_invoke(&mut body, enabled, krate, name, false, &infos, &helpers);
        assert_eq!(n, 0);
        assert_eq!(body.basic_blocks.len(), 4);
        assert_eq!(body.local_tys.len(), 4);
        assert!(body.basic_blocks[0].statements.is_empty());
    }
    // no helper for one argument: nothing to fork
    let mut body = two_calls();
    let n = try_transform_parallel_invoke(&mut body, true, "app", "app::main", false, &infos, &vec![true, false]);
    assert_eq!(n, 0);
    assert_eq!(body.basic_blocks.len(), 4);
}

/// Three calls in a row: _2 = a(_1) -> bb1; _3 = b(_1) -> bb2; _4 = c(_1) -> bb3; return.
fn three_calls() -> Body {
    Body {
        basic_blocks: vec![
            blk(vec![], call("app::a", 1, 2, 1)),
            blk(vec![StatementKind::Nop], call("app::b", 1, 3, 2)),
            blk(vec![], call("app::c", 1, 4, 3)),
            blk(vec![], TerminatorKind::Return),
        ],
        arg_count: 1,
        local_tys: vec![LocalTy::Other; 5],
    }
}

#[test]
fn a_chain_is_forked_through_the_three_way_helper() {
    let mut body = three_calls();
    let infos = vec![good_info(100); 4];
    let n = try_transform_parallel_invoke_n_way(&mut body, true, "app", "app::main", false, &infos, &helpers_for(3, 1));
    assert_eq!(n, 1);
    assert_eq!(body.local_tys.len(), 9);
    assert_eq!(body.basic_blocks.len(), 5);
    let b0 = &body.basic_blocks[0];
    // the second call's statement moves ahead, then the three casts
    assert_eq!(b0.statements.len(), 4);
    assert!(matches!(b0.statements[0], StatementKind::Nop));
    assert!(is_cast_of(&b0.statements[1], 6, "app::a"));
    assert!(is_cast_of(&b0.statements[2], 7, "app::b"));
    assert!(is_cast_of(&b0.statements[3], 8, "app::c"));
    match &b0.terminator {
        Some(TerminatorKind::Call { func, args, destination, target, .. }) => {
            assert!(matches!(func, Operand::Constant(Const::FnDef { path }) if path == "parallel_runtime_parallel_invoke_3_fn1"));
            assert_eq!(args.len(), 6);
            for k in 0..3 {
                assert!(is_move_of(&args[2 * k], 6 + k));
                assert!(is_copy_of(&args[2 * k + 1], 1));
            }
            assert_eq!(destination.local, 5);
            assert_eq!(*target, Some(4));
        }
        _ => panic!("the first block must call the helper"),
    }
    let unpack = &body.basic_blocks[4];
    for k in 0..3 {
        assert!(is_unpack(&unpack.statements[k], 2 + k, 5, k));
    }
    assert!(matches!(unpack.terminator, Some(TerminatorKind::Goto { target: 3 })));
}

#[test]
fn a_chain_needs_four_blocks_and_a_helper() {
    let infos = vec![good_info(100); 4];
    let mut body = three_calls();
    let n = try_transform_parallel_invoke_n_way(&mut body, true, "app", "app::main", false, &infos, &helpers_for(3, 2));
    assert_eq!(n, 0);
    assert_eq!(body.basic_blocks.len(), 4);
    let mut small = three_calls();
    small.basic_blocks.truncate(3);
    small.basic_blocks[2].terminator = Some(TerminatorKind::Return);
    let n = try_transform_parallel_invoke_n_way(&mut small, true, "app", "app::main", false, &infos[..3].to_vec(), &helpers_for(3, 1));
    assert_eq!(n, 0);
    assert_eq!(small.basic_blocks.len(), 3);
}
