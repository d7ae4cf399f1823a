use j2_passes::axpy_rewrite::try_transform_slice_axpy_f64;
use j2_passes::idioms::ScalarTy;
use j2_passes::loop_idioms::{try_transform_slice_elemwise_write_f64, try_transform_slice_scale_f64, LoopIdiomGates};
use j2_passes::mir::{
    BasicBlockData, BinOp, Body, BorrowKind, Const, LocalTy, Operand, Place, ProjectionElem, Rvalue, StatementKind,
    TerminatorKind, UnOp, UnwindAction,
};
use j2_passes::nested_idioms::try_transform_slice_matvec_f64;
use j2_passes::purity::{CalleeFacts, CalleePurity};
use j2_passes::reduce_rewrite::try_transform_reductions;

fn place(l: usize) -> Place {
    Place { local: l, projection: vec![] }
}

fn copy(l: usize) -> Operand {
    Operand::Copy(place(l))
}

fn at_i(l: usize, i: usize) -> Place {
    Place { local: l, projection: vec![ProjectionElem::Deref, ProjectionElem::Index(i)] }
}

fn blk(stmts: Vec<StatementKind>, t: TerminatorKind) -> BasicBlockData {
    BasicBlockData { statements: stmts, terminator: Some(t) }
}

/// `for i in range { work }` with the loop's work in block 3, exit block 4.
/// Locals: `_1: &mut [f64]`, `_2`, `_3: &[f64]`, `_4: f64`.
fn range_body(mut work: Vec<StatementKind>) -> Body {
    let mut tys = vec![LocalTy::Other; 12];
    tys[1] = LocalTy::RefSlice { elem: ScalarTy::F64, mutable: true };
    tys[2] = LocalTy::RefSlice { elem: ScalarTy::F64, mutable: false };
    tys[3] = LocalTy::RefSlice { elem: ScalarTy::F64, mutable: false };
    tys[4] = LocalTy::Scalar(ScalarTy::F64);
    work.insert(
        0,
        StatementKind::Assign(
            place(8),
            Rvalue::Use(Operand::Copy(Place { local: 6, projection: vec![ProjectionElem::Downcast(1), ProjectionElem::Field(0)] })),
        ),
    );
    Body {
        basic_blocks: vec![
            blk(vec![], TerminatorKind::Goto { target: 1 }),
            blk(vec![], TerminatorKind::Call {
                func: Operand::Constant(Const::FnDef { path: "core::iter::range::<impl Iterator for Range<usize>>::next".to_string() }),
                args: vec![Operand::Move(place(5))],
                destination: place(6),
                target: Some(2),
                unwind: UnwindAction::Continue,
            }),
            blk(
                vec![StatementKind::Assign(place(7), Rvalue::Discriminant(place(6)))],
                TerminatorKind::SwitchInt { discr: Operand::Move(place(7)), targets: vec![(0, 4), (1, 3)], otherwise: 5 },
            ),
            blk(work, TerminatorKind::Goto { target: 1 }),
            blk(vec![], TerminatorKind::Return),
            blk(vec![], TerminatorKind::Unreachable),
        ],
        arg_count: 4,
        local_tys: tys,
    }
}

fn gates(helpers: &[&str]) -> LoopIdiomGates {
    LoopIdiomGates {
        enabled: true,
        crate_name: "app".to_string(),
        fn_name: "app::kernel".to_string(),
        inline_always_or_naked: false,
        float_opt_in: true,
        available_helpers: helpers.iter().map(|s| s.to_string()).collect(),
    }
}

fn scale_body() -> Body {
    range_body(vec![StatementKind::Assign(at_i(1, 8), Rvalue::BinaryOp(BinOp::Mul, Operand::Copy(at_i(1, 8)), copy(4)))])
}

#[test]
fn a_scale_loop_becomes_one_helper_call() {
    let mut body = scale_body();
    let n = try_transform_slice_scale_f64(&mut body, &gates(&["parallel_runtime_parallel_scale_f64"]));
    assert_eq!(n, 1);
    assert_eq!(body.basic_blocks.len(), 7);
    assert_eq!(body.local_tys.len(), 14);
    match &body.basic_blocks[0].terminator {
        Some(TerminatorKind::Goto { target }) => assert_eq!(*target, 6),
        other => panic!("entry block ends in {:?}", other),
    }
    let new = &body.basic_blocks[6];
    match &new.statements[0] {
        StatementKind::Assign(p, Rvalue::Ref(BorrowKind::Mut, q)) => {
            assert_eq!(p.local, 12);
            assert_eq!(q.local, 1);
            assert_eq!(q.projection, vec![ProjectionElem::Deref]);
        },
        other => panic!("unexpected statement {:?}", other),
    }
    match &new.terminator {
        Some(TerminatorKind::Call { func: Operand::Constant(Const::FnDef { path }), args, destination, target, unwind }) => {
            assert_eq!(path, "parallel_runtime_parallel_scale_f64");
            assert_eq!(args.len(), 2);
            assert!(matches!(&args[0], Operand::Move(p) if p.local == 12 && p.projection.is_empty()));
            assert!(matches!(&args[1], Operand::Copy(p) if p.local == 4 && p.projection.is_empty()));
            assert_eq!(destination.local, 13);
            assert_eq!(*target, Some(4));
            assert_eq!(*unwind, UnwindAction::Unreachable);
        },
        other => panic!("unexpected terminator {:?}", other),
    }
}

#[test]
fn a_scale_loop_without_its_helper_is_left_alone() {
    let mut body = scale_body();
    let n = try_transform_slice_scale_f64(&mut body, &gates(&[]));
    assert_eq!(n, 0);
    assert_eq!(body.basic_blocks.len(), 6);
    assert_eq!(body.local_tys.len(), 12);
}

#[test]
fn the_runtime_itself_is_not_rewritten() {
    let mut body = scale_body();
    let mut g = gates(&["parallel_runtime_parallel_scale_f64"]);
    g.fn_name = "parallel_runtime::parallel_scale_f64".to_string();
    assert_eq!(try_transform_slice_scale_f64(&mut body, &g), 0);
    assert_eq!(body.basic_blocks.len(), 6);
}

#[test]
fn a_fill_without_its_helper_only_adds_a_local() {
    let mut body = range_body(vec![StatementKind::Assign(at_i(1, 8), Rvalue::Use(copy(4)))]);
    let n = try_transform_slice_elemwise_write_f64(&mut body, &gates(&[]));
    assert_eq!(n, 0);
    assert_eq!(body.basic_blocks.len(), 6);
    assert_eq!(body.local_tys.len(), 13);
}

#[test]
fn a_fill_with_a_runtime_value_calls_the_fill_helper() {
    let mut body = range_body(vec![StatementKind::Assign(at_i(1, 8), Rvalue::Use(copy(4)))]);
    let n = try_transform_slice_elemwise_write_f64(&mut body, &gates(&["parallel_runtime_parallel_fill_f64"]));
    assert_eq!(n, 1);
    match &body.basic_blocks[6].terminator {
        Some(TerminatorKind::Call { func: Operand::Constant(Const::FnDef { path }), args, .. }) => {
            assert_eq!(path, "parallel_runtime_parallel_fill_f64");
            assert!(matches!(&args[1], Operand::Copy(p) if p.local == 4));
        },
        other => panic!("unexpected terminator {:?}", other),
    }
}

fn axpy_body(op: BinOp) -> Body {
    let mut body = range_body(vec![
        StatementKind::Assign(place(9), Rvalue::Use(Operand::Copy(at_i(3, 8)))),
        StatementKind::Assign(place(10), Rvalue::BinaryOp(BinOp::Mul, copy(4), copy(9))),
        StatementKind::Assign(at_i(1, 8), Rvalue::BinaryOp(op, Operand::Copy(at_i(1, 8)), copy(10))),
    ]);
    body.local_tys[4] = LocalTy::Scalar(ScalarTy::F64);
    body
}

#[test]
fn a_subtracting_axpy_negates_its_factor() {
    let mut body = axpy_body(BinOp::Sub);
    let n = try_transform_slice_axpy_f64(&mut body, &gates(&["parallel_runtime_parallel_axpy_f64"]));
    assert_eq!(n, 1);
    let new = &body.basic_blocks[6];
    assert_eq!(new.statements.len(), 2);
    match &new.statements[1] {
        StatementKind::Assign(p, Rvalue::UnaryOp(UnOp::Neg, o)) => {
            assert_eq!(p.local, 13);
            assert!(matches!(o, Operand::Copy(q) if q.local == 4));
        },
        other => panic!("unexpected statement {:?}", other),
    }
    match &new.terminator {
        Some(TerminatorKind::Call { args, .. }) => {
            assert!(matches!(&args[1], Operand::Copy(p) if p.local == 3));
            assert!(matches!(&args[2], Operand::Move(p) if p.local == 13));
        },
        other => panic!("unexpected terminator {:?}", other),
    }
}

#[test]
fn an_axpy_needs_the_float_opt_in() {
    let mut body = axpy_body(BinOp::Add);
    let mut g = gates(&["parallel_runtime_parallel_axpy_f64"]);
    g.float_opt_in = false;
    assert_eq!(try_transform_slice_axpy_f64(&mut body, &g), 0);
    assert_eq!(body.basic_blocks.len(), 6);
}

#[test]
fn a_matvec_rewrite_leaves_a_body_without_nested_loops_alone() {
    let mut body = scale_body();
    let n = try_transform_slice_matvec_f64(&mut body, &gates(&["parallel_runtime_parallel_matvec_f64"]));
    assert_eq!(n, 0);
    assert_eq!(body.basic_blocks.len(), 6);
}

#[test]
fn reductions_need_the_runtime_sum_helper() {
    let mut body = scale_body();
    let callees: Vec<CalleePurity> = (0..6)
        .map(|_| CalleePurity {
            facts: CalleeFacts {
                path: "app::f".to_string(),
                is_caller_body: false,
                in_progress: false,
                has_problematic_regions: false,
                calls_proc_macro: false,
                is_local: true,
            },
            mir: None,
        })
        .collect();
    let n = try_transform_reductions(&mut body, &gates(&[]), false, &vec![None; 6], &callees);
    assert_eq!(n, 0);
    assert_eq!(body.basic_blocks.len(), 6);
}
