use j2_passes::idioms::ScalarTy;
use j2_passes::loop_idioms::LoopIdiomGates;
use j2_passes::mir::{
    AggregateKind, BasicBlockData, BinOp, Body, Const, LocalTy, Operand, Place, ProjectionElem, Rvalue, StatementKind,
    TerminatorKind, UnwindAction,
};
use j2_passes::outer_dot::{fn_body_looks_like_dot, try_transform_outer_dot_call_matvec_f64, DotCallee};
use j2_passes::reduce_loops::FnSigFacts;

fn place(l: usize) -> Place {
    Place { local: l, projection: vec![] }
}

fn copy(l: usize) -> Operand {
    Operand::Copy(place(l))
}

fn blk(stmts: Vec<StatementKind>, t: TerminatorKind) -> BasicBlockData {
    BasicBlockData { statements: stmts, terminator: Some(t) }
}

fn call(path: &str, args: Vec<Operand>, dest: usize, target: usize) -> TerminatorKind {
    TerminatorKind::Call {
        func: Operand::Constant(Const::FnDef { path: path.to_string() }),
        args,
        destination: place(dest),
        target: Some(target),
        unwind: UnwindAction::Continue,
    }
}

fn range(start: Operand, end: Operand) -> Rvalue {
    Rvalue::Aggregate(AggregateKind::Adt { path: "core::ops::Range".to_string(), first_ty: None }, vec![start, end])
}

/// `for i in 0..m { y[i] = dot(&x[i * d..], w) }`.
fn outer_dot_body() -> Body {
    let mut tys = vec![LocalTy::Other; 15];
    tys[1] = LocalTy::RefSlice { elem: ScalarTy::F64, mutable: true };
    tys[2] = LocalTy::RefSlice { elem: ScalarTy::F64, mutable: false };
    tys[3] = LocalTy::RefSlice { elem: ScalarTy::F64, mutable: false };
    Body {
        basic_blocks: vec![
            blk(vec![StatementKind::Assign(place(14), range(Operand::Constant(Const::Scalar { bits: 0, size_bits: 64 }), copy(13)))], TerminatorKind::Goto { target: 1 }),
            blk(vec![], TerminatorKind::Goto { target: 2 }),
            blk(vec![], call("core::iter::range::<impl Iterator for Range<usize>>::next", vec![Operand::Move(place(5))], 6, 3)),
            blk(
                vec![StatementKind::Assign(place(7), Rvalue::Discriminant(place(6)))],
                TerminatorKind::SwitchInt { discr: Operand::Move(place(7)), targets: vec![(0, 7), (1, 4)], otherwise: 8 },
            ),
            blk(
                vec![
                    StatementKind::Assign(
                        place(8),
                        Rvalue::Use(Operand::Copy(Place { local: 6, projection: vec![ProjectionElem::Downcast(1), ProjectionElem::Field(0)] })),
                    ),
                    StatementKind::Assign(place(9), Rvalue::BinaryOp(BinOp::Mul, copy(8), copy(4))),
                    StatementKind::Assign(place(10), range(copy(9), copy(12))),
                ],
                call("core::slice::index::<impl Index<Range<usize>> for [f64]>::index", vec![copy(2), Operand::Move(place(10))], 11, 5),
            ),
            blk(vec![], call("app::dot", vec![Operand::Move(place(11)), copy(3)], 12, 6)),
            blk(
                vec![StatementKind::Assign(
                    Place { local: 1, projection: vec![ProjectionElem::Deref, ProjectionElem::Index(8)] },
                    Rvalue::Use(Operand::Move(place(12))),
                )],
                TerminatorKind::Goto { target: 2 },
            ),
            blk(vec![], TerminatorKind::Return),
            blk(vec![], TerminatorKind::Unreachable),
        ],
        arg_count: 4,
        local_tys: tys,
    }
}

fn dot_mir() -> Body {
    Body {
        basic_blocks: vec![blk(
            vec![StatementKind::Assign(place(3), Rvalue::BinaryOp(BinOp::Mul, copy(1), copy(2)))],
            TerminatorKind::Return,
        )],
        arg_count: 2,
        local_tys: vec![LocalTy::Other; 4],
    }
}

fn callees(with_dot: bool) -> Vec<DotCallee> {
    (0..9)
        .map(|b| {
            if b == 5 && with_dot {
                DotCallee {
                    is_local: true,
                    sig: Some(FnSigFacts {
                        inputs: vec![
                            LocalTy::RefSlice { elem: ScalarTy::F64, mutable: false },
                            LocalTy::RefSlice { elem: ScalarTy::F64, mutable: false },
                        ],
                        output: LocalTy::Scalar(ScalarTy::F64),
                    }),
                    mir: Some(dot_mir()),
                }
            } else {
                DotCallee { is_local: false, sig: None, mir: None }
            }
        })
        .collect()
}

fn gates() -> LoopIdiomGates {
    LoopIdiomGates {
        enabled: true,
        crate_name: "app".to_string(),
        fn_name: "app::predict".to_string(),
        inline_always_or_naked: false,
        float_opt_in: true,
        available_helpers: vec!["parallel_runtime_parallel_matvec_f64".to_string()],
    }
}

#[test]
fn a_multiplying_body_looks_like_a_dot_product() {
    assert!(fn_body_looks_like_dot(&callees(true)[5]));
    assert!(!fn_body_looks_like_dot(&callees(false)[5]));
}

#[test]
fn an_outer_dot_call_loop_becomes_a_matvec_call() {
    let mut body = outer_dot_body();
    let n = try_transform_outer_dot_call_matvec_f64(&mut body, &gates(), &callees(true));
    assert_eq!(n, 1);
    assert_eq!(body.basic_blocks.len(), 10);
    match &body.basic_blocks[1].terminator {
        Some(TerminatorKind::Goto { target }) => assert_eq!(*target, 9),
        other => panic!("entry ends in {:?}", other),
    }
    match &body.basic_blocks[9].terminator {
        Some(TerminatorKind::Call { func: Operand::Constant(Const::FnDef { path }), args, target, .. }) => {
            assert_eq!(path, "parallel_runtime_parallel_matvec_f64");
            assert_eq!(args.len(), 5);
            assert!(matches!(&args[1], Operand::Copy(p) if p.local == 2));
            assert!(matches!(&args[2], Operand::Copy(p) if p.local == 3));
            assert!(matches!(&args[3], Operand::Copy(p) if p.local == 13));
            assert!(matches!(&args[4], Operand::Copy(p) if p.local == 4));
            assert_eq!(*target, Some(7));
        },
        other => panic!("unexpected terminator {:?}", other),
    }
}

#[test]
fn a_call_of_another_crate_is_not_a_dot_product() {
    let mut body = outer_dot_body();
    assert_eq!(try_transform_outer_dot_call_matvec_f64(&mut body, &gates(), &callees(false)), 0);
    assert_eq!(body.basic_blocks.len(), 9);
}

#[test]
fn the_dot_call_rewrite_needs_the_float_opt_in() {
    let mut body = outer_dot_body();
    let mut g = gates();
    g.float_opt_in = false;
    assert_eq!(try_transform_outer_dot_call_matvec_f64(&mut body, &g, &callees(true)), 0);
}
