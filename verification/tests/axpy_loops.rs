use j2_passes::axpy::{analyze_axpy_loop_for_transform, is_ref_slice_f64, is_ref_vec_f64, ref_slice_float_ty, SliceDst};
use j2_passes::detect::{find_simple_loops, SimpleLoop};
use j2_passes::idioms::{FloatTy, ScalarTy};
use j2_passes::mir::{
    BasicBlockData, BinOp, Body, Const, LocalTy, Operand, Place, ProjectionElem, Rvalue, StatementKind, TerminatorKind,
    UnwindAction,
};

fn place(l: usize) -> Place {
    Place { local: l, projection: vec![] }
}

fn copy(l: usize) -> Operand {
    Operand::Copy(place(l))
}

fn at_i(l: usize, i: usize) -> Place {
    Place { local: l, projection: vec![ProjectionElem::Deref, ProjectionElem::Index(i)] }
}

fn blk(stmts: Vec<StatementKind>, t: TerminatorKind) -> BasicBlockData {
    BasicBlockData { statements: stmts, terminator: Some(t) }
}

fn axpy_body(update: Rvalue) -> Body {
    let mut tys = vec![LocalTy::Other; 11];
    tys[1] = LocalTy::RefSlice { elem: ScalarTy::F64, mutable: true };
    tys[2] = LocalTy::RefSlice { elem: ScalarTy::F64, mutable: false };
    tys[3] = LocalTy::Scalar(ScalarTy::F64);
    Body {
        basic_blocks: vec![
            blk(vec![], TerminatorKind::Goto { target: 1 }),
            blk(vec![], TerminatorKind::Call {
                func: Operand::Constant(Const::FnDef { path: "core::iter::range::<impl Iterator for Range<usize>>::next".to_string() }),
                args: vec![Operand::Move(place(5))],
                destination: place(6),
                target: Some(2),
                unwind: UnwindAction::Continue,
            }),
            blk(
                vec![StatementKind::Assign(place(7), Rvalue::Discriminant(place(6)))],
                TerminatorKind::SwitchInt { discr: Operand::Move(place(7)), targets: vec![(0, 4), (1, 3)], otherwise: 5 },
            ),
            blk(
                vec![
                    StatementKind::Assign(
                        place(8),
                        Rvalue::Use(Operand::Copy(Place { local: 6, projection: vec![ProjectionElem::Downcast(1), ProjectionElem::Field(0)] })),
                    ),
                    StatementKind::Assign(place(9), Rvalue::Use(Operand::Copy(at_i(2, 8)))),
                    StatementKind::Assign(place(10), Rvalue::BinaryOp(BinOp::Mul, copy(3), copy(9))),
                    StatementKind::Assign(at_i(1, 8), update),
                ],
                TerminatorKind::Goto { target: 1 },
            ),
            blk(vec![], TerminatorKind::Return),
            blk(vec![], TerminatorKind::Unreachable),
        ],
        arg_count: 3,
        local_tys: tys,
    }
}

fn the_loop() -> SimpleLoop {
    SimpleLoop { header: 1, body: vec![1, 2, 3] }
}

#[test]
fn an_axpy_loop_is_planned() {
    let body = axpy_body(Rvalue::BinaryOp(BinOp::Add, Operand::Copy(at_i(1, 8)), copy(10)));
    let loops = find_simple_loops(&body);
    assert_eq!(loops.len(), 1);
    assert_eq!(loops[0].body, vec![1, 2, 3]);
    let plan = analyze_axpy_loop_for_transform(&body, &loops[0]).expect("an axpy loop");
    assert_eq!(plan.entry_bb, 0);
    assert_eq!(plan.exit_bb, 4);
    assert_eq!(plan.y_dst, SliceDst::Slice { local: 1 });
    assert_eq!(plan.x_local, 2);
    assert_eq!(plan.alpha_local, 3);
    assert_eq!(plan.fty, FloatTy::F64);
    assert!(!plan.is_sub);
}

#[test]
fn a_subtracting_axpy_loop() {
    let body = axpy_body(Rvalue::BinaryOp(BinOp::Sub, Operand::Copy(at_i(1, 8)), copy(10)));
    let plan = analyze_axpy_loop_for_transform(&body, &the_loop()).expect("an axpy loop");
    assert!(plan.is_sub);
}

#[test]
fn reversed_subtraction_is_no_axpy() {
    let body = axpy_body(Rvalue::BinaryOp(BinOp::Sub, copy(10), Operand::Copy(at_i(1, 8))));
    assert!(analyze_axpy_loop_for_transform(&body, &the_loop()).is_none());
}

#[test]
fn a_shared_destination_is_no_axpy() {
    let mut body = axpy_body(Rvalue::BinaryOp(BinOp::Add, Operand::Copy(at_i(1, 8)), copy(10)));
    body.local_tys[1] = LocalTy::RefSlice { elem: ScalarTy::F64, mutable: false };
    assert!(analyze_axpy_loop_for_transform(&body, &the_loop()).is_none());
    let mut body = axpy_body(Rvalue::BinaryOp(BinOp::Add, Operand::Copy(at_i(1, 8)), copy(10)));
    body.local_tys[3] = LocalTy::Scalar(ScalarTy::F32);
    assert!(analyze_axpy_loop_for_transform(&body, &the_loop()).is_none());
}

#[test]
fn two_indexed_writes_are_no_axpy() {
    let mut body = axpy_body(Rvalue::BinaryOp(BinOp::Add, Operand::Copy(at_i(1, 8)), copy(10)));
    body.basic_blocks[3].statements.push(StatementKind::Assign(at_i(1, 8), Rvalue::Use(copy(10))));
    assert!(analyze_axpy_loop_for_transform(&body, &the_loop()).is_none());
}

#[test]
fn float_reference_types() {
    let ms = LocalTy::RefSlice { elem: ScalarTy::F64, mutable: true };
    let ss = LocalTy::RefSlice { elem: ScalarTy::F64, mutable: false };
    assert_eq!(ref_slice_float_ty(ms, true), Some(FloatTy::F64));
    assert_eq!(ref_slice_float_ty(ss, true), None);
    assert_eq!(ref_slice_float_ty(ss, false), Some(FloatTy::F64));
    assert!(is_ref_slice_f64(ss, false));
    assert!(!is_ref_slice_f64(LocalTy::RefSlice { elem: ScalarTy::F32, mutable: false }, false));
    assert!(is_ref_vec_f64(LocalTy::RefVec { elem: ScalarTy::F64, mutable: true }, true));
    assert!(!is_ref_vec_f64(LocalTy::RefVec { elem: ScalarTy::F64, mutable: false }, true));
    assert!(!is_ref_vec_f64(ms, false));
}
