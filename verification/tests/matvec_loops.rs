use j2_passes::detect::find_simple_loops;
use j2_passes::idioms::{FloatTy, ScalarTy};
use j2_passes::grid_loops::{analyze_axis_reduce_loops, analyze_broadcast_loops, analyze_transpose_loops};
use j2_passes::matvec::{analyze_conv1d_loops, analyze_matvec_loops};
use j2_passes::mir::{
    AggregateKind, BasicBlockData, BinOp, Body, Const, LocalTy, Operand, Place, ProjectionElem, Rvalue, StatementKind,
    TerminatorKind, UnwindAction,
};

fn place(l: usize) -> Place {
    Place { local: l, projection: vec![] }
}

fn copy(l: usize) -> Operand {
    Operand::Copy(place(l))
}

fn at(l: usize, i: usize) -> Operand {
    Operand::Copy(Place { local: l, projection: vec![ProjectionElem::Deref, ProjectionElem::Index(i)] })
}

fn assign(l: usize, rv: Rvalue) -> StatementKind {
    StatementKind::Assign(place(l), rv)
}

fn blk(stmts: Vec<StatementKind>, t: TerminatorKind) -> BasicBlockData {
    BasicBlockData { statements: stmts, terminator: Some(t) }
}

fn next_call(iter: usize, dest: usize, target: usize) -> TerminatorKind {
    TerminatorKind::Call {
        func: Operand::Constant(Const::FnDef { path: "core::iter::range::<impl Iterator for Range<usize>>::next".to_string() }),
        args: vec![Operand::Move(place(iter))],
        destination: place(dest),
        target: Some(target),
        unwind: UnwindAction::Continue,
    }
}

fn some_payload(opt: usize) -> Rvalue {
    Rvalue::Use(Operand::Copy(Place { local: opt, projection: vec![ProjectionElem::Downcast(1), ProjectionElem::Field(0)] }))
}

/// `for i in 0..m { let mut acc = 0.0; for j in 0..n { acc += a[i * n + j] * x[j] } y[i] = acc }`
/// with `y = _1`, `a = _2`, `x = _3`, `m = _4`, `n = _5`.
fn matvec_body(x_index: usize) -> Body {
    nest_body(
        [
            vec![
                assign(20, Rvalue::BinaryOp(BinOp::Mul, copy(14), copy(5))),
                assign(21, Rvalue::BinaryOp(BinOp::Add, copy(20), copy(19))),
                assign(22, Rvalue::Use(at(2, 21))),
                assign(23, Rvalue::Use(at(3, x_index))),
            ],
            dot_tail(),
        ]
        .concat(),
        vec![],
    )
}

/// `_24 = _22 * _23; _15 += _24`.
fn dot_tail() -> Vec<StatementKind> {
    vec![
        assign(24, Rvalue::BinaryOp(BinOp::Mul, copy(22), copy(23))),
        assign(15, Rvalue::BinaryOp(BinOp::Add, copy(15), copy(24))),
    ]
}

/// The nest with the given statements after the inner payload, and
/// `inner_entry` in the inner loop's entry block.
fn nest_body(work: Vec<StatementKind>, inner_entry: Vec<StatementKind>) -> Body {
    let mut tys = vec![LocalTy::Other; 27];
    tys[1] = LocalTy::RefSlice { elem: ScalarTy::F64, mutable: true };
    tys[2] = LocalTy::RefSlice { elem: ScalarTy::F64, mutable: false };
    tys[3] = LocalTy::RefSlice { elem: ScalarTy::F64, mutable: false };
    tys[4] = LocalTy::Scalar(ScalarTy::Usize);
    tys[5] = LocalTy::Scalar(ScalarTy::Usize);
    tys[15] = LocalTy::Scalar(ScalarTy::F64);
    Body {
        basic_blocks: vec![
            blk(
                vec![assign(
                    10,
                    Rvalue::Aggregate(
                        AggregateKind::Adt { path: "core::ops::Range".to_string(), first_ty: Some(ScalarTy::Usize) },
                        vec![Operand::Constant(Const::Scalar { bits: 0, size_bits: 64 }), copy(4)],
                    ),
                )],
                TerminatorKind::Goto { target: 1 },
            ),
            blk(vec![], TerminatorKind::Goto { target: 2 }),
            blk(vec![], next_call(11, 12, 3)),
            blk(
                vec![assign(13, Rvalue::Discriminant(place(12)))],
                TerminatorKind::SwitchInt { discr: Operand::Move(place(13)), targets: vec![(0, 10), (1, 4)], otherwise: 11 },
            ),
            blk(
                vec![
                    assign(14, some_payload(12)),
                    assign(15, Rvalue::Use(Operand::Constant(Const::Scalar { bits: 0, size_bits: 64 }))),
                ],
                TerminatorKind::Goto { target: 5 },
            ),
            blk(inner_entry, TerminatorKind::Goto { target: 6 }),
            blk(vec![], next_call(16, 17, 7)),
            blk(
                vec![assign(18, Rvalue::Discriminant(place(17)))],
                TerminatorKind::SwitchInt { discr: Operand::Move(place(18)), targets: vec![(0, 9), (1, 8)], otherwise: 11 },
            ),
            blk(
                [vec![assign(19, some_payload(17))], work].concat(),
                TerminatorKind::Goto { target: 6 },
            ),
            blk(
                vec![StatementKind::Assign(
                    Place { local: 1, projection: vec![ProjectionElem::Deref, ProjectionElem::Index(14)] },
                    Rvalue::Use(copy(15)),
                )],
                TerminatorKind::Goto { target: 2 },
            ),
            blk(vec![], TerminatorKind::Return),
            blk(vec![], TerminatorKind::Unreachable),
        ],
        arg_count: 5,
        local_tys: tys,
    }
}

#[test]
fn a_matvec_nest_is_planned() {
    let body = matvec_body(19);
    let loops = find_simple_loops(&body);
    let outer = loops.iter().find(|l| l.header == 2).expect("the outer loop");
    let inner = loops.iter().find(|l| l.header == 6).expect("the inner loop");
    assert_eq!(outer.body, vec![2, 3, 4, 5, 6, 7, 8, 9]);
    let plan = analyze_matvec_loops(&body, outer, inner).expect("a matvec nest");
    assert_eq!(plan.outer_entry_bb, 1);
    assert_eq!(plan.outer_exit_bb, 10);
    assert_eq!(plan.y_local, 1);
    assert_eq!(plan.a_local, 2);
    assert_eq!(plan.x_local, 3);
    assert!(matches!(&plan.m_op, Operand::Copy(p) if p.local == 4 && p.projection.is_empty()));
    assert!(matches!(&plan.n_op, Operand::Copy(p) if p.local == 5 && p.projection.is_empty()));
    assert_eq!(plan.fty, FloatTy::F64);
}

#[test]
fn a_nest_reading_x_at_i_is_not_matvec() {
    let body = matvec_body(14);
    let loops = find_simple_loops(&body);
    let outer = loops.iter().find(|l| l.header == 2).unwrap();
    let inner = loops.iter().find(|l| l.header == 6).unwrap();
    assert!(analyze_matvec_loops(&body, outer, inner).is_none());
}

#[test]
fn swapped_loops_are_not_matvec() {
    let body = matvec_body(19);
    let loops = find_simple_loops(&body);
    let outer = loops.iter().find(|l| l.header == 2).unwrap();
    let inner = loops.iter().find(|l| l.header == 6).unwrap();
    assert!(analyze_matvec_loops(&body, inner, outer).is_none());
    assert!(analyze_matvec_loops(&body, outer, outer).is_none());
}

fn conv1d_body() -> Body {
    nest_body(
        [
            vec![
                assign(21, Rvalue::BinaryOp(BinOp::Add, copy(14), copy(19))),
                assign(22, Rvalue::Use(at(3, 21))),
                assign(23, Rvalue::Use(at(2, 19))),
            ],
            dot_tail(),
        ]
        .concat(),
        vec![assign(
            25,
            Rvalue::Aggregate(
                AggregateKind::Adt { path: "core::ops::Range".to_string(), first_ty: Some(ScalarTy::Usize) },
                vec![Operand::Constant(Const::Scalar { bits: 0, size_bits: 64 }), copy(5)],
            ),
        )],
    )
}

#[test]
fn a_conv1d_nest_is_planned() {
    let body = conv1d_body();
    let loops = find_simple_loops(&body);
    let outer = loops.iter().find(|l| l.header == 2).unwrap();
    let inner = loops.iter().find(|l| l.header == 6).unwrap();
    let plan = analyze_conv1d_loops(&body, outer, inner).expect("a conv1d nest");
    assert_eq!(plan.outer_entry_bb, 1);
    assert_eq!(plan.outer_exit_bb, 10);
    assert_eq!(plan.y_local, 1);
    assert_eq!(plan.x_local, 3);
    assert_eq!(plan.w_local, 2);
    assert!(matches!(&plan.ks_op, Operand::Copy(p) if p.local == 5));
    assert!(matches!(&plan.n_op, Operand::Copy(p) if p.local == 3));
    // the same nest is no matrix-vector product, and the product is no convolution
    assert!(analyze_matvec_loops(&body, outer, inner).is_none());
    let mv = matvec_body(19);
    assert!(analyze_conv1d_loops(&mv, outer, inner).is_none());
}

fn row_index() -> Vec<StatementKind> {
    vec![
        assign(20, Rvalue::BinaryOp(BinOp::Mul, copy(14), copy(5))),
        assign(21, Rvalue::BinaryOp(BinOp::Add, copy(20), copy(19))),
    ]
}

#[test]
fn a_row_sum_nest_is_planned() {
    let body = nest_body(
        [
            row_index(),
            vec![
                assign(22, Rvalue::Use(at(2, 21))),
                assign(15, Rvalue::BinaryOp(BinOp::Add, copy(15), copy(22))),
            ],
        ]
        .concat(),
        vec![],
    );
    let loops = find_simple_loops(&body);
    let outer = loops.iter().find(|l| l.header == 2).unwrap();
    let inner = loops.iter().find(|l| l.header == 6).unwrap();
    let plan = analyze_axis_reduce_loops(&body, outer, inner).expect("a row-sum nest");
    assert_eq!(plan.outer_entry_bb, 1);
    assert_eq!(plan.outer_exit_bb, 10);
    assert_eq!(plan.out_local, 1);
    assert_eq!(plan.a_local, 2);
    assert!(matches!(&plan.m_op, Operand::Copy(p) if p.local == 4));
    assert!(matches!(&plan.n_op, Operand::Copy(p) if p.local == 5));
    assert_eq!(plan.fty, FloatTy::F64);
}

#[test]
fn a_broadcast_nest_is_planned() {
    let idx1 = Place { local: 1, projection: vec![ProjectionElem::Deref, ProjectionElem::Index(21)] };
    let body = nest_body(
        [
            row_index(),
            vec![
                assign(23, Rvalue::Use(at(3, 19))),
                StatementKind::Assign(idx1.clone(), Rvalue::BinaryOp(BinOp::Add, Operand::Copy(idx1), copy(23))),
            ],
        ]
        .concat(),
        vec![],
    );
    let loops = find_simple_loops(&body);
    let outer = loops.iter().find(|l| l.header == 2).unwrap();
    let inner = loops.iter().find(|l| l.header == 6).unwrap();
    let plan = analyze_broadcast_loops(&body, outer, inner).expect("a broadcast nest");
    assert_eq!(plan.a_local, 1);
    assert_eq!(plan.b_local, 3);
    assert!(matches!(&plan.m_op, Operand::Copy(p) if p.local == 4));
    assert!(matches!(&plan.n_op, Operand::Copy(p) if p.local == 5));
    assert!(analyze_axis_reduce_loops(&body, outer, inner).is_none());
}

#[test]
fn a_transpose_nest_is_planned() {
    let body = nest_body(
        [
            row_index(),
            vec![
                assign(25, Rvalue::BinaryOp(BinOp::Mul, copy(19), copy(4))),
                assign(26, Rvalue::BinaryOp(BinOp::Add, copy(25), copy(14))),
                assign(22, Rvalue::Use(at(2, 21))),
                StatementKind::Assign(
                    Place { local: 1, projection: vec![ProjectionElem::Deref, ProjectionElem::Index(26)] },
                    Rvalue::Use(copy(22)),
                ),
            ],
        ]
        .concat(),
        vec![],
    );
    let loops = find_simple_loops(&body);
    let outer = loops.iter().find(|l| l.header == 2).unwrap();
    let inner = loops.iter().find(|l| l.header == 6).unwrap();
    let plan = analyze_transpose_loops(&body, outer, inner).expect("a transpose nest");
    assert_eq!(plan.b_local, 1);
    assert_eq!(plan.a_local, 2);
    assert!(matches!(&plan.m_op, Operand::Copy(p) if p.local == 4));
    assert!(matches!(&plan.n_op, Operand::Copy(p) if p.local == 5));
    assert_eq!(plan.outer_exit_bb, 10);
}

#[test]
fn a_copy_at_the_same_index_is_no_transpose() {
    let body = nest_body(
        [
            row_index(),
            vec![
                assign(22, Rvalue::Use(at(2, 21))),
                StatementKind::Assign(
                    Place { local: 1, projection: vec![ProjectionElem::Deref, ProjectionElem::Index(21)] },
                    Rvalue::Use(copy(22)),
                ),
            ],
        ]
        .concat(),
        vec![],
    );
    let loops = find_simple_loops(&body);
    let outer = loops.iter().find(|l| l.header == 2).unwrap();
    let inner = loops.iter().find(|l| l.header == 6).unwrap();
    assert!(analyze_transpose_loops(&body, outer, inner).is_none());
}
