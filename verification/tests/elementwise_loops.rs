use j2_passes::apply_loops::{
    analyze_binary_apply_loop, analyze_elemwise_write_loop, analyze_scale_loop, analyze_unary_apply_loop, ElemwiseShape,
};
use j2_passes::detect::find_simple_loops;
use j2_passes::idioms::{FloatTy, ScalarTy};
use j2_passes::mir::{
    BasicBlockData, BinOp, Body, Const, LocalTy, Operand, Place, ProjectionElem, Rvalue, StatementKind, TerminatorKind,
    UnwindAction,
};

fn place(l: usize) -> Place {
    Place { local: l, projection: vec![] }
}

fn copy(l: usize) -> Operand {
    Operand::Copy(place(l))
}

fn at_i(l: usize, i: usize) -> Place {
    Place { local: l, projection: vec![ProjectionElem::Deref, ProjectionElem::Index(i)] }
}

fn blk(stmts: Vec<StatementKind>, t: TerminatorKind) -> BasicBlockData {
    BasicBlockData { statements: stmts, terminator: Some(t) }
}

fn call(path: &str, args: Vec<Operand>, dest: usize, target: usize) -> TerminatorKind {
    TerminatorKind::Call {
        func: Operand::Constant(Const::FnDef { path: path.to_string() }),
        args,
        destination: place(dest),
        target: Some(target),
        unwind: UnwindAction::Continue,
    }
}

/// `for i in range { <work> }`: block 0 enters, block 1 calls `next` on
/// `_5` into `_6`, block 2 switches on its discriminant (exit to the last
/// block but one), block 3 takes `_8` out of the `Some` and runs `work`
/// (more blocks may follow it), and the last blocks return and are
/// unreachable. Locals: `_1: &mut [f64]`, `_2`, `_3: &[f64]`, `_4: f64`.
fn range_body(mut work: Vec<BasicBlockData>, n_locals: usize) -> Body {
    let exit = 3 + work.len();
    let mut tys = vec![LocalTy::Other; n_locals];
    tys[1] = LocalTy::RefSlice { elem: ScalarTy::F64, mutable: true };
    tys[2] = LocalTy::RefSlice { elem: ScalarTy::F64, mutable: false };
    tys[3] = LocalTy::RefSlice { elem: ScalarTy::F64, mutable: false };
    tys[4] = LocalTy::Scalar(ScalarTy::F64);
    let extract = StatementKind::Assign(
        place(8),
        Rvalue::Use(Operand::Copy(Place { local: 6, projection: vec![ProjectionElem::Downcast(1), ProjectionElem::Field(0)] })),
    );
    work[0].statements.insert(0, extract);
    let mut blocks = vec![
        blk(vec![], TerminatorKind::Goto { target: 1 }),
        blk(vec![], call("core::iter::range::<impl Iterator for Range<usize>>::next", vec![Operand::Move(place(5))], 6, 2)),
        blk(
            vec![StatementKind::Assign(place(7), Rvalue::Discriminant(place(6)))],
            TerminatorKind::SwitchInt { discr: Operand::Move(place(7)), targets: vec![(0, exit), (1, 3)], otherwise: exit + 1 },
        ),
    ];
    blocks.extend(work);
    blocks.push(blk(vec![], TerminatorKind::Return));
    blocks.push(blk(vec![], TerminatorKind::Unreachable));
    Body { basic_blocks: blocks, arg_count: 4, local_tys: tys }
}

#[test]
fn a_scale_loop_is_planned() {
    let body = range_body(
        vec![blk(
            vec![StatementKind::Assign(at_i(1, 8), Rvalue::BinaryOp(BinOp::Mul, Operand::Copy(at_i(1, 8)), copy(4)))],
            TerminatorKind::Goto { target: 1 },
        )],
        12,
    );
    let loops = find_simple_loops(&body);
    assert_eq!(loops.len(), 1);
    let plan = analyze_scale_loop(&body, &loops[0]).expect("a scale loop");
    assert_eq!(plan.entry_bb, 0);
    assert_eq!(plan.exit_bb, 4);
    assert_eq!(plan.dst_local, 1);
    assert_eq!(plan.alpha_local, 4);
    assert_eq!(plan.fty, FloatTy::F64);
}

#[test]
fn a_scale_by_the_factor_on_the_left_is_planned() {
    let body = range_body(
        vec![blk(
            vec![StatementKind::Assign(at_i(1, 8), Rvalue::BinaryOp(BinOp::Mul, copy(4), Operand::Copy(at_i(1, 8))))],
            TerminatorKind::Goto { target: 1 },
        )],
        12,
    );
    let loops = find_simple_loops(&body);
    assert!(analyze_scale_loop(&body, &loops[0]).is_some());
}

#[test]
fn a_scale_into_a_shared_slice_is_refused() {
    let body = range_body(
        vec![blk(
            vec![StatementKind::Assign(at_i(2, 8), Rvalue::BinaryOp(BinOp::Mul, Operand::Copy(at_i(2, 8)), copy(4)))],
            TerminatorKind::Goto { target: 1 },
        )],
        12,
    );
    let loops = find_simple_loops(&body);
    assert!(analyze_scale_loop(&body, &loops[0]).is_none());
}

#[test]
fn two_indexed_writes_are_not_a_scale() {
    let write = StatementKind::Assign(at_i(1, 8), Rvalue::BinaryOp(BinOp::Mul, Operand::Copy(at_i(1, 8)), copy(4)));
    let body = range_body(vec![blk(vec![write.clone(), write], TerminatorKind::Goto { target: 1 })], 12);
    let loops = find_simple_loops(&body);
    assert!(analyze_scale_loop(&body, &loops[0]).is_none());
}

fn unary_body(method: &str) -> Body {
    range_body(
        vec![
            blk(
                vec![StatementKind::Assign(place(9), Rvalue::Use(Operand::Copy(at_i(2, 8))))],
                call(&format!("std::f64::<impl f64>::{}", method), vec![Operand::Move(place(9))], 10, 4),
            ),
            blk(
                vec![StatementKind::Assign(at_i(1, 8), Rvalue::Use(Operand::Move(place(10))))],
                TerminatorKind::Goto { target: 1 },
            ),
        ],
        12,
    )
}

#[test]
fn a_sqrt_loop_is_planned() {
    let body = unary_body("sqrt");
    let loops = find_simple_loops(&body);
    assert_eq!(loops.len(), 1);
    let plan = analyze_unary_apply_loop(&body, &loops[0]).expect("a unary apply loop");
    assert_eq!(plan.entry_bb, 0);
    assert_eq!(plan.exit_bb, 5);
    assert_eq!(plan.dst_local, 1);
    assert_eq!(plan.src_local, 2);
    assert_eq!(plan.method, "sqrt");
    assert_eq!(plan.fty, FloatTy::F64);
}

#[test]
fn an_unknown_unary_method_is_refused() {
    let body = unary_body("cbrt");
    let loops = find_simple_loops(&body);
    assert!(analyze_unary_apply_loop(&body, &loops[0]).is_none());
}

#[test]
fn a_unary_apply_in_place_is_refused() {
    let mut body = unary_body("abs");
    body.basic_blocks[3].statements[1] = StatementKind::Assign(place(9), Rvalue::Use(Operand::Copy(at_i(1, 8))));
    let loops = find_simple_loops(&body);
    assert!(analyze_unary_apply_loop(&body, &loops[0]).is_none());
}

fn binary_body(method: &str) -> Body {
    range_body(
        vec![
            blk(
                vec![
                    StatementKind::Assign(place(9), Rvalue::Use(Operand::Copy(at_i(2, 8)))),
                    StatementKind::Assign(place(11), Rvalue::Use(Operand::Copy(at_i(3, 8)))),
                ],
                call(&format!("std::f64::<impl f64>::{}", method), vec![Operand::Move(place(9)), Operand::Move(place(11))], 10, 4),
            ),
            blk(
                vec![StatementKind::Assign(at_i(1, 8), Rvalue::Use(Operand::Move(place(10))))],
                TerminatorKind::Goto { target: 1 },
            ),
        ],
        12,
    )
}

#[test]
fn a_hypot_loop_is_planned() {
    let body = binary_body("hypot");
    let loops = find_simple_loops(&body);
    let plan = analyze_binary_apply_loop(&body, &loops[0]).expect("a binary apply loop");
    assert_eq!(plan.dst_local, 1);
    assert_eq!(plan.a_local, 2);
    assert_eq!(plan.b_local, 3);
    assert_eq!(plan.method, "hypot");
    assert_eq!(plan.exit_bb, 5);
}

#[test]
fn a_binary_argument_read_directly_is_planned() {
    let mut body = binary_body("max");
    body.basic_blocks[3].terminator = Some(call(
        "std::f64::<impl f64>::max",
        vec![Operand::Move(place(9)), Operand::Copy(at_i(3, 8))],
        10,
        4,
    ));
    let loops = find_simple_loops(&body);
    let plan = analyze_binary_apply_loop(&body, &loops[0]).expect("a binary apply loop");
    assert_eq!(plan.b_local, 3);
    assert_eq!(plan.method, "max");
}

#[test]
fn a_binary_method_as_unary_is_refused() {
    let body = binary_body("powf");
    let loops = find_simple_loops(&body);
    assert!(analyze_unary_apply_loop(&body, &loops[0]).is_none());
    assert!(analyze_binary_apply_loop(&body, &loops[0]).is_some());
}

fn abs_diff_body(abs_path: &str) -> Body {
    range_body(
        vec![
            blk(
                vec![
                    StatementKind::Assign(place(9), Rvalue::Use(Operand::Copy(at_i(2, 8)))),
                    StatementKind::Assign(place(11), Rvalue::BinaryOp(BinOp::Sub, Operand::Move(place(9)), Operand::Copy(at_i(3, 8)))),
                ],
                call(abs_path, vec![Operand::Move(place(11))], 10, 4),
            ),
            blk(
                vec![StatementKind::Assign(at_i(1, 8), Rvalue::Use(Operand::Move(place(10))))],
                TerminatorKind::Goto { target: 1 },
            ),
        ],
        12,
    )
}

#[test]
fn an_abs_diff_loop_is_planned() {
    let body = abs_diff_body("std::f64::<impl f64>::abs");
    let loops = find_simple_loops(&body);
    let plan = j2_passes::apply_loops::analyze_abs_diff_loop(&body, &loops[0]).expect("an abs-diff loop");
    assert_eq!(plan.dst_local, 1);
    assert_eq!(plan.a_local, 2);
    assert_eq!(plan.b_local, 3);
    assert_eq!(plan.entry_bb, 0);
    assert_eq!(plan.exit_bb, 5);
    assert_eq!(plan.fty, FloatTy::F64);
}

#[test]
fn a_diff_through_another_call_is_not_abs_diff() {
    let body = abs_diff_body("std::f64::<impl f64>::sqrt");
    let loops = find_simple_loops(&body);
    assert!(j2_passes::apply_loops::analyze_abs_diff_loop(&body, &loops[0]).is_none());
}

fn fma_body(add: Rvalue) -> Body {
    range_body(
        vec![blk(
            vec![
                StatementKind::Assign(place(9), Rvalue::Use(Operand::Copy(at_i(2, 8)))),
                StatementKind::Assign(place(11), Rvalue::BinaryOp(BinOp::Mul, Operand::Move(place(9)), Operand::Copy(at_i(3, 8)))),
                StatementKind::Assign(at_i(1, 8), add),
            ],
            TerminatorKind::Goto { target: 1 },
        )],
        13,
    )
}

fn fma_types(mut body: Body) -> Body {
    body.local_tys[12] = LocalTy::RefSlice { elem: ScalarTy::F64, mutable: false };
    body
}

#[test]
fn an_fma_loop_is_planned() {
    let body = fma_types(fma_body(Rvalue::BinaryOp(BinOp::Add, Operand::Move(place(11)), Operand::Copy(at_i(12, 8)))));
    let loops = find_simple_loops(&body);
    let plan = j2_passes::apply_loops::analyze_fma_write_loop(&body, &loops[0]).expect("an fma loop");
    assert_eq!(plan.dst_local, 1);
    assert_eq!(plan.a_local, 2);
    assert_eq!(plan.b_local, 3);
    assert_eq!(plan.c_local, 12);
    assert_eq!(plan.exit_bb, 4);
}

#[test]
fn an_fma_with_the_addend_first_is_planned() {
    let body = fma_types(fma_body(Rvalue::BinaryOp(BinOp::Add, Operand::Copy(at_i(12, 8)), Operand::Move(place(11)))));
    let loops = find_simple_loops(&body);
    let plan = j2_passes::apply_loops::analyze_fma_write_loop(&body, &loops[0]).expect("an fma loop");
    assert_eq!(plan.c_local, 12);
}

#[test]
fn an_fma_with_an_untyped_addend_is_refused() {
    let body = fma_body(Rvalue::BinaryOp(BinOp::Add, Operand::Move(place(11)), Operand::Copy(at_i(12, 8))));
    let loops = find_simple_loops(&body);
    assert!(j2_passes::apply_loops::analyze_fma_write_loop(&body, &loops[0]).is_none());
}

fn clamp_body(lo_assigned: bool) -> Body {
    let mut first = vec![StatementKind::Assign(place(9), Rvalue::Use(Operand::Copy(at_i(2, 8))))];
    if lo_assigned {
        first.push(StatementKind::Assign(place(4), Rvalue::BinaryOp(BinOp::Mul, copy(11), copy(11))));
    }
    let mut body = range_body(
        vec![
            blk(
                first,
                call("core::f64::<impl f64>::clamp", vec![Operand::Move(place(9)), copy(4), copy(11)], 10, 4),
            ),
            blk(
                vec![StatementKind::Assign(at_i(1, 8), Rvalue::Use(Operand::Move(place(10))))],
                TerminatorKind::Goto { target: 1 },
            ),
        ],
        12,
    );
    body.local_tys[11] = LocalTy::Scalar(ScalarTy::F64);
    body
}

#[test]
fn a_clamp_loop_is_planned() {
    let body = clamp_body(false);
    let loops = find_simple_loops(&body);
    let plan = j2_passes::apply_loops::analyze_clamp_loop(&body, &loops[0]).expect("a clamp loop");
    assert_eq!(plan.dst_local, 1);
    assert_eq!(plan.src_local, 2);
    assert_eq!(plan.lo_local, 4);
    assert_eq!(plan.hi_local, 11);
    assert_eq!(plan.exit_bb, 5);
}

#[test]
fn a_clamp_with_a_bound_changed_in_the_loop_is_refused() {
    let body = clamp_body(true);
    let loops = find_simple_loops(&body);
    assert!(j2_passes::apply_loops::analyze_clamp_loop(&body, &loops[0]).is_none());
}

#[test]
fn a_zip_sub_write_through_a_local_is_planned() {
    let body = range_body(
        vec![blk(
            vec![
                StatementKind::Assign(place(9), Rvalue::Use(Operand::Copy(at_i(2, 8)))),
                StatementKind::Assign(place(11), Rvalue::Use(Operand::Copy(at_i(3, 8)))),
                StatementKind::Assign(place(10), Rvalue::BinaryOp(BinOp::Sub, copy(9), copy(11))),
                StatementKind::Assign(at_i(1, 8), Rvalue::Use(Operand::Move(place(10)))),
            ],
            TerminatorKind::Goto { target: 1 },
        )],
        12,
    );
    let loops = find_simple_loops(&body);
    let plan = j2_passes::zip_loops::analyze_zip_sub_write_loop(&body, &loops[0]).expect("a zip-sub loop");
    assert_eq!(plan.dst_local, 1);
    assert_eq!(plan.a_local, 2);
    assert_eq!(plan.b_local, 3);
    assert_eq!(plan.exit_bb, 4);
}

#[test]
fn an_inline_zip_sub_write_is_planned() {
    let body = range_body(
        vec![blk(
            vec![
                StatementKind::Assign(place(9), Rvalue::Use(Operand::Copy(at_i(2, 8)))),
                StatementKind::Assign(place(11), Rvalue::Use(Operand::Copy(at_i(3, 8)))),
                StatementKind::Assign(at_i(1, 8), Rvalue::BinaryOp(BinOp::Sub, copy(11), copy(9))),
            ],
            TerminatorKind::Goto { target: 1 },
        )],
        12,
    );
    let loops = find_simple_loops(&body);
    let plan = j2_passes::zip_loops::analyze_zip_sub_write_loop(&body, &loops[0]).expect("a zip-sub loop");
    assert_eq!(plan.a_local, 3);
    assert_eq!(plan.b_local, 2);
}

#[test]
fn a_zip_sub_of_a_scalar_is_refused() {
    let body = range_body(
        vec![blk(
            vec![
                StatementKind::Assign(place(9), Rvalue::Use(Operand::Copy(at_i(2, 8)))),
                StatementKind::Assign(at_i(1, 8), Rvalue::BinaryOp(BinOp::Sub, copy(9), copy(4))),
            ],
            TerminatorKind::Goto { target: 1 },
        )],
        12,
    );
    let loops = find_simple_loops(&body);
    assert!(j2_passes::zip_loops::analyze_zip_sub_write_loop(&body, &loops[0]).is_none());
}

fn diff_sq_body(square_right: usize) -> Body {
    range_body(
        vec![blk(
            vec![
                StatementKind::Assign(place(9), Rvalue::Use(Operand::Copy(at_i(2, 8)))),
                StatementKind::Assign(place(11), Rvalue::Use(Operand::Copy(at_i(3, 8)))),
                StatementKind::Assign(place(10), Rvalue::BinaryOp(BinOp::Sub, copy(9), copy(11))),
                StatementKind::Assign(place(12), Rvalue::BinaryOp(BinOp::Mul, copy(10), copy(square_right))),
                StatementKind::Assign(at_i(1, 8), Rvalue::BinaryOp(BinOp::Add, Operand::Copy(at_i(1, 8)), copy(12))),
            ],
            TerminatorKind::Goto { target: 1 },
        )],
        13,
    )
}

#[test]
fn a_diff_square_add_loop_is_planned() {
    let body = diff_sq_body(10);
    let loops = find_simple_loops(&body);
    let plan = j2_passes::zip_loops::analyze_zip_diff_sq_add_loop(&body, &loops[0]).expect("a diff-square loop");
    assert_eq!(plan.dst_local, 1);
    assert_eq!(plan.a_local, 2);
    assert_eq!(plan.b_local, 3);
    assert_eq!(plan.entry_bb, 0);
    assert_eq!(plan.exit_bb, 4);
}

#[test]
fn a_product_of_two_values_is_not_a_square() {
    let body = diff_sq_body(9);
    let loops = find_simple_loops(&body);
    assert!(j2_passes::zip_loops::analyze_zip_diff_sq_add_loop(&body, &loops[0]).is_none());
}

fn elemwise_body(stmts: Vec<StatementKind>) -> Body {
    range_body(vec![blk(stmts, TerminatorKind::Goto { target: 1 })], 12)
}

#[test]
fn a_fill_with_a_constant_is_planned() {
    let body = elemwise_body(vec![StatementKind::Assign(
        at_i(1, 8),
        Rvalue::Use(Operand::Constant(Const::Scalar { bits: 2.5f64.to_bits() as u128, size_bits: 64 })),
    )]);
    let loops = find_simple_loops(&body);
    let plan = analyze_elemwise_write_loop(&body, &loops[0]).expect("a fill loop");
    assert_eq!(plan.dst_local, 1);
    assert_eq!(plan.shape, ElemwiseShape::FillConst { bits: 2.5f64.to_bits() });
    assert_eq!(f64::from_bits(match plan.shape { ElemwiseShape::FillConst { bits } => bits, _ => 0 }), 2.5);
}

#[test]
fn a_fill_with_a_loop_invariant_float_is_planned() {
    let body = elemwise_body(vec![StatementKind::Assign(at_i(1, 8), Rvalue::Use(copy(4)))]);
    let loops = find_simple_loops(&body);
    let plan = analyze_elemwise_write_loop(&body, &loops[0]).expect("a fill loop");
    assert_eq!(plan.shape, ElemwiseShape::FillRuntime { src: 4 });
}

#[test]
fn a_copy_loop_is_planned() {
    let body = elemwise_body(vec![
        StatementKind::Assign(place(9), Rvalue::Use(Operand::Copy(at_i(2, 8)))),
        StatementKind::Assign(at_i(1, 8), Rvalue::Use(Operand::Move(place(9)))),
    ]);
    let loops = find_simple_loops(&body);
    let plan = analyze_elemwise_write_loop(&body, &loops[0]).expect("a copy loop");
    assert_eq!(plan.shape, ElemwiseShape::Copy { src: 2 });
}

#[test]
fn zip_add_mul_and_div_loops_are_planned() {
    for (op, want) in [
        (BinOp::Add, ElemwiseShape::ZipAdd { a: 2, b: 3 }),
        (BinOp::Mul, ElemwiseShape::ZipMul { a: 2, b: 3 }),
        (BinOp::Div, ElemwiseShape::ZipDiv { a: 2, b: 3 }),
    ] {
        let body = elemwise_body(vec![
            StatementKind::Assign(place(9), Rvalue::Use(Operand::Copy(at_i(2, 8)))),
            StatementKind::Assign(at_i(1, 8), Rvalue::BinaryOp(op, copy(9), Operand::Copy(at_i(3, 8)))),
        ]);
        let loops = find_simple_loops(&body);
        let plan = analyze_elemwise_write_loop(&body, &loops[0]).expect("a zip loop");
        assert_eq!(plan.shape, want);
    }
}

#[test]
fn a_zip_sub_is_not_an_elementwise_write() {
    let body = elemwise_body(vec![StatementKind::Assign(
        at_i(1, 8),
        Rvalue::BinaryOp(BinOp::Sub, Operand::Copy(at_i(2, 8)), Operand::Copy(at_i(3, 8))),
    )]);
    let loops = find_simple_loops(&body);
    assert!(j2_passes::apply_loops::analyze_elemwise_write_loop(&body, &loops[0]).is_none());
}

#[test]
fn an_update_of_the_destination_is_not_an_elementwise_write() {
    let body = elemwise_body(vec![StatementKind::Assign(
        at_i(1, 8),
        Rvalue::BinaryOp(BinOp::Add, Operand::Copy(at_i(1, 8)), Operand::Copy(at_i(3, 8))),
    )]);
    let loops = find_simple_loops(&body);
    assert!(j2_passes::apply_loops::analyze_elemwise_write_loop(&body, &loops[0]).is_none());
}

fn multi_axpy_body(z: usize) -> Body {
    let mut body = elemwise_body(vec![
        StatementKind::Assign(place(9), Rvalue::Use(Operand::Copy(at_i(2, 8)))),
        StatementKind::Assign(place(10), Rvalue::BinaryOp(BinOp::Mul, copy(4), copy(9))),
        StatementKind::Assign(place(11), Rvalue::BinaryOp(BinOp::Mul, Operand::Copy(at_i(z, 8)), copy(7))),
        StatementKind::Assign(at_i(1, 8), Rvalue::BinaryOp(BinOp::Add, copy(10), copy(11))),
    ]);
    body.local_tys[7] = LocalTy::Scalar(ScalarTy::F64);
    body
}

#[test]
fn a_two_term_axpy_loop_is_planned() {
    let body = multi_axpy_body(3);
    let loops = find_simple_loops(&body);
    let plan = j2_passes::apply_loops::analyze_multi_axpy_loop(&body, &loops[0]).expect("a two-term axpy");
    assert_eq!(plan.dst_local, 1);
    assert_eq!(plan.x_local, 2);
    assert_eq!(plan.alpha_local, 4);
    assert_eq!(plan.z_local, 3);
    assert_eq!(plan.beta_local, 7);
    assert_eq!(plan.exit_bb, 4);
}

#[test]
fn a_two_term_axpy_of_one_slice_is_refused() {
    let body = multi_axpy_body(2);
    let loops = find_simple_loops(&body);
    assert!(j2_passes::apply_loops::analyze_multi_axpy_loop(&body, &loops[0]).is_none());
}
