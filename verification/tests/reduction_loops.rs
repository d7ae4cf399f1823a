use j2_passes::detect::find_simple_loops;
use j2_passes::idioms::{AccTyTag, ReduceOp, ScalarTy};
use j2_passes::mir::{
    BasicBlockData, BinOp, Body, Const, LocalTy, Operand, Place, Rvalue, StatementKind, TerminatorKind, UnwindAction,
};
use j2_passes::reduce_loops::{
    analyze_loop_for_transform, analyze_slice_loop_for_transform, find_reduction_in_loop, find_u64_acc_init_zero_anywhere,
    is_ref_slice_u64, FnSigFacts, LoopBound,
};

fn place(l: usize) -> Place {
    Place { local: l, projection: vec![] }
}

fn copy(l: usize) -> Operand {
    Operand::Copy(place(l))
}

fn konst(v: u128) -> Operand {
    Operand::Constant(Const::Scalar { bits: v, size_bits: 64 })
}

fn assign(l: usize, rv: Rvalue) -> StatementKind {
    StatementKind::Assign(place(l), rv)
}

fn blk(stmts: Vec<StatementKind>, t: TerminatorKind) -> BasicBlockData {
    BasicBlockData { statements: stmts, terminator: Some(t) }
}

fn call(path: &str, args: Vec<Operand>, dest: usize, target: usize) -> TerminatorKind {
    TerminatorKind::Call {
        func: Operand::Constant(Const::FnDef { path: path.to_string() }),
        args,
        destination: place(dest),
        target: Some(target),
        unwind: UnwindAction::Continue,
    }
}

/// `let mut acc = init; let mut i = 0; while i < 100 { acc = acc <op> body(i); i += 1 }`.
fn reduce_body(op: BinOp, init: u128) -> Body {
    Body {
        basic_blocks: vec![
            blk(vec![assign(1, Rvalue::Use(konst(init))), assign(2, Rvalue::Use(konst(0)))], TerminatorKind::Goto { target: 1 }),
            blk(
                vec![assign(4, Rvalue::Use(copy(2))), assign(3, Rvalue::BinaryOp(BinOp::Lt, Operand::Move(place(4)), konst(100)))],
                TerminatorKind::SwitchInt { discr: Operand::Move(place(3)), targets: vec![(0, 4)], otherwise: 2 },
            ),
            blk(vec![assign(6, Rvalue::Use(copy(2)))], call("app::body", vec![Operand::Move(place(6))], 5, 3)),
            blk(
                vec![
                    assign(7, Rvalue::Use(copy(1))),
                    assign(1, Rvalue::BinaryOp(op, Operand::Move(place(7)), Operand::Move(place(5)))),
                    assign(2, Rvalue::BinaryOp(BinOp::Add, copy(2), konst(1))),
                ],
                TerminatorKind::Goto { target: 1 },
            ),
            blk(vec![], TerminatorKind::Return),
        ],
        arg_count: 0,
        local_tys: vec![LocalTy::Scalar(ScalarTy::U64); 8],
    }
}

fn sigs() -> Vec<Option<FnSigFacts>> {
    vec![
        None,
        None,
        Some(FnSigFacts { inputs: vec![LocalTy::Scalar(ScalarTy::U64)], output: LocalTy::Scalar(ScalarTy::U64) }),
        None,
        None,
    ]
}

#[test]
fn the_reduction_of_a_sum_loop_is_found() {
    let body = reduce_body(BinOp::Add, 0);
    let loops = find_simple_loops(&body);
    assert_eq!(loops.len(), 1);
    assert_eq!(loops[0].header, 1);
    assert_eq!(find_reduction_in_loop(&body, &loops[0], 2, 0), Some((2, ReduceOp::Add, 1)));
    // the call is not on the induction variable when `i` is another local
    assert_eq!(find_reduction_in_loop(&body, &loops[0], 1, 0), None);
}

#[test]
fn a_sum_loop_is_planned() {
    let body = reduce_body(BinOp::Add, 0);
    let loops = find_simple_loops(&body);
    let plan = analyze_loop_for_transform(&body, &loops[0], &sigs()).expect("a reduction loop");
    assert_eq!(plan.entry_bb, 0);
    assert_eq!(plan.exit_bb, 4);
    assert_eq!(plan.acc_local, 1);
    assert_eq!(plan.body_call_bb, 2);
    assert_eq!(plan.end_bound, LoopBound::Const(100));
    assert_eq!(plan.acc_ty, LocalTy::Scalar(ScalarTy::U64));
    assert_eq!(plan.acc_ty_tag, AccTyTag::U64);
    assert_eq!(plan.reduce_op, ReduceOp::Add);
    assert_eq!(plan.iter_start_bits, 0);
}

#[test]
fn a_product_from_zero_is_refused() {
    let body = reduce_body(BinOp::Mul, 0);
    let loops = find_simple_loops(&body);
    assert!(analyze_loop_for_transform(&body, &loops[0], &sigs()).is_none());
    let body = reduce_body(BinOp::Mul, 1);
    let plan = analyze_loop_for_transform(&body, &loops[0], &sigs()).expect("a product loop");
    assert_eq!(plan.reduce_op, ReduceOp::Mul);
}

#[test]
fn a_body_of_another_signature_is_refused() {
    let body = reduce_body(BinOp::Add, 0);
    let loops = find_simple_loops(&body);
    let mut s = sigs();
    s[2] = Some(FnSigFacts { inputs: vec![LocalTy::Scalar(ScalarTy::U32)], output: LocalTy::Scalar(ScalarTy::U64) });
    assert!(analyze_loop_for_transform(&body, &loops[0], &s).is_none());
    assert!(analyze_loop_for_transform(&body, &loops[0], &vec![]).is_none());
}

#[test]
fn a_wrapping_add_fold_is_found() {
    let mut body = reduce_body(BinOp::Add, 0);
    body.basic_blocks[3] = blk(
        vec![assign(7, Rvalue::Use(copy(1)))],
        call("core::num::<impl u64>::wrapping_add", vec![Operand::Move(place(7)), Operand::Move(place(5))], 1, 5),
    );
    body.basic_blocks.push(blk(vec![assign(2, Rvalue::BinaryOp(BinOp::Add, copy(2), konst(1)))], TerminatorKind::Goto { target: 1 }));
    let loops = find_simple_loops(&body);
    assert_eq!(loops[0].body, vec![1, 2, 3, 4, 5]);
    assert_eq!(find_reduction_in_loop(&body, &loops[0], 2, 0), Some((2, ReduceOp::Add, 1)));
}

#[test]
fn a_bound_held_in_a_local_is_traced() {
    let mut body = reduce_body(BinOp::BitXor, 0);
    body.basic_blocks[1].statements[1] = assign(3, Rvalue::BinaryOp(BinOp::Lt, Operand::Move(place(4)), copy(0)));
    let loops = find_simple_loops(&body);
    let plan = analyze_loop_for_transform(&body, &loops[0], &sigs()).expect("a reduction loop");
    assert_eq!(plan.end_bound, LoopBound::Local(0));
    assert_eq!(plan.reduce_op, ReduceOp::BitXor);
}

/// `let mut acc = 0; for x in s { acc += x }` with `s: &[u64]` in `_1`.
fn slice_sum_body(slice_ty: LocalTy) -> Body {
    let mut tys = vec![LocalTy::Other; 9];
    tys[1] = slice_ty;
    tys[2] = LocalTy::Scalar(ScalarTy::U64);
    Body {
        basic_blocks: vec![
            blk(
                vec![assign(2, Rvalue::Use(konst(0))), assign(4, Rvalue::Use(copy(1)))],
                call("<&[u64] as core::iter::IntoIterator>::into_iter", vec![Operand::Move(place(4))], 3, 1),
            ),
            blk(vec![], TerminatorKind::Goto { target: 2 }),
            blk(vec![], call("<core::slice::Iter<'_, u64> as core::iter::Iterator>::next", vec![Operand::Move(place(6))], 5, 3)),
            blk(
                vec![assign(7, Rvalue::Discriminant(place(5)))],
                TerminatorKind::SwitchInt { discr: Operand::Move(place(7)), targets: vec![(0, 5), (1, 4)], otherwise: 6 },
            ),
            blk(vec![assign(2, Rvalue::BinaryOp(BinOp::Add, copy(2), copy(8)))], TerminatorKind::Goto { target: 2 }),
            blk(vec![], TerminatorKind::Return),
            blk(vec![], TerminatorKind::Unreachable),
        ],
        arg_count: 1,
        local_tys: tys,
    }
}

#[test]
fn a_slice_sum_loop_is_planned() {
    let body = slice_sum_body(LocalTy::RefSlice { elem: ScalarTy::U64, mutable: false });
    let loops = find_simple_loops(&body);
    assert_eq!(loops.len(), 1);
    assert_eq!(loops[0].header, 2);
    let plan = analyze_slice_loop_for_transform(&body, &loops[0]).expect("a slice sum loop");
    assert_eq!(plan.entry_bb, 1);
    assert_eq!(plan.exit_bb, 5);
    assert_eq!(plan.acc_local, 2);
    assert_eq!(plan.slice_local, 1);
}

#[test]
fn a_slice_of_another_type_is_refused() {
    let body = slice_sum_body(LocalTy::RefSlice { elem: ScalarTy::U32, mutable: false });
    let loops = find_simple_loops(&body);
    assert!(analyze_slice_loop_for_transform(&body, &loops[0]).is_none());
}

#[test]
fn u64_slices_are_recognised() {

    assert!(is_ref_slice_u64(LocalTy::RefSlice { elem: ScalarTy::U64, mutable: true }));
    assert!(is_ref_slice_u64(LocalTy::RefSlice { elem: ScalarTy::U64, mutable: false }));
    assert!(!is_ref_slice_u64(LocalTy::RefVec { elem: ScalarTy::U64, mutable: false }));
    assert!(!is_ref_slice_u64(LocalTy::Scalar(ScalarTy::U64)));
}

#[test]
fn the_first_zeroed_local_outside_the_loop_is_the_accumulator() {
    let body = slice_sum_body(LocalTy::RefSlice { elem: ScalarTy::U64, mutable: false });
    assert_eq!(find_u64_acc_init_zero_anywhere(&body, &vec![2, 3, 4]), Some(2));
    assert_eq!(find_u64_acc_init_zero_anywhere(&body, &vec![0, 1]), None);
}
