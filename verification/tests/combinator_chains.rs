use j2_passes::combinators::{try_transform_iterator_combinators, CombinatorGates, CallFacts, comb_helper_of, CombKind};
use j2_passes::idioms::{AccTyTag, ScalarTy};
use j2_passes::iter_methods::IterMethod;
use j2_passes::mir::{
    BasicBlockData, BorrowKind, Body, Const, LocalTy, Operand, Place, ProjectionElem, Rvalue, StatementKind,
    TerminatorKind, UnwindAction,
};

fn place(l: usize) -> Place {
    Place { local: l, projection: vec![] }
}

fn call(path: &str, args: Vec<Operand>, dest: usize, target: usize) -> TerminatorKind {
    TerminatorKind::Call {
        func: Operand::Constant(Const::FnDef { path: path.to_string() }),
        args,
        destination: place(dest),
        target: Some(target),
        unwind: UnwindAction::Continue,
    }
}

fn blk(stmts: Vec<StatementKind>, t: TerminatorKind) -> BasicBlockData {
    BasicBlockData { statements: stmts, terminator: Some(t) }
}

fn fn_item(path: &str) -> Operand {
    Operand::Constant(Const::FnDef { path: path.to_string() })
}

const ITER: &str = "core::slice::<impl [T]>::iter";

fn gates(helpers: &[&str], float_opt_in: bool) -> CombinatorGates {
    CombinatorGates {
        enabled: true,
        crate_name: "app".to_string(),
        fn_name: "app::main".to_string(),
        float_opt_in,
        available_helpers: helpers.iter().map(|h| h.to_string()).collect(),
    }
}

fn plain(n: usize) -> Vec<CallFacts> {
    vec![CallFacts {
        coercible: false,
        simple_mul: false,
        is_closure: false,
        fn_callable: false,
        closure_with_captures: false,
        shared_closure_with_captures: false,
        ref_to_same_scalar: None,
        collect_vec_elem: None,
    }; n]
}

/// bb0: _6 = &(*_1); _3 = iter(copy _6) -> bb1
/// bb1: _4 = Iterator::filter(move _3, copy _2) -> bb2
/// bb2: _5 = Iterator::<method>(move _4) -> bb3
/// bb3: return
fn filter_chain(method: &str, elem: ScalarTy) -> Body {
    let reborrow = StatementKind::Assign(
        place(6),
        Rvalue::Ref(BorrowKind::Shared, Place { local: 1, projection: vec![ProjectionElem::Deref] }),
    );
    let mut tys = vec![LocalTy::Other; 7];
    tys[1] = LocalTy::RefSlice { elem, mutable: false };
    Body {
        basic_blocks: vec![
            blk(vec![reborrow], call(ITER, vec![Operand::Copy(place(6))], 3, 1)),
            blk(vec![], call("core::iter::Iterator::filter", vec![Operand::Move(place(3)), Operand::Copy(place(2))], 4, 2)),
            blk(vec![], call(&format!("core::iter::Iterator::{method}"), vec![Operand::Move(place(4))], 5, 3)),
            blk(vec![], TerminatorKind::Return),
        ],
        arg_count: 2,
        local_tys: tys,
    }
}

#[test]
fn a_filtered_sum_calls_the_filter_helper() {
    let mut body = filter_chain("sum", ScalarTy::U64);
    let mut facts = plain(4);
    facts[1].coercible = true;
    let g = gates(&["parallel_runtime_parallel_reduce_sum_slice_filter_u64"], false);
    let n = try_transform_iterator_combinators(&mut body, &g, &facts);
    assert_eq!(n, 1);
    assert_eq!(body.local_tys.len(), 8);
    let b0 = &body.basic_blocks[0];
    assert_eq!(b0.statements.len(), 2);
    match &b0.statements[1] {
        StatementKind::Assign(p, Rvalue::Cast(Operand::Copy(q))) => {
            assert_eq!(p.local, 7);
            assert_eq!(q.local, 2);
        }
        _ => panic!("the predicate must be cast"),
    }
    match &b0.terminator {
        Some(TerminatorKind::Call { func, args, destination, target, unwind }) => {
            assert!(matches!(func, Operand::Constant(Const::FnDef { path }) if path == "parallel_runtime_parallel_reduce_sum_slice_filter_u64"));
            assert_eq!(args.len(), 2);
            // the re-borrow is traced back to the parameter
            assert!(matches!(&args[0], Operand::Copy(p) if p.local == 1 && p.projection.is_empty()));
            assert!(matches!(&args[1], Operand::Move(p) if p.local == 7 && p.projection.is_empty()));
            assert_eq!(destination.local, 5);
            assert_eq!(*target, Some(3));
            assert!(matches!(unwind, UnwindAction::Unreachable));
        }
        _ => panic!("the chain must become a helper call"),
    }
    assert!(matches!(body.basic_blocks[1].terminator, Some(TerminatorKind::Call { .. })));
}

#[test]
fn a_filter_needs_a_coercible_predicate_and_a_helper() {
    // the predicate captures: not coercible
    let mut body = filter_chain("sum", ScalarTy::U64);
    let g = gates(&["parallel_runtime_parallel_reduce_sum_slice_filter_u64"], false);
    assert_eq!(try_transform_iterator_combinators(&mut body, &g, &plain(4)), 0);
    assert_eq!(body.basic_blocks[0].statements.len(), 1);
    // a count of u32 has no helper
    let mut body = filter_chain("count", ScalarTy::U32);
    let mut facts = plain(4);
    facts[1].coercible = true;
    let g = gates(
        &["parallel_runtime_parallel_reduce_sum_slice_filter_u64", "parallel_runtime_parallel_reduce_count_slice_filter_u64"],
        false,
    );
    assert_eq!(try_transform_iterator_combinators(&mut body, &g, &facts), 0);
    // a count of u64 has one
    let mut body = filter_chain("count", ScalarTy::U64);
    assert_eq!(try_transform_iterator_combinators(&mut body, &g, &facts), 1);
    // without the u64 filtered sum helper nothing is rewritten
    let mut body = filter_chain("count", ScalarTy::U64);
    let g = gates(&["parallel_runtime_parallel_reduce_count_slice_filter_u64"], false);
    assert_eq!(try_transform_iterator_combinators(&mut body, &g, &facts), 0);
}

/// bb0: _3 = iter(copy _1) -> bb1; bb1: _4 = iter(copy _2) -> bb2;
/// bb2: _5 = zip(move _3, move _4) -> bb3; bb3: _6 = map(move _5, f) -> bb4;
/// bb4: _7 = sum(move _6) -> bb5; bb5: return
fn zip_chain(elem: ScalarTy) -> Body {
    let mut tys = vec![LocalTy::Other; 8];
    tys[1] = LocalTy::RefSlice { elem, mutable: false };
    tys[2] = LocalTy::RefSlice { elem, mutable: false };
    Body {
        basic_blocks: vec![
            blk(vec![], call(ITER, vec![Operand::Copy(place(1))], 3, 1)),
            blk(vec![], call(ITER, vec![Operand::Copy(place(2))], 4, 2)),
            blk(vec![], call("core::iter::Iterator::zip", vec![Operand::Move(place(3)), Operand::Move(place(4))], 5, 3)),
            blk(vec![], call("core::iter::Iterator::map", vec![Operand::Move(place(5)), fn_item("app::mul")], 6, 4)),
            blk(vec![], call("core::iter::Iterator::sum", vec![Operand::Move(place(6))], 7, 5)),
            blk(vec![], TerminatorKind::Return),
        ],
        arg_count: 2,
        local_tys: tys,
    }
}

const ALL_ZIP: [&str; 5] = [
    "parallel_runtime_parallel_reduce_sum_slice_filter_u64",
    "parallel_runtime_parallel_reduce_sum_slice_zip_mul_u64",
    "parallel_runtime_parallel_reduce_sum_slice_zip_map_u64",
    "parallel_runtime_parallel_reduce_sum_slice_zip_mul_f64",
    "parallel_runtime_parallel_reduce_sum_slice_zip_map_f64",
];

#[test]
fn a_dot_product_calls_the_zip_mul_helper() {
    let mut body = zip_chain(ScalarTy::U64);
    let mut facts = plain(6);
    facts[3].simple_mul = true;
    let n = try_transform_iterator_combinators(&mut body, &gates(&ALL_ZIP, false), &facts);
    assert_eq!(n, 1);
    assert_eq!(body.local_tys.len(), 8);
    let b0 = &body.basic_blocks[0];
    assert!(b0.statements.is_empty());
    match &b0.terminator {
        Some(TerminatorKind::Call { func, args, destination, target, .. }) => {
            assert!(matches!(func, Operand::Constant(Const::FnDef { path }) if path == "parallel_runtime_parallel_reduce_sum_slice_zip_mul_u64"));
            assert_eq!(args.len(), 2);
            assert!(matches!(&args[0], Operand::Copy(p) if p.local == 1));
            assert!(matches!(&args[1], Operand::Copy(p) if p.local == 2));
            assert_eq!(destination.local, 7);
            assert_eq!(*target, Some(5));
        }
        _ => panic!("the chain must become a helper call"),
    }
}

#[test]
fn another_combiner_calls_the_zip_map_helper() {
    let mut body = zip_chain(ScalarTy::U64);
    let n = try_transform_iterator_combinators(&mut body, &gates(&ALL_ZIP, false), &plain(6));
    assert_eq!(n, 1);
    assert_eq!(body.local_tys.len(), 9);
    let b0 = &body.basic_blocks[0];
    assert_eq!(b0.statements.len(), 1);
    assert!(matches!(&b0.statements[0], StatementKind::Assign(p, Rvalue::Cast(Operand::Constant(Const::FnDef { path }))) if p.local == 8 && path == "app::mul"));
    match &b0.terminator {
        Some(TerminatorKind::Call { func, args, .. }) => {
            assert!(matches!(func, Operand::Constant(Const::FnDef { path }) if path == "parallel_runtime_parallel_reduce_sum_slice_zip_map_u64"));
            assert_eq!(args.len(), 3);
            assert!(matches!(&args[2], Operand::Move(p) if p.local == 8));
        }
        _ => panic!("the chain must become a helper call"),
    }
}

#[test]
fn a_float_zip_needs_the_opt_in() {
    let mut body = zip_chain(ScalarTy::F64);
    assert_eq!(try_transform_iterator_combinators(&mut body, &gates(&ALL_ZIP, false), &plain(6)), 0);
    assert!(matches!(body.basic_blocks[0].terminator, Some(TerminatorKind::Call { .. })));
    let mut body = zip_chain(ScalarTy::F64);
    assert_eq!(try_transform_iterator_combinators(&mut body, &gates(&ALL_ZIP, true), &plain(6)), 1);
    // slices of different element types do not pair
    let mut body = zip_chain(ScalarTy::U64);
    body.local_tys[2] = LocalTy::RefSlice { elem: ScalarTy::U32, mutable: false };
    assert_eq!(try_transform_iterator_combinators(&mut body, &gates(&ALL_ZIP, false), &plain(6)), 0);
}

#[test]
fn helper_names() {
    assert_eq!(comb_helper_of(CombKind::Filter(IterMethod::Product), AccTyTag::I64), Some("parallel_runtime_parallel_reduce_mul_slice_filter_i64"));
    assert_eq!(comb_helper_of(CombKind::Filter(IterMethod::Product), AccTyTag::U32), None);
    assert_eq!(comb_helper_of(CombKind::ZipMap, AccTyTag::Usize), None);
}
