use j2_passes::combinators::CallFacts;
use j2_passes::generic_iter::{try_transform_generic_iter_patterns, GenericIterGates};
use j2_passes::mir::{
    AggregateKind, BasicBlockData, BorrowKind, Body, Const, LocalTy, Operand, Place, ProjectionElem, Rvalue, StatementKind,
    TerminatorKind, UnwindAction,
};

fn place(l: usize) -> Place {
    Place { local: l, projection: vec![] }
}

fn call(path: &str, args: Vec<Operand>, dest: usize, target: usize) -> TerminatorKind {
    TerminatorKind::Call {
        func: Operand::Constant(Const::FnDef { path: path.to_string() }),
        args,
        destination: place(dest),
        target: Some(target),
        unwind: UnwindAction::Continue,
    }
}

fn blk(stmts: Vec<StatementKind>, t: TerminatorKind) -> BasicBlockData {
    BasicBlockData { statements: stmts, terminator: Some(t) }
}

fn closure_facts(n: usize, at: usize) -> Vec<CallFacts> {
    let mut v = vec![CallFacts {
        coercible: false,
        simple_mul: false,
        is_closure: false,
        fn_callable: false,
        closure_with_captures: false,
        shared_closure_with_captures: false,
        ref_to_same_scalar: None,
        collect_vec_elem: None,
    }; n];
    v[at].is_closure = true;
    v[at].fn_callable = true;
    v
}

const FOR_EACH: &str = "parallel_runtime_parallel_for_each_slice_dyn_generic";
const FILTER_COUNT: &str = "parallel_runtime_parallel_filter_count_slice_dyn_generic";

fn gates(helpers: &[&str]) -> GenericIterGates {
    GenericIterGates {
        enabled: true,
        crate_name: "app".to_string(),
        fn_name: "app::main".to_string(),
        available_helpers: helpers.iter().map(|h| h.to_string()).collect(),
        for_each_helper_takes_two: true,
        filter_count_helper_takes_two: true,
    }
}

/// bb0: StorageLive(_2); _6 = &(*_1); _3 = slice::iter(move _6) -> bb1
/// bb1: StorageDead(_7); _8 = const 0; _4 = Iterator::for_each(move _3, move _2) -> bb2
/// bb2: return
fn for_each_chain() -> Body {
    Body {
        basic_blocks: vec![
            blk(
                vec![
                    StatementKind::StorageLive(2),
                    StatementKind::Assign(
                        place(6),
                        Rvalue::Ref(BorrowKind::Shared, Place { local: 1, projection: vec![ProjectionElem::Deref] }),
                    ),
                ],
                call("core::slice::<impl [T]>::iter", vec![Operand::Move(place(6))], 3, 1),
            ),
            blk(
                vec![
                    StatementKind::StorageDead(7),
                    StatementKind::Assign(place(8), Rvalue::Use(Operand::Constant(Const::Other))),
                ],
                call("core::iter::Iterator::for_each", vec![Operand::Move(place(3)), Operand::Move(place(2))], 4, 2),
            ),
            blk(vec![], TerminatorKind::Return),
        ],
        arg_count: 1,
        local_tys: vec![LocalTy::Other; 9],
    }
}

#[test]
fn a_generic_for_each_goes_to_the_dyn_helper() {
    let mut body = for_each_chain();
    let n = try_transform_generic_iter_patterns(
        &mut body,
        &gates(&[FOR_EACH, FILTER_COUNT]),
        &closure_facts(3, 1),
        &vec![true, false, false],
    );
    assert_eq!(n, 1);
    assert_eq!(body.local_tys.len(), 11);
    let b0 = &body.basic_blocks[0];
    // the closure's storage marker goes, the re-borrow stays, the
    // for_each block's statements (without storage markers) move ahead,
    // then the borrow of the closure and its unsizing
    assert_eq!(b0.statements.len(), 4);
    assert!(matches!(&b0.statements[0], StatementKind::Assign(p, Rvalue::Ref(..)) if p.local == 6));
    assert!(matches!(&b0.statements[1], StatementKind::Assign(p, Rvalue::Use(_)) if p.local == 8));
    assert!(matches!(&b0.statements[2], StatementKind::Assign(p, Rvalue::Ref(BorrowKind::Shared, q)) if p.local == 9 && q.local == 2));
    assert!(matches!(&b0.statements[3], StatementKind::Assign(p, Rvalue::Cast(Operand::Copy(q))) if p.local == 10 && q.local == 9));
    match &b0.terminator {
        Some(TerminatorKind::Call { func, args, destination, target, unwind }) => {
            assert!(matches!(func, Operand::Constant(Const::FnDef { path }) if path == FOR_EACH));
            // the slice is read through the re-borrow
            assert!(matches!(&args[0], Operand::Copy(p) if p.local == 1 && p.projection.is_empty()));
            assert!(matches!(&args[1], Operand::Move(p) if p.local == 10));
            assert_eq!(destination.local, 4);
            assert_eq!(*target, Some(2));
            assert!(matches!(unwind, UnwindAction::Unreachable));
        }
        _ => panic!("the chain must become a helper call"),
    }
    // the other blocks stay as they were
    assert_eq!(body.basic_blocks[1].statements.len(), 2);
}

#[test]
fn a_primitive_slice_or_a_missing_helper_is_left_alone() {
    let mut body = for_each_chain();
    let n = try_transform_generic_iter_patterns(
        &mut body,
        &gates(&[FOR_EACH, FILTER_COUNT]),
        &closure_facts(3, 1),
        &vec![false, false, false],
    );
    assert_eq!(n, 0);
    assert_eq!(body.local_tys.len(), 9);
    let mut body = for_each_chain();
    let n = try_transform_generic_iter_patterns(&mut body, &gates(&[FOR_EACH]), &closure_facts(3, 1), &vec![true, false, false]);
    assert_eq!(n, 0);
    assert_eq!(body.basic_blocks[0].statements.len(), 2);
}

#[test]
fn a_function_item_body_is_no_closure() {
    let mut body = for_each_chain();
    let mut f = closure_facts(3, 1);
    f[1].is_closure = false;
    let n = try_transform_generic_iter_patterns(&mut body, &gates(&[FOR_EACH, FILTER_COUNT]), &f, &vec![true, false, false]);
    assert_eq!(n, 0);
}

/// bb0: _3 = slice::iter(copy _1) -> bb1
/// bb1: _4 = Iterator::filter(move _3, move _2) -> bb2
/// bb2: StorageLive(_9); _5 = Iterator::count(move _4) -> bb3
/// bb3: return
#[test]
fn a_generic_filter_count_goes_to_the_dyn_helper() {
    let mut body = Body {
        basic_blocks: vec![
            blk(vec![], call("core::slice::<impl [T]>::iter", vec![Operand::Copy(place(1))], 3, 1)),
            blk(vec![], call("core::iter::Iterator::filter", vec![Operand::Move(place(3)), Operand::Move(place(2))], 4, 2)),
            blk(vec![StatementKind::StorageLive(9)], call("core::iter::Iterator::count", vec![Operand::Move(place(4))], 5, 3)),
            blk(vec![], TerminatorKind::Return),
        ],
        arg_count: 1,
        local_tys: vec![LocalTy::Other; 10],
    };
    let n = try_transform_generic_iter_patterns(
        &mut body,
        &gates(&[FOR_EACH, FILTER_COUNT]),
        &closure_facts(4, 1),
        &vec![true, false, false, false],
    );
    assert_eq!(n, 1);
    let b0 = &body.basic_blocks[0];
    assert_eq!(b0.statements.len(), 2);
    match &b0.terminator {
        Some(TerminatorKind::Call { func, args, destination, target, .. }) => {
            assert!(matches!(func, Operand::Constant(Const::FnDef { path }) if path == FILTER_COUNT));
            assert!(matches!(&args[0], Operand::Copy(p) if p.local == 1));
            assert!(matches!(&args[1], Operand::Move(p) if p.local == 11));
            assert_eq!(destination.local, 5);
            assert_eq!(*target, Some(3));
        }
        _ => panic!("the chain must become a helper call"),
    }
    // without two-input helpers nothing is rewritten
    let mut g = gates(&[FOR_EACH, FILTER_COUNT]);
    g.filter_count_helper_takes_two = false;
    let mut body2 = Body {
        basic_blocks: vec![
            blk(vec![], call("core::slice::<impl [T]>::iter", vec![Operand::Copy(place(1))], 3, 1)),
            blk(vec![], call("core::iter::Iterator::filter", vec![Operand::Move(place(3)), Operand::Move(place(2))], 4, 2)),
            blk(vec![], call("core::iter::Iterator::count", vec![Operand::Move(place(4))], 5, 3)),
            blk(vec![], TerminatorKind::Return),
        ],
        arg_count: 1,
        local_tys: vec![LocalTy::Other; 10],
    };
    assert_eq!(try_transform_generic_iter_patterns(&mut body2, &g, &closure_facts(4, 1), &vec![true, false, false, false]), 0);
}

/// bb0: _7 = &raw const (*_1); _6 = _7 as *const T; _5 = NonNull(move _6);
///      _4 = slice::Iter { ptr: move _5, end: copy _9 }; _3 = Filter { iter: move _4, pred: move _2 };
///      _8 = Iterator::count(move _3) -> bb1
/// bb1: return
#[test]
fn an_inlined_filter_count_is_traced_to_its_slice() {
    let adt = |p: &str| AggregateKind::Adt { path: p.to_string(), first_ty: None };
    let body = || Body {
        basic_blocks: vec![
            blk(
                vec![
                    StatementKind::StorageLive(2),
                    StatementKind::Assign(place(7), Rvalue::RawPtr(Place { local: 1, projection: vec![ProjectionElem::Deref] })),
                    StatementKind::Assign(place(6), Rvalue::Cast(Operand::Copy(place(7)))),
                    StatementKind::Assign(place(5), Rvalue::Aggregate(AggregateKind::Other, vec![Operand::Move(place(6))])),
                    StatementKind::Assign(
                        place(4),
                        Rvalue::Aggregate(adt("core::slice::iter::Iter"), vec![Operand::Move(place(5)), Operand::Copy(place(9))]),
                    ),
                    StatementKind::Assign(
                        place(3),
                        Rvalue::Aggregate(adt("core::iter::adapters::filter::Filter"), vec![Operand::Move(place(4)), Operand::Move(place(2))]),
                    ),
                ],
                call("core::iter::Iterator::count", vec![Operand::Move(place(3))], 8, 1),
            ),
            blk(vec![], TerminatorKind::Return),
        ],
        arg_count: 1,
        local_tys: vec![LocalTy::Other; 10],
    };
    let mut b = body();
    let n = try_transform_generic_iter_patterns(&mut b, &gates(&[FOR_EACH, FILTER_COUNT]), &closure_facts(2, 0), &vec![true, false]);
    assert_eq!(n, 1);
    let b0 = &b.basic_blocks[0];
    // the closure's storage marker goes; nothing is hoisted
    assert_eq!(b0.statements.len(), 7);
    assert!(matches!(&b0.statements[5], StatementKind::Assign(p, Rvalue::Ref(BorrowKind::Shared, q)) if p.local == 10 && q.local == 2));
    match &b0.terminator {
        Some(TerminatorKind::Call { func, args, destination, target, .. }) => {
            assert!(matches!(func, Operand::Constant(Const::FnDef { path }) if path == FILTER_COUNT));
            assert!(matches!(&args[0], Operand::Copy(p) if p.local == 1));
            assert!(matches!(&args[1], Operand::Move(p) if p.local == 11));
            assert_eq!(destination.local, 8);
            assert_eq!(*target, Some(1));
        }
        _ => panic!("the count must become a helper call"),
    }
    // a raw pointer to the slice itself, not to what it points at, is no trace
    let mut b = body();
    b.basic_blocks[0].statements[1] = StatementKind::Assign(place(7), Rvalue::RawPtr(place(1)));
    assert_eq!(try_transform_generic_iter_patterns(&mut b, &gates(&[FOR_EACH, FILTER_COUNT]), &closure_facts(2, 0), &vec![true, false]), 0);
}
