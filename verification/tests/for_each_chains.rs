use j2_passes::combinators::CallFacts;
use j2_passes::for_each::{for_each_helper_of, try_transform_iterator_for_each, ForEachGates};
use j2_passes::idioms::{AccTyTag, ScalarTy};
use j2_passes::mir::{
    BasicBlockData, BorrowKind, Body, Const, LocalTy, Operand, Place, Rvalue, StatementKind, TerminatorKind,
    UnwindAction,
};

fn place(l: usize) -> Place {
    Place { local: l, projection: vec![] }
}

fn call(path: &str, args: Vec<Operand>, dest: usize, target: usize) -> TerminatorKind {
    TerminatorKind::Call {
        func: Operand::Constant(Const::FnDef { path: path.to_string() }),
        args,
        destination: place(dest),
        target: Some(target),
        unwind: UnwindAction::Continue,
    }
}

fn blk(stmts: Vec<StatementKind>, t: TerminatorKind) -> BasicBlockData {
    BasicBlockData { statements: stmts, terminator: Some(t) }
}

fn facts(n: usize) -> Vec<CallFacts> {
    vec![CallFacts {
        coercible: false,
        simple_mul: false,
        is_closure: false,
        fn_callable: false,
        closure_with_captures: false,
        shared_closure_with_captures: false,
        ref_to_same_scalar: None,
        collect_vec_elem: None,
    }; n]
}

fn gates(helpers: &[&str]) -> ForEachGates {
    ForEachGates {
        enabled: true,
        crate_name: "app".to_string(),
        fn_name: "app::main".to_string(),
        dyn_helpers_take_two: true,
        available_helpers: helpers.iter().map(|h| h.to_string()).collect(),
    }
}

/// bb0: _3 = <iter>(copy _1) -> bb1
/// bb1: StorageLive(_5); _4 = Iterator::for_each(move _3, copy _2) -> bb2
/// bb2: return
fn chain(iter: &str, elem: ScalarTy, mutable: bool) -> Body {
    let mut tys = vec![LocalTy::Other; 6];
    tys[1] = LocalTy::RefSlice { elem, mutable };
    Body {
        basic_blocks: vec![
            blk(vec![], call(&format!("core::slice::<impl [T]>::{iter}"), vec![Operand::Copy(place(1))], 3, 1)),
            blk(
                vec![StatementKind::StorageLive(5)],
                call("core::iter::Iterator::for_each", vec![Operand::Move(place(3)), Operand::Copy(place(2))], 4, 2),
            ),
            blk(vec![], TerminatorKind::Return),
        ],
        arg_count: 2,
        local_tys: tys,
    }
}

const HELPERS: [&str; 3] = [
    "parallel_runtime_parallel_for_each_slice_u64",
    "parallel_runtime_parallel_for_each_mut_slice_u64",
    "parallel_runtime_parallel_for_each_slice_closure_dyn_u64",
];

#[test]
fn a_for_each_with_a_plain_closure_calls_the_helper() {
    let mut body = chain("iter", ScalarTy::U64, false);
    let mut f = facts(3);
    f[1].coercible = true;
    let n = try_transform_iterator_for_each(&mut body, &gates(&HELPERS), &f);
    assert_eq!(n, 1);
    assert_eq!(body.local_tys.len(), 7);
    let b0 = &body.basic_blocks[0];
    // the for_each block's statement moves ahead, then the cast
    assert_eq!(b0.statements.len(), 2);
    assert!(matches!(b0.statements[0], StatementKind::StorageLive(5)));
    assert!(matches!(&b0.statements[1], StatementKind::Assign(p, Rvalue::Cast(Operand::Copy(q))) if p.local == 6 && q.local == 2));
    match &b0.terminator {
        Some(TerminatorKind::Call { func, args, destination, target, unwind }) => {
            assert!(matches!(func, Operand::Constant(Const::FnDef { path }) if path == "parallel_runtime_parallel_for_each_slice_u64"));
            assert!(matches!(&args[0], Operand::Copy(p) if p.local == 1));
            assert!(matches!(&args[1], Operand::Move(p) if p.local == 6));
            assert_eq!(destination.local, 4);
            assert_eq!(*target, Some(2));
            assert!(matches!(unwind, UnwindAction::Unreachable));
        }
        _ => panic!("the chain must become a helper call"),
    }
}

#[test]
fn a_capturing_closure_goes_as_dyn_fn() {
    let mut body = chain("iter", ScalarTy::U64, false);
    let mut f = facts(3);
    f[1].shared_closure_with_captures = true;
    let n = try_transform_iterator_for_each(&mut body, &gates(&HELPERS), &f);
    assert_eq!(n, 1);
    assert_eq!(body.local_tys.len(), 8);
    let b0 = &body.basic_blocks[0];
    assert_eq!(b0.statements.len(), 3);
    assert!(matches!(&b0.statements[1], StatementKind::Assign(p, Rvalue::Ref(BorrowKind::Shared, q)) if p.local == 6 && q.local == 2));
    assert!(matches!(&b0.statements[2], StatementKind::Assign(p, Rvalue::Cast(Operand::Copy(q))) if p.local == 7 && q.local == 6));
    match &b0.terminator {
        Some(TerminatorKind::Call { func, args, .. }) => {
            assert!(matches!(func, Operand::Constant(Const::FnDef { path }) if path == "parallel_runtime_parallel_for_each_slice_closure_dyn_u64"));
            assert!(matches!(&args[1], Operand::Move(p) if p.local == 7));
        }
        _ => panic!("the chain must become a helper call"),
    }
    // a mutable walk never takes a capturing closure
    let mut body = chain("iter_mut", ScalarTy::U64, true);
    assert_eq!(try_transform_iterator_for_each(&mut body, &gates(&HELPERS), &f), 0);
}

#[test]
fn iter_mut_needs_a_unique_reference() {
    let mut f = facts(3);
    f[1].coercible = true;
    let mut body = chain("iter_mut", ScalarTy::U64, false);
    assert_eq!(try_transform_iterator_for_each(&mut body, &gates(&HELPERS), &f), 0);
    let mut body = chain("iter_mut", ScalarTy::U64, true);
    assert_eq!(try_transform_iterator_for_each(&mut body, &gates(&HELPERS), &f), 1);
    assert!(matches!(&body.basic_blocks[0].terminator, Some(TerminatorKind::Call { func: Operand::Constant(Const::FnDef { path }), .. }) if path == "parallel_runtime_parallel_for_each_mut_slice_u64"));
    // without the u64 read-only helper nothing happens
    let mut body = chain("iter_mut", ScalarTy::U64, true);
    assert_eq!(try_transform_iterator_for_each(&mut body, &gates(&HELPERS[1..]), &f), 0);
}

#[test]
fn for_each_helper_names() {
    assert_eq!(for_each_helper_of(AccTyTag::Usize, false, false), Some("parallel_runtime_parallel_for_each_slice_usize"));
    assert_eq!(for_each_helper_of(AccTyTag::Usize, true, false), None);
    assert_eq!(for_each_helper_of(AccTyTag::Usize, false, true), None);
    assert_eq!(for_each_helper_of(AccTyTag::I32, false, true), Some("parallel_runtime_parallel_for_each_slice_closure_dyn_i32"));
}
