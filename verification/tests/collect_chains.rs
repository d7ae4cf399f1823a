use j2_passes::collect::{collect_helper_of, try_transform_iterator_collect, CollectGates};
use j2_passes::combinators::CallFacts;
use j2_passes::idioms::{AccTyTag, ScalarTy};
use j2_passes::mir::{
    AggregateKind, BasicBlockData, Body, Const, LocalTy, Operand, Place, Rvalue, StatementKind, TerminatorKind,
    UnwindAction,
};

fn place(l: usize) -> Place {
    Place { local: l, projection: vec![] }
}

fn call(path: &str, args: Vec<Operand>, dest: usize, target: usize) -> TerminatorKind {
    TerminatorKind::Call {
        func: Operand::Constant(Const::FnDef { path: path.to_string() }),
        args,
        destination: place(dest),
        target: Some(target),
        unwind: UnwindAction::Continue,
    }
}

fn blk(stmts: Vec<StatementKind>, t: TerminatorKind) -> BasicBlockData {
    BasicBlockData { statements: stmts, terminator: Some(t) }
}

fn facts(n: usize) -> Vec<CallFacts> {
    vec![CallFacts {
        coercible: false,
        simple_mul: false,
        is_closure: false,
        fn_callable: false,
        closure_with_captures: false,
        shared_closure_with_captures: false,
        ref_to_same_scalar: None,
        collect_vec_elem: None,
    }; n]
}

fn gates(helpers: &[&str]) -> CollectGates {
    CollectGates {
        enabled: true,
        crate_name: "app".to_string(),
        fn_name: "app::main".to_string(),
        available_helpers: helpers.iter().map(|h| h.to_string()).collect(),
    }
}

const HELPERS: [&str; 3] = [
    "parallel_runtime_parallel_collect_range_map_u64",
    "parallel_runtime_parallel_collect_range_map_i32",
    "parallel_runtime_parallel_collect_slice_map_u32",
];

/// bb0: _3 = Range { start: 0, end: copy _1 }; _4 = Iterator::map(move _3, copy _2) -> bb1
/// bb1: _5 = Iterator::collect(move _4) -> bb2; bb2: return
fn range_chain(start: u128) -> Body {
    let range = StatementKind::Assign(
        place(3),
        Rvalue::Aggregate(
            AggregateKind::Adt { path: "core::ops::Range".to_string(), first_ty: Some(ScalarTy::U64) },
            vec![Operand::Constant(Const::Scalar { bits: start, size_bits: 64 }), Operand::Copy(place(1))],
        ),
    );
    Body {
        basic_blocks: vec![
            blk(vec![range], call("core::iter::Iterator::map", vec![Operand::Move(place(3)), Operand::Copy(place(2))], 4, 1)),
            blk(vec![], call("core::iter::Iterator::collect", vec![Operand::Move(place(4))], 5, 2)),
            blk(vec![], TerminatorKind::Return),
        ],
        arg_count: 2,
        local_tys: vec![LocalTy::Other; 6],
    }
}

fn range_facts(elem: ScalarTy) -> Vec<CallFacts> {
    let mut f = facts(3);
    f[0].coercible = true;
    f[1].collect_vec_elem = Some(elem);
    f
}

#[test]
fn a_mapped_range_collects_through_the_range_helper() {
    let mut body = range_chain(0);
    let n = try_transform_iterator_collect(&mut body, &gates(&HELPERS), &range_facts(ScalarTy::I32));
    assert_eq!(n, 1);
    assert_eq!(body.local_tys.len(), 7);
    let b0 = &body.basic_blocks[0];
    assert_eq!(b0.statements.len(), 2);
    assert!(matches!(&b0.statements[1], StatementKind::Assign(p, Rvalue::Cast(Operand::Copy(q))) if p.local == 6 && q.local == 2));
    match &b0.terminator {
        Some(TerminatorKind::Call { func, args, destination, target, unwind }) => {
            assert!(matches!(func, Operand::Constant(Const::FnDef { path }) if path == "parallel_runtime_parallel_collect_range_map_i32"));
            assert_eq!(args.len(), 3);
            assert!(matches!(&args[0], Operand::Constant(Const::Scalar { bits: 0, size_bits: 64 })));
            assert!(matches!(&args[1], Operand::Copy(p) if p.local == 1));
            assert!(matches!(&args[2], Operand::Move(p) if p.local == 6));
            assert_eq!(destination.local, 5);
            assert_eq!(*target, Some(2));
            assert!(matches!(unwind, UnwindAction::Unreachable));
        }
        _ => panic!("the chain must become a helper call"),
    }
}

#[test]
fn a_range_must_start_at_zero_and_collect_into_a_helper_type() {
    let mut body = range_chain(1);
    assert_eq!(try_transform_iterator_collect(&mut body, &gates(&HELPERS), &range_facts(ScalarTy::U64)), 0);
    let mut body = range_chain(0);
    // no helper for u32 ranges in this runtime
    assert_eq!(try_transform_iterator_collect(&mut body, &gates(&HELPERS), &range_facts(ScalarTy::U32)), 0);
    // collecting into something other than a Vec of scalars
    let mut f = range_facts(ScalarTy::U64);
    f[1].collect_vec_elem = None;
    let mut body = range_chain(0);
    assert_eq!(try_transform_iterator_collect(&mut body, &gates(&HELPERS), &f), 0);
    // the u64 range helper gates the whole pass
    let mut body = range_chain(0);
    assert_eq!(try_transform_iterator_collect(&mut body, &gates(&HELPERS[1..]), &range_facts(ScalarTy::I32)), 0);
}

/// bb0: _3 = iter(copy _1) -> bb1; bb1: _4 = map(move _3, copy _2) -> bb2;
/// bb2: _5 = collect(move _4) -> bb3; bb3: return
fn slice_chain(elem: ScalarTy) -> Body {
    let mut tys = vec![LocalTy::Other; 6];
    tys[1] = LocalTy::RefSlice { elem, mutable: false };
    Body {
        basic_blocks: vec![
            blk(vec![], call("core::slice::<impl [T]>::iter", vec![Operand::Copy(place(1))], 3, 1)),
            blk(vec![], call("core::iter::Iterator::map", vec![Operand::Move(place(3)), Operand::Copy(place(2))], 4, 2)),
            blk(vec![], call("core::iter::Iterator::collect", vec![Operand::Move(place(4))], 5, 3)),
            blk(vec![], TerminatorKind::Return),
        ],
        arg_count: 2,
        local_tys: tys,
    }
}

#[test]
fn a_mapped_slice_collects_through_the_slice_helper() {
    let mut f = facts(4);
    f[1].coercible = true;
    f[2].collect_vec_elem = Some(ScalarTy::U32);
    let mut body = slice_chain(ScalarTy::U32);
    assert_eq!(try_transform_iterator_collect(&mut body, &gates(&HELPERS), &f), 1);
    match &body.basic_blocks[0].terminator {
        Some(TerminatorKind::Call { func, args, destination, target, .. }) => {
            assert!(matches!(func, Operand::Constant(Const::FnDef { path }) if path == "parallel_runtime_parallel_collect_slice_map_u32"));
            assert_eq!(args.len(), 2);
            assert!(matches!(&args[0], Operand::Copy(p) if p.local == 1));
            assert!(matches!(&args[1], Operand::Move(p) if p.local == 6));
            assert_eq!(destination.local, 5);
            assert_eq!(*target, Some(3));
        }
        _ => panic!("the chain must become a helper call"),
    }
    // the Vec must hold the slice's element type
    let mut body = slice_chain(ScalarTy::U64);
    assert_eq!(try_transform_iterator_collect(&mut body, &gates(&HELPERS), &f), 0);
}

#[test]
fn collect_helper_names() {
    assert_eq!(collect_helper_of(true, AccTyTag::I64), Some("parallel_runtime_parallel_collect_range_map_i64"));
    assert_eq!(collect_helper_of(false, AccTyTag::F64), None);
}
