use j2_passes::combinators::CallFacts;
use j2_passes::idioms::ScalarTy;
use j2_passes::iter_methods::{
    find_iter_method_plans, try_transform_iterator_methods, try_transform_range_iterator_methods, IterMethod,
    IterTransformGates,
};
use j2_passes::idioms::AccTyTag;
use j2_passes::mir::{
    AggregateKind, BasicBlockData, Body, Const, LocalTy, Operand, Place, Rvalue, StatementKind, TerminatorKind, UnOp,
    UnwindAction,
};

fn place(l: usize) -> Place {
    Place { local: l, projection: vec![] }
}

fn call(path: &str, args: Vec<Operand>, dest: usize, target: usize) -> TerminatorKind {
    TerminatorKind::Call {
        func: Operand::Constant(Const::FnDef { path: path.to_string() }),
        args,
        destination: place(dest),
        target: Some(target),
        unwind: UnwindAction::Continue,
    }
}

fn blk(t: TerminatorKind) -> BasicBlockData {
    BasicBlockData { statements: vec![], terminator: Some(t) }
}

/// `_0 = _1.iter().<method>()` with `_1: &[elem]`.
fn chain_body(method: &str, elem: ScalarTy) -> Body {
    Body {
        basic_blocks: vec![
            blk(call("core::slice::<impl [T]>::iter", vec![Operand::Copy(place(1))], 2, 1)),
            blk(call(
                &format!("core::iter::traits::iterator::Iterator::{}", method),
                vec![Operand::Move(place(2))],
                0,
                2,
            )),
            blk(TerminatorKind::Return),
        ],
        arg_count: 1,
        local_tys: vec![
            LocalTy::Scalar(elem),
            LocalTy::RefSlice { elem, mutable: false },
            LocalTy::Other,
        ],
    }
}

fn gates(overflow_checks: bool, helpers: &[&str]) -> IterTransformGates {
    IterTransformGates {
        enabled: true,
        crate_name: "app".to_string(),
        fn_name: "app::total".to_string(),
        overflow_checks,
        dyn_helpers_take_two: true,
        available_helpers: helpers.iter().map(|s| s.to_string()).collect(),
    }
}

fn no_facts(n: usize) -> Vec<CallFacts> {
    vec![
        CallFacts {
            coercible: false,
            simple_mul: false,
            is_closure: false,
            fn_callable: false,
            closure_with_captures: false,
            shared_closure_with_captures: false,
            ref_to_same_scalar: None,
            collect_vec_elem: None,
        };
        n
    ]
}

fn run(body: &mut Body, g: &IterTransformGates) -> usize {
    let facts = no_facts(body.basic_blocks.len());
    try_transform_iterator_methods(body, g, &facts)
}

const SUM_U64: &str = "parallel_runtime_parallel_reduce_sum_slice_u64";

#[test]
fn a_slice_sum_chain_is_found() {
    let body = chain_body("sum", ScalarTy::U64);
    let plans = find_iter_method_plans(&body);
    assert_eq!(plans.len(), 1);
    assert_eq!(plans[0].bb_iter, 0);
    assert_eq!(plans[0].slice_local, 1);
    assert!(!plans[0].slice_is_move);
    assert_eq!(plans[0].method_dest.local, 0);
    assert_eq!(plans[0].after_method_bb, 2);
    assert_eq!(plans[0].method, IterMethod::Sum);
    assert_eq!(plans[0].elem_tag, AccTyTag::U64);
}

#[test]
fn a_slice_sum_becomes_a_helper_call() {
    let mut body = chain_body("sum", ScalarTy::U64);
    let n = run(&mut body, &gates(false, &[SUM_U64]));
    assert_eq!(n, 1);
    match &body.basic_blocks[0].terminator {
        Some(TerminatorKind::Call { func: Operand::Constant(Const::FnDef { path }), args, destination, target, unwind }) => {
            assert_eq!(path, SUM_U64);
            assert_eq!(args.len(), 1);
            assert!(matches!(&args[0], Operand::Copy(p) if p.local == 1 && p.projection.is_empty()));
            assert_eq!(destination.local, 0);
            assert_eq!(*target, Some(2));
            assert_eq!(*unwind, UnwindAction::Unreachable);
        }
        other => panic!("unexpected terminator {:?}", other),
    }
    // the method block is left as it was
    assert!(matches!(&body.basic_blocks[1].terminator, Some(TerminatorKind::Call { target: Some(2), .. })));
}

#[test]
fn a_slice_product_uses_the_mul_helper() {
    let mut body = chain_body("product", ScalarTy::I32);
    let n = run(
        &mut body,
        &gates(false, &[SUM_U64, "parallel_runtime_parallel_reduce_mul_slice_i32"]),
    );
    assert_eq!(n, 1);
    assert!(matches!(
        &body.basic_blocks[0].terminator,
        Some(TerminatorKind::Call { func: Operand::Constant(Const::FnDef { path }), .. })
            if path == "parallel_runtime_parallel_reduce_mul_slice_i32"
    ));
}

#[test]
fn a_slice_count_becomes_the_length() {
    let mut body = chain_body("count", ScalarTy::U32);
    let n = run(&mut body, &gates(true, &[SUM_U64]));
    assert_eq!(n, 1);
    let b0 = &body.basic_blocks[0];
    assert_eq!(b0.statements.len(), 1);
    assert!(matches!(
        &b0.statements[0],
        StatementKind::Assign(dst, Rvalue::UnaryOp(UnOp::PtrMetadata, Operand::Copy(src)))
            if dst.local == 0 && src.local == 1
    ));
    assert!(matches!(b0.terminator, Some(TerminatorKind::Goto { target: 2 })));
}

#[test]
fn overflow_checks_keep_an_integer_sum() {
    let mut body = chain_body("sum", ScalarTy::U64);
    let n = run(&mut body, &gates(true, &[SUM_U64]));
    assert_eq!(n, 0);
    assert!(matches!(
        &body.basic_blocks[0].terminator,
        Some(TerminatorKind::Call { func: Operand::Constant(Const::FnDef { path }), .. })
            if path == "core::slice::<impl [T]>::iter"
    ));
}

#[test]
fn a_float_sum_is_kept() {
    let mut body = chain_body("sum", ScalarTy::F64);
    let n = run(
        &mut body,
        &gates(false, &[SUM_U64, "parallel_runtime_parallel_reduce_sum_slice_f64"]),
    );
    assert_eq!(n, 0);
}

#[test]
fn a_missing_helper_keeps_the_chain() {
    let mut body = chain_body("sum", ScalarTy::I64);
    assert_eq!(run(&mut body, &gates(false, &[SUM_U64])), 0);
}

#[test]
fn gated_bodies_are_left_alone() {
    let mut body = chain_body("count", ScalarTy::U64);
    let mut g = gates(false, &[SUM_U64]);
    g.crate_name = "core".to_string();
    assert_eq!(run(&mut body, &g), 0);
    let mut g = gates(false, &[SUM_U64]);
    g.fn_name = "parallel_runtime::helpers::x".to_string();
    assert_eq!(run(&mut body, &g), 0);
    let g = gates(false, &[]);
    assert_eq!(run(&mut body, &g), 0);
    let mut g = gates(false, &[SUM_U64]);
    g.enabled = false;
    assert_eq!(run(&mut body, &g), 0);
    assert!(body.basic_blocks[0].statements.is_empty());
}

#[test]
fn a_non_slice_iter_is_not_a_chain() {
    let mut body = chain_body("sum", ScalarTy::U64);
    body.basic_blocks[0] = blk(call("alloc::vec::Vec::<T>::iter", vec![Operand::Copy(place(1))], 2, 1));
    assert!(find_iter_method_plans(&body).is_empty());
}

fn range_body(method: &str, elem: ScalarTy) -> Body {
    Body {
        basic_blocks: vec![
            BasicBlockData {
                statements: vec![StatementKind::Assign(
                    place(1),
                    Rvalue::Aggregate(
                        AggregateKind::Adt { path: "core::ops::Range".to_string(), first_ty: Some(elem) },
                        vec![Operand::Constant(Const::Scalar { bits: 1, size_bits: 64 }), Operand::Copy(place(2))],
                    ),
                )],
                terminator: Some(call(
                    &format!("core::iter::traits::iterator::Iterator::{}", method),
                    vec![Operand::Move(place(1))],
                    0,
                    1,
                )),
            },
            blk(TerminatorKind::Return),
        ],
        arg_count: 1,
        local_tys: vec![LocalTy::Scalar(elem), LocalTy::Other, LocalTy::Scalar(elem)],
    }
}

#[test]
fn a_range_sum_becomes_a_helper_call() {
    let mut body = range_body("sum", ScalarTy::U64);
    let n = run(
        &mut body,
        &gates(true, &[SUM_U64, "parallel_runtime_parallel_reduce_sum_range_u64"]),
    );
    assert_eq!(n, 1);
    match &body.basic_blocks[0].terminator {
        Some(TerminatorKind::Call { func: Operand::Constant(Const::FnDef { path }), args, destination, target, unwind }) => {
            assert_eq!(path, "parallel_runtime_parallel_reduce_sum_range_u64");
            assert_eq!(args.len(), 2);
            assert!(matches!(&args[0], Operand::Constant(Const::Scalar { bits: 1, size_bits: 64 })));
            assert!(matches!(&args[1], Operand::Copy(p) if p.local == 2));
            assert_eq!(destination.local, 0);
            assert_eq!(*target, Some(1));
            assert_eq!(*unwind, UnwindAction::Unreachable);
        }
        other => panic!("unexpected terminator {:?}", other),
    }
}

#[test]
fn a_range_product_of_floats_is_kept() {
    let mut body = range_body("product", ScalarTy::F64);
    assert_eq!(run(&mut body, &gates(false, &[SUM_U64])), 0);
    let mut body = range_body("count", ScalarTy::U64);
    assert_eq!(try_transform_range_iterator_methods(&mut body, &vec![SUM_U64.to_string()]), 0);
}

#[test]
fn a_range_chain_needs_its_helper() {
    let mut body = range_body("product", ScalarTy::I32);
    assert_eq!(try_transform_range_iterator_methods(&mut body, &vec![]), 0);
    assert_eq!(
        try_transform_range_iterator_methods(&mut body, &vec!["parallel_runtime_parallel_reduce_mul_range_i32".to_string()]),
        1
    );
}

/// `_0 = _1.iter().map(f).<method>()` with `_1: &[elem]` and `f` a function
/// item `&elem -> elem`, or the closure local `_4`.
fn map_body(method: &str, elem: ScalarTy, f: Operand) -> Body {
    Body {
        basic_blocks: vec![
            blk(call("core::slice::<impl [T]>::iter", vec![Operand::Copy(place(1))], 2, 1)),
            BasicBlockData {
                statements: vec![StatementKind::Nop],
                terminator: Some(call("core::iter::Iterator::map", vec![Operand::Move(place(2)), f], 3, 2)),
            },
            blk(call(&format!("core::iter::Iterator::{}", method), vec![Operand::Move(place(3))], 0, 3)),
            blk(TerminatorKind::Return),
        ],
        arg_count: 1,
        local_tys: vec![
            LocalTy::Scalar(elem),
            LocalTy::RefSlice { elem, mutable: false },
            LocalTy::Other,
            LocalTy::Other,
            LocalTy::Other,
        ],
    }
}

const MAP_SUM_U64: &str = "parallel_runtime_parallel_reduce_sum_slice_map_u64";
const MAP_DYN_SUM_U64: &str = "parallel_runtime_parallel_reduce_sum_slice_map_closure_dyn_u64";

#[test]
fn a_mapped_sum_calls_the_map_helper() {
    let f = Operand::Constant(Const::FnDef { path: "app::square".to_string() });
    let mut body = map_body("sum", ScalarTy::U64, f);
    let mut facts = no_facts(4);
    facts[1].ref_to_same_scalar = Some(ScalarTy::U64);
    let n = try_transform_iterator_methods(&mut body, &gates(false, &[SUM_U64, MAP_SUM_U64]), &facts);
    assert_eq!(n, 1);
    assert_eq!(body.local_tys.len(), 6);
    let b0 = &body.basic_blocks[0];
    assert_eq!(b0.statements.len(), 1);
    assert!(matches!(&b0.statements[0], StatementKind::Assign(p, Rvalue::Cast(Operand::Constant(Const::FnDef { path }))) if p.local == 5 && path == "app::square"));
    match &b0.terminator {
        Some(TerminatorKind::Call { func: Operand::Constant(Const::FnDef { path }), args, destination, target, .. }) => {
            assert_eq!(path, MAP_SUM_U64);
            assert!(matches!(&args[0], Operand::Copy(p) if p.local == 1));
            assert!(matches!(&args[1], Operand::Move(p) if p.local == 5));
            assert_eq!(destination.local, 0);
            assert_eq!(*target, Some(3));
        }
        _ => panic!("the chain must become a helper call"),
    }
    // a mapping of another type does not qualify
    let f = Operand::Constant(Const::FnDef { path: "app::square".to_string() });
    let mut body = map_body("sum", ScalarTy::U64, f);
    facts[1].ref_to_same_scalar = Some(ScalarTy::U32);
    assert_eq!(try_transform_iterator_methods(&mut body, &gates(false, &[SUM_U64, MAP_SUM_U64]), &facts), 0);
}

#[test]
fn a_capturing_mapping_goes_as_dyn_fn() {
    let mut facts = no_facts(4);
    facts[1].ref_to_same_scalar = Some(ScalarTy::U64);
    facts[1].closure_with_captures = true;
    // a capturing closure that is not Fn is refused
    let mut body = map_body("sum", ScalarTy::U64, Operand::Move(place(4)));
    assert_eq!(try_transform_iterator_methods(&mut body, &gates(false, &[SUM_U64, MAP_DYN_SUM_U64]), &facts), 0);
    facts[1].shared_closure_with_captures = true;
    let mut body = map_body("sum", ScalarTy::U64, Operand::Move(place(4)));
    let n = try_transform_iterator_methods(&mut body, &gates(false, &[SUM_U64, MAP_DYN_SUM_U64]), &facts);
    assert_eq!(n, 1);
    assert_eq!(body.local_tys.len(), 7);
    let b0 = &body.basic_blocks[0];
    // the map block's statement moves ahead, then the borrow and the unsizing
    assert_eq!(b0.statements.len(), 3);
    assert!(matches!(b0.statements[0], StatementKind::Nop));
    assert!(matches!(&b0.statements[1], StatementKind::Assign(p, Rvalue::Ref(_, q)) if p.local == 5 && q.local == 4));
    assert!(matches!(&b0.statements[2], StatementKind::Assign(p, Rvalue::Cast(Operand::Copy(q))) if p.local == 6 && q.local == 5));
    match &b0.terminator {
        Some(TerminatorKind::Call { func: Operand::Constant(Const::FnDef { path }), args, .. }) => {
            assert_eq!(path, MAP_DYN_SUM_U64);
            assert!(matches!(&args[1], Operand::Move(p) if p.local == 6));
        }
        _ => panic!("the chain must become a helper call"),
    }
}
