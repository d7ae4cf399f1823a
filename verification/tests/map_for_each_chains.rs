use j2_passes::combinators::CallFacts;
use j2_passes::hashmap_for_each::{try_transform_hashmap_for_each, MapForEachGates};
use j2_passes::mir::{
    BasicBlockData, BorrowKind, Body, Const, LocalTy, Operand, Place, ProjectionElem, Rvalue, StatementKind,
    TerminatorKind, UnwindAction,
};

fn place(l: usize) -> Place {
    Place { local: l, projection: vec![] }
}

fn call(path: &str, args: Vec<Operand>, dest: usize, target: usize) -> TerminatorKind {
    TerminatorKind::Call {
        func: Operand::Constant(Const::FnDef { path: path.to_string() }),
        args,
        destination: place(dest),
        target: Some(target),
        unwind: UnwindAction::Continue,
    }
}

fn blk(stmts: Vec<StatementKind>, t: TerminatorKind) -> BasicBlockData {
    BasicBlockData { statements: stmts, terminator: Some(t) }
}

fn facts(n: usize) -> Vec<CallFacts> {
    vec![
        CallFacts {
            coercible: false,
            simple_mul: false,
            is_closure: false,
            fn_callable: false,
            closure_with_captures: false,
            shared_closure_with_captures: false,
            ref_to_same_scalar: None,
            collect_vec_elem: None,
        };
        n
    ]
}

const HELPER: &str = "parallel_runtime_parallel_for_each_hashmap_iter_dyn";

fn gates(helper_takes_two: bool) -> MapForEachGates {
    MapForEachGates {
        enabled: true,
        crate_name: "app".to_string(),
        fn_name: "app::main".to_string(),
        helper_takes_two,
        available_helpers: vec![HELPER.to_string()],
    }
}

/// bb0: _6 = &(*_1); _3 = HashMap::iter(move _6) -> bb1
/// bb1: Nop; _4 = Iterator::for_each(move _3, <f>) -> bb2; bb2: return
fn chain(f: Operand) -> Body {
    let reborrow = StatementKind::Assign(
        place(6),
        Rvalue::Ref(BorrowKind::Shared, Place { local: 1, projection: vec![ProjectionElem::Deref] }),
    );
    let mut tys = vec![LocalTy::Other; 7];
    tys[1] = LocalTy::HashMap;
    Body {
        basic_blocks: vec![
            blk(vec![reborrow], call("std::collections::HashMap::<K, V, S>::iter", vec![Operand::Move(place(6))], 3, 1)),
            blk(vec![StatementKind::Nop], call("core::iter::Iterator::for_each", vec![Operand::Move(place(3)), f], 4, 2)),
            blk(vec![], TerminatorKind::Return),
        ],
        arg_count: 2,
        local_tys: tys,
    }
}

#[test]
fn a_hash_map_for_each_goes_to_the_runtime() {
    let mut body = chain(Operand::Move(place(2)));
    let mut f = facts(3);
    f[1].fn_callable = true;
    let n = try_transform_hashmap_for_each(&mut body, &gates(true), &f);
    assert_eq!(n, 1);
    assert_eq!(body.local_tys.len(), 9);
    let b0 = &body.basic_blocks[0];
    assert_eq!(b0.statements.len(), 4);
    assert!(matches!(b0.statements[1], StatementKind::Nop));
    assert!(matches!(&b0.statements[2], StatementKind::Assign(p, Rvalue::Ref(BorrowKind::Shared, q)) if p.local == 7 && q.local == 2));
    assert!(matches!(&b0.statements[3], StatementKind::Assign(p, Rvalue::Cast(Operand::Copy(q))) if p.local == 8 && q.local == 7));
    match &b0.terminator {
        Some(TerminatorKind::Call { func: Operand::Constant(Const::FnDef { path }), args, destination, target, unwind }) => {
            assert_eq!(path, HELPER);
            // the re-borrow is traced back to the map
            assert!(matches!(&args[0], Operand::Copy(p) if p.local == 1));
            assert!(matches!(&args[1], Operand::Move(p) if p.local == 8));
            assert_eq!(destination.local, 4);
            assert_eq!(*target, Some(2));
            assert!(matches!(unwind, UnwindAction::Unreachable));
        }
        _ => panic!("the chain must become a helper call"),
    }
}

#[test]
fn function_items_and_other_maps_are_left_alone() {
    let mut f = facts(3);
    f[1].fn_callable = true;
    // a function item has no place to borrow
    let mut body = chain(Operand::Constant(Const::FnDef { path: "app::visit".to_string() }));
    assert_eq!(try_transform_hashmap_for_each(&mut body, &gates(true), &f), 0);
    // a helper of another shape
    let mut body = chain(Operand::Move(place(2)));
    assert_eq!(try_transform_hashmap_for_each(&mut body, &gates(false), &f), 0);
    // not a hash map
    let mut body = chain(Operand::Move(place(2)));
    body.local_tys[1] = LocalTy::Other;
    assert_eq!(try_transform_hashmap_for_each(&mut body, &gates(true), &f), 0);
    // an FnMut closure
    let mut body = chain(Operand::Move(place(2)));
    assert_eq!(try_transform_hashmap_for_each(&mut body, &gates(true), &facts(3)), 0);
}
