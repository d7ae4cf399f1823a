use j2_passes::chains::{
    eval_const_bits, extract_u128_const_loose, extract_u64_const_loose, find_init_bits, is_local_initialised_to_bits,
    is_local_initialised_to_zero, resolve_local_chain, resolve_local_chain_before, resolve_local_chain_xblock_to_acc,
    traces_to_local,
};
use j2_passes::detect::SimpleLoop;
use j2_passes::mir::{
    BasicBlockData, BinOp, Body, BorrowKind, Const, Operand, Place, ProjectionElem, Rvalue, StatementKind, TerminatorKind,
    UnOp, UnwindAction,
};
use j2_passes::purity::{
    check_body_purity, check_body_purity_for_invoke, check_mir_purity, check_mir_purity_for_invoke, check_rvalue_purity,
    check_rvalue_purity_for_invoke, check_stmt_purity, check_stmt_purity_for_invoke, check_terminator_purity,
    check_terminator_purity_for_invoke, invoke_callee_info, CalleeFacts, CalleePurity,
};
use j2_passes::cost::FnTable;

fn place(l: usize) -> Place {
    Place { local: l, projection: vec![] }
}

fn copy(l: usize) -> Operand {
    Operand::Copy(place(l))
}

fn konst(v: u128, size: u32) -> Operand {
    Operand::Constant(Const::Scalar { bits: v, size_bits: size })
}

fn assign(l: usize, rv: Rvalue) -> StatementKind {
    StatementKind::Assign(place(l), rv)
}

fn call(path: &str, target: usize) -> TerminatorKind {
    TerminatorKind::Call {
        func: Operand::Constant(Const::FnDef { path: path.to_string() }),
        args: vec![copy(1)],
        destination: place(2),
        target: Some(target),
        unwind: UnwindAction::Continue,
    }
}

fn facts(path: &str) -> CalleeFacts {
    CalleeFacts {
        path: path.to_string(),
        is_caller_body: false,
        in_progress: false,
        has_problematic_regions: false,
        calls_proc_macro: false,
        is_local: true,
    }
}

#[test]
fn rvalue_purity() {
    assert_eq!(check_rvalue_purity(&Rvalue::Use(copy(1))), Ok(()));
    assert_eq!(check_rvalue_purity(&Rvalue::Ref(BorrowKind::Shared, place(1))), Ok(()));
    assert_eq!(check_rvalue_purity(&Rvalue::Ref(BorrowKind::Mut, place(1))), Err("mutable borrow created in body".to_string()));
    assert_eq!(check_rvalue_purity(&Rvalue::RawPtr(place(1))), Err("raw pointer creation in body".to_string()));
    assert_eq!(check_rvalue_purity(&Rvalue::ThreadLocalRef), Err("ThreadLocalRef in body".to_string()));
    assert_eq!(check_rvalue_purity(&Rvalue::ShallowInitBox(copy(1))), Err("Box init (heap allocation) in body".to_string()));
    assert_eq!(check_rvalue_purity(&Rvalue::WrapUnsafeBinder(copy(1))), Err("unsafe binder in body".to_string()));
    assert_eq!(check_rvalue_purity_for_invoke(&Rvalue::Ref(BorrowKind::Mut, place(1))), Ok(()));
    assert_eq!(check_rvalue_purity_for_invoke(&Rvalue::ShallowInitBox(copy(1))), Ok(()));
    assert_eq!(check_rvalue_purity_for_invoke(&Rvalue::RawPtr(place(1))), Err("raw pointer creation in body".to_string()));
}

#[test]
fn statement_purity() {
    let through_pointer = StatementKind::Assign(Place { local: 1, projection: vec![ProjectionElem::Deref] }, Rvalue::Use(copy(2)));
    assert_eq!(check_stmt_purity(&through_pointer), Err("write through pointer (Deref projection)".to_string()));
    assert_eq!(check_stmt_purity_for_invoke(&through_pointer), Ok(()));
    let field = StatementKind::Assign(Place { local: 1, projection: vec![ProjectionElem::Field(0)] }, Rvalue::Use(copy(2)));
    assert_eq!(check_stmt_purity(&field), Ok(()));
    assert_eq!(check_stmt_purity(&StatementKind::StorageLive(3)), Ok(()));
    assert_eq!(
        check_stmt_purity(&StatementKind::SetDiscriminant),
        Err("statement kind not whitelisted: \"SetDiscriminant\"".to_string())
    );
    assert_eq!(check_stmt_purity_for_invoke(&StatementKind::Intrinsic), Ok(()));
}

#[test]
fn terminator_purity() {
    assert_eq!(check_terminator_purity(&TerminatorKind::Return), Ok(()));
    assert_eq!(
        check_terminator_purity(&TerminatorKind::Drop { target: 1, unwind: UnwindAction::Continue }),
        Err("Drop terminator (Drop impl could have side effects)".to_string())
    );
    assert_eq!(check_terminator_purity_for_invoke(&TerminatorKind::Drop { target: 1, unwind: UnwindAction::Continue }), Ok(()));
    assert_eq!(check_terminator_purity(&call("core::num::<impl u32>::wrapping_add", 1)), Ok(()));
    assert_eq!(
        check_terminator_purity(&call("my::helper", 1)),
        Err("Call to non-allowlisted fn: my::helper".to_string())
    );
    assert_eq!(check_terminator_purity_for_invoke(&call("my::helper", 1)), Ok(()));
    let indirect = TerminatorKind::Call { func: copy(4), args: vec![], destination: place(2), target: None, unwind: UnwindAction::Continue };
    assert_eq!(check_terminator_purity(&indirect), Err("indirect Call (function pointer)".to_string()));
    let not_fn = TerminatorKind::Call { func: konst(0, 8), args: vec![], destination: place(2), target: None, unwind: UnwindAction::Continue };
    assert_eq!(check_terminator_purity_for_invoke(&not_fn), Err("Call target is not a FnDef".to_string()));
    assert_eq!(check_terminator_purity(&TerminatorKind::TailCall), Err("TailCall in body".to_string()));
    assert_eq!(check_terminator_purity(&TerminatorKind::UnwindResume), Err("Unwind path in body".to_string()));
    assert_eq!(check_terminator_purity_for_invoke(&TerminatorKind::CoroutineDrop), Err("CoroutineDrop in body".to_string()));
}

fn two_block_body(second: TerminatorKind) -> Body {
    Body {
        basic_blocks: vec![
            BasicBlockData { statements: vec![assign(2, Rvalue::Use(copy(1)))], terminator: Some(TerminatorKind::Goto { target: 1 }) },
            BasicBlockData {
                statements: vec![StatementKind::Nop, assign(3, Rvalue::Ref(BorrowKind::Mut, place(2)))],
                terminator: Some(second),
            },
        ],
        arg_count: 1, local_tys: vec![]
    }
}

#[test]
fn body_purity_names_the_first_refusal() {
    let body = two_block_body(TerminatorKind::Return);
    assert_eq!(check_mir_purity(&body), Err("bb1:1 mutable borrow created in body".to_string()));
    assert_eq!(check_mir_purity_for_invoke(&body), Ok(()));
    let body = two_block_body(TerminatorKind::InlineAsm { targets: vec![], unwind: UnwindAction::Continue });
    assert_eq!(check_mir_purity_for_invoke(&body), Err("bb1 terminator InlineAsm in body".to_string()));
}

#[test]
fn callee_checks_come_before_the_scan() {
    let body = two_block_body(TerminatorKind::Return);
    let mut f = facts("m::f");
    f.is_caller_body = true;
    assert_eq!(
        check_body_purity(&f, Some(&body)),
        Err("self-recursive callee m::f \u{2014} cannot inspect own optimized_mir mid-pass".to_string())
    );
    let mut f = facts("m::f");
    f.in_progress = true;
    assert_eq!(
        check_body_purity_for_invoke(&f, Some(&body)),
        Err("mutual-recursion cycle reaching m::f \u{2014} cannot inspect mid-pass".to_string())
    );
    let mut f = facts("m::f");
    f.has_problematic_regions = true;
    assert_eq!(
        check_body_purity(&f, None),
        Err("fn signature contains free/bound regions m::f \u{2014} would leak into synthesized MIR".to_string())
    );
    let mut f = facts("m::f");
    f.calls_proc_macro = true;
    assert_eq!(
        check_body_purity(&f, None),
        Err("body of m::f calls into proc_macro/proc_macro2 \u{2014} unsafe to run on parallel worker".to_string())
    );
    let mut f = facts("m::f");
    f.is_local = false;
    assert_eq!(
        check_body_purity(&f, None),
        Err("cross-crate body m::f \u{2014} purity not analysable from this crate".to_string())
    );
    assert_eq!(check_body_purity(&facts("m::f"), None), Err("MIR unavailable for m::f".to_string()));
    assert_eq!(check_body_purity(&facts("m::f"), Some(&body)), Err("bb1:1 mutable borrow created in body".to_string()));
    assert_eq!(check_body_purity_for_invoke(&facts("m::f"), Some(&body)), Ok(()));
}

#[test]
fn copy_chains_within_a_block() {
    let block = BasicBlockData {
        statements: vec![
            assign(3, Rvalue::Use(copy(2))),
            assign(4, Rvalue::Use(Operand::Move(place(3)))),
            assign(5, Rvalue::BinaryOp(BinOp::Add, copy(4), copy(4))),
        ],
        terminator: Some(TerminatorKind::Return),
    };
    assert_eq!(resolve_local_chain(&block, 4), 2);
    assert_eq!(resolve_local_chain(&block, 5), 5);
    assert_eq!(resolve_local_chain_before(&block, 4, 1), 4);
    assert_eq!(resolve_local_chain_before(&block, 4, 2), 2);
    assert_eq!(resolve_local_chain_before(&block, 4, 99), 2);
    assert!(traces_to_local(&block, 4, 2));
    assert!(traces_to_local(&block, 4, 3));
    assert!(traces_to_local(&block, 7, 7));
    assert!(!traces_to_local(&block, 5, 2));
    assert!(!traces_to_local(&block, 4, 9));
}

#[test]
fn a_self_copy_stops_the_walk() {
    let block = BasicBlockData { statements: vec![assign(3, Rvalue::Use(copy(3)))], terminator: None };
    assert_eq!(resolve_local_chain(&block, 3), 3);
}

#[test]
fn cross_block_chain_stops_at_the_entry_block() {
    let body = Body {
        basic_blocks: vec![
            BasicBlockData { statements: vec![assign(2, Rvalue::Use(konst(0, 64)))], terminator: Some(TerminatorKind::Goto { target: 1 }) },
            BasicBlockData {
                statements: vec![assign(4, Rvalue::Use(copy(3))), assign(3, Rvalue::Use(copy(2)))],
                terminator: Some(TerminatorKind::Goto { target: 1 }),
            },
        ],
        arg_count: 0, local_tys: vec![]
    };
    let lp = SimpleLoop { header: 1, body: vec![1] };
    assert_eq!(resolve_local_chain_xblock_to_acc(&body, &lp, 0, 4), 2);
    assert_eq!(resolve_local_chain_xblock_to_acc(&body, &lp, 0, 2), 2);
    assert_eq!(resolve_local_chain_xblock_to_acc(&body, &lp, 1, 4), 4);
}

#[test]
fn constants_and_their_bits() {
    assert_eq!(extract_u64_const_loose(&Const::Scalar { bits: 7, size_bits: 64 }), Some(7));
    assert_eq!(extract_u64_const_loose(&Const::Scalar { bits: 7, size_bits: 128 }), None);
    assert_eq!(extract_u64_const_loose(&Const::Other), None);
    assert_eq!(extract_u128_const_loose(&Const::Scalar { bits: 1 << 100, size_bits: 128 }), Some(1 << 100));
    assert_eq!(eval_const_bits(&Const::FnDef { path: "f".to_string() }), None);
}

#[test]
fn initial_bits_fold_negations() {
    let body = Body {
        basic_blocks: vec![BasicBlockData {
            statements: vec![
                assign(1, Rvalue::Use(copy(9))),
                assign(1, Rvalue::UnaryOp(UnOp::Not, konst(0, 8))),
                assign(2, Rvalue::UnaryOp(UnOp::Neg, konst(1, 32))),
                assign(3, Rvalue::Use(konst(0x1ff, 64))),
                assign(4, Rvalue::Use(konst(0, 64))),
            ],
            terminator: Some(TerminatorKind::Return),
        }],
        arg_count: 0, local_tys: vec![]
    };
    assert_eq!(find_init_bits(&body, 0, 1, 8), Some(0xff));
    assert_eq!(find_init_bits(&body, 0, 2, 32), Some(0xffff_ffff));
    assert_eq!(find_init_bits(&body, 0, 3, 8), Some(0xff));
    assert_eq!(find_init_bits(&body, 0, 3, 128), Some(0x1ff));
    assert_eq!(find_init_bits(&body, 0, 9, 64), None);
    assert!(is_local_initialised_to_bits(&body, 0, 2, u128::MAX, 32));
    assert!(!is_local_initialised_to_bits(&body, 0, 2, 0, 32));
    assert!(is_local_initialised_to_zero(&body, 0, 4));
    assert!(!is_local_initialised_to_zero(&body, 0, 3));
}

#[test]
fn invoke_callee_info_takes_purity_and_cost_from_the_checks() {
    let ret = Body {
        basic_blocks: vec![BasicBlockData { statements: vec![], terminator: Some(TerminatorKind::Return) }],
        arg_count: 1,
        local_tys: vec![],
    };
    let table = FnTable { entries: vec![] };
    // a local callee with a pure body: pure; absent from the table: cost 50
    let pure = CalleePurity { facts: facts("app::work"), mir: Some(ret) };
    let info = invoke_callee_info(true, false, 1, true, true, &pure, &table, "app::main");
    assert!(info.invoke_pure);
    assert_eq!(info.cost, 50);
    assert!(info.is_local && !info.in_sysroot);
    assert_eq!(info.sig_inputs, 1);
    // no MIR: not pure
    let unknown = CalleePurity { facts: facts("app::work"), mir: None };
    assert!(!invoke_callee_info(true, false, 1, true, true, &unknown, &table, "app::main").invoke_pure);
    // the body under optimization itself costs 30
    let me = CalleePurity { facts: facts("app::main"), mir: None };
    assert_eq!(invoke_callee_info(true, false, 1, true, true, &me, &table, "app::main").cost, 30);
}
