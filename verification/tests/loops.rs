use j2_passes::detect::{
    detect_idioms, detect_privatizable_in_loop, detect_reductions_in_loop, detect_reductions_via_call,
    find_simple_loops, is_user_var_skip, operand_reads_local, terminator_successors, visit_rvalue_locals,
    IdiomFindings, InductionFinding, PrivatizableFinding, ReductionFinding, SimpleLoop,
};
use j2_passes::induction::{detect_induction_in_loop, detect_induction_via_call};
use j2_passes::mir::{
    AggregateKind, BasicBlockData, BinOp, Body, Const, Operand, Place, ProjectionElem, Rvalue, StatementKind, TerminatorKind,
    UnwindAction,
};

fn place(l: usize) -> Place {
    Place { local: l, projection: vec![] }
}

fn copy(l: usize) -> Operand {
    Operand::Copy(place(l))
}

fn konst(v: u128) -> Operand {
    Operand::Constant(Const::Scalar { bits: v, size_bits: 64 })
}

fn assign(l: usize, rv: Rvalue) -> StatementKind {
    StatementKind::Assign(place(l), rv)
}

fn empty_findings() -> IdiomFindings {
    IdiomFindings { reductions: vec![], privatizable: vec![], inductions: vec![] }
}

/// bb0: _2 = 0; goto bb1
/// bb1: switch _3 [0 -> bb3, otherwise bb2]
/// bb2: _5 = _4; _2 = _2 + _5; _4 = _4 + 1; goto bb1
/// bb3: return
fn counting_loop() -> Body {
    Body {
        basic_blocks: vec![
            BasicBlockData { statements: vec![assign(2, Rvalue::Use(konst(0)))], terminator: Some(TerminatorKind::Goto { target: 1 }) },
            BasicBlockData {
                statements: vec![],
                terminator: Some(TerminatorKind::SwitchInt { discr: copy(3), targets: vec![(0, 3)], otherwise: 2 }),
            },
            BasicBlockData {
                statements: vec![
                    assign(5, Rvalue::Use(copy(4))),
                    assign(2, Rvalue::BinaryOp(BinOp::Add, copy(2), copy(5))),
                    assign(4, Rvalue::BinaryOp(BinOp::Add, copy(4), konst(1))),
                ],
                terminator: Some(TerminatorKind::Goto { target: 1 }),
            },
            BasicBlockData { statements: vec![], terminator: Some(TerminatorKind::Return) },
        ],
        arg_count: 1, local_tys: vec![]
    }
}

fn the_loop() -> SimpleLoop {
    SimpleLoop { header: 1, body: vec![1, 2] }
}

#[test]
fn loops_come_from_back_edges() {
    let loops = find_simple_loops(&counting_loop());
    assert_eq!(loops.len(), 1);
    assert_eq!(loops[0].header, 1);
    assert_eq!(loops[0].body, vec![1, 2]);
}

#[test]
fn a_header_reached_twice_gives_one_loop() {
    // bb2 and bb3 both jump back to bb1
    let body = Body {
        basic_blocks: vec![
            BasicBlockData { statements: vec![], terminator: Some(TerminatorKind::Goto { target: 1 }) },
            BasicBlockData { statements: vec![], terminator: Some(TerminatorKind::Goto { target: 2 }) },
            BasicBlockData {
                statements: vec![],
                terminator: Some(TerminatorKind::SwitchInt { discr: copy(1), targets: vec![(0, 1)], otherwise: 3 }),
            },
            BasicBlockData { statements: vec![], terminator: Some(TerminatorKind::Goto { target: 1 }) },
        ],
        arg_count: 0, local_tys: vec![]
    };
    let loops = find_simple_loops(&body);
    assert_eq!(loops.len(), 1);
    assert_eq!(loops[0].header, 1);
    assert_eq!(loops[0].body, vec![1, 2]);
}

#[test]
fn successors_of_terminators() {
    let k = TerminatorKind::SwitchInt { discr: copy(1), targets: vec![(0, 4), (1, 2)], otherwise: 7 };
    assert_eq!(terminator_successors(&k), vec![4, 2, 7]);
    assert_eq!(terminator_successors(&TerminatorKind::Return), Vec::<usize>::new());
    let call = TerminatorKind::Call {
        func: copy(1),
        args: vec![],
        destination: place(0),
        target: None,
        unwind: UnwindAction::Cleanup(3),
    };
    assert_eq!(terminator_successors(&call), vec![3]);
}

#[test]
fn statement_reductions_of_the_loop() {
    let body = counting_loop();
    let mut f = empty_findings();
    detect_reductions_in_loop(&body, &the_loop(), &mut f);
    assert_eq!(
        f.reductions,
        vec![
            ReductionFinding { loop_header: 1, accumulator: 2, op: BinOp::Add, update_block: 2, update_index: 1 },
            ReductionFinding { loop_header: 1, accumulator: 4, op: BinOp::Add, update_block: 2, update_index: 2 },
        ]
    );
}

#[test]
fn non_associative_updates_are_not_reductions() {
    let body = Body {
        basic_blocks: vec![
            BasicBlockData { statements: vec![], terminator: Some(TerminatorKind::Goto { target: 1 }) },
            BasicBlockData {
                statements: vec![assign(2, Rvalue::BinaryOp(BinOp::Sub, copy(2), copy(3)))],
                terminator: Some(TerminatorKind::Goto { target: 1 }),
            },
        ],
        arg_count: 0, local_tys: vec![]
    };
    let mut f = empty_findings();
    detect_reductions_in_loop(&body, &SimpleLoop { header: 1, body: vec![1] }, &mut f);
    assert!(f.reductions.is_empty());
}

#[test]
fn detect_idioms_reports_reductions_only() {
    let f = detect_idioms(&counting_loop());
    assert_eq!(f.reductions.len(), 2);
    assert!(f.privatizable.is_empty());
    assert!(f.inductions.is_empty());
}

#[test]
fn reduction_through_a_wrapping_add_call() {
    // bb1: _6 = _2; _7 = wrapping_add(_6, _3) -> bb2
    // bb2: _2 = move _7; goto bb1
    let body = Body {
        basic_blocks: vec![
            BasicBlockData { statements: vec![], terminator: Some(TerminatorKind::Goto { target: 1 }) },
            BasicBlockData {
                statements: vec![assign(6, Rvalue::Use(copy(2)))],
                terminator: Some(TerminatorKind::Call {
                    func: Operand::Constant(Const::FnDef { path: "core::num::<impl u64>::wrapping_add".to_string() }),
                    args: vec![Operand::Move(place(6)), copy(3)],
                    destination: place(7),
                    target: Some(2),
                    unwind: UnwindAction::Continue,
                }),
            },
            BasicBlockData {
                statements: vec![assign(2, Rvalue::Use(Operand::Move(place(7))))],
                terminator: Some(TerminatorKind::Goto { target: 1 }),
            },
        ],
        arg_count: 0, local_tys: vec![]
    };
    let loops = find_simple_loops(&body);
    assert_eq!(loops.len(), 1);
    let mut f = empty_findings();
    detect_reductions_via_call(&body, &loops[0], &mut f);
    assert_eq!(
        f.reductions,
        vec![ReductionFinding { loop_header: 1, accumulator: 2, op: BinOp::Add, update_block: 1, update_index: 1 }]
    );
    // both arguments are locals, so this is no induction update
    let mut g = empty_findings();
    detect_induction_via_call(&body, &loops[0], &mut g);
    assert!(g.inductions.is_empty());
    let all = detect_idioms(&body);
    assert_eq!(all.reductions, f.reductions);
}

#[test]
fn induction_call_with_a_projected_argument_ends_the_scan() {
    let mut body = Body {
        basic_blocks: vec![
            BasicBlockData { statements: vec![], terminator: Some(TerminatorKind::Goto { target: 1 }) },
            BasicBlockData {
                statements: vec![assign(6, Rvalue::Use(copy(2)))],
                terminator: Some(TerminatorKind::Call {
                    func: Operand::Constant(Const::FnDef { path: "wrapping_add".to_string() }),
                    args: vec![Operand::Move(Place { local: 6, projection: vec![ProjectionElem::Field(0)] }), konst(1)],
                    destination: place(7),
                    target: Some(2),
                    unwind: UnwindAction::Continue,
                }),
            },
            BasicBlockData {
                statements: vec![assign(2, Rvalue::Use(Operand::Move(place(7))))],
                terminator: Some(TerminatorKind::Goto { target: 1 }),
            },
        ],
        arg_count: 0, local_tys: vec![]
    };
    let mut g = empty_findings();
    detect_induction_via_call(&body, &SimpleLoop { header: 1, body: vec![1, 2] }, &mut g);
    assert!(g.inductions.is_empty());
    // with a plain argument the same loop has its induction variable
    body.basic_blocks[1].terminator = Some(TerminatorKind::Call {
        func: Operand::Constant(Const::FnDef { path: "wrapping_add".to_string() }),
        args: vec![Operand::Move(place(6)), konst(1)],
        destination: place(7),
        target: Some(2),
        unwind: UnwindAction::Continue,
    });
    detect_induction_via_call(&body, &SimpleLoop { header: 1, body: vec![1, 2] }, &mut g);
    assert_eq!(g.inductions, vec![InductionFinding { loop_header: 1, iv_local: 2, op: BinOp::Add }]);
}

#[test]
fn privatizable_locals_are_written_first() {
    let body = counting_loop();
    let mut f = empty_findings();
    detect_privatizable_in_loop(&body, &the_loop(), &mut f);
    assert_eq!(f.privatizable, vec![PrivatizableFinding { loop_header: 1, local: 5 }]);
}

#[test]
fn induction_variables_add_constants() {
    let body = counting_loop();
    let mut f = empty_findings();
    detect_induction_in_loop(&body, &the_loop(), &mut f);
    assert_eq!(f.inductions, vec![InductionFinding { loop_header: 1, iv_local: 4, op: BinOp::Add }]);
}

#[test]
fn a_disqualified_local_stays_disqualified() {
    // _4 = _4 + 1; _4 = _5; _4 = _4 + 1
    let body = Body {
        basic_blocks: vec![
            BasicBlockData { statements: vec![], terminator: Some(TerminatorKind::Goto { target: 1 }) },
            BasicBlockData {
                statements: vec![
                    assign(4, Rvalue::BinaryOp(BinOp::Add, copy(4), konst(1))),
                    assign(4, Rvalue::Use(copy(5))),
                    assign(4, Rvalue::BinaryOp(BinOp::AddUnchecked, konst(1), copy(4))),
                    assign(6, Rvalue::BinaryOp(BinOp::AddUnchecked, konst(2), copy(6))),
                ],
                terminator: Some(TerminatorKind::Goto { target: 1 }),
            },
        ],
        arg_count: 0, local_tys: vec![]
    };
    let mut f = empty_findings();
    detect_induction_in_loop(&body, &SimpleLoop { header: 1, body: vec![1] }, &mut f);
    assert_eq!(f.inductions, vec![InductionFinding { loop_header: 1, iv_local: 6, op: BinOp::AddUnchecked }]);
}

#[test]
fn findings_keep_what_was_there() {
    let body = counting_loop();
    let mut f = empty_findings();
    f.privatizable.push(PrivatizableFinding { loop_header: 9, local: 9 });
    detect_privatizable_in_loop(&body, &the_loop(), &mut f);
    assert_eq!(f.privatizable[0], PrivatizableFinding { loop_header: 9, local: 9 });
    assert_eq!(f.privatizable.len(), 2);
}

#[test]
fn rvalue_locals_in_order() {
    let rv = Rvalue::BinaryOp(BinOp::Mul, copy(3), Operand::Move(place(8)));
    assert_eq!(visit_rvalue_locals(&rv), vec![3, 8]);
    assert_eq!(visit_rvalue_locals(&Rvalue::Aggregate(AggregateKind::Other, vec![copy(1), konst(0), copy(2)])), vec![1, 2]);
    assert_eq!(visit_rvalue_locals(&Rvalue::ThreadLocalRef), Vec::<usize>::new());
}

#[test]
fn operand_reads_only_the_bare_local() {
    assert!(operand_reads_local(&copy(3), 3));
    assert!(!operand_reads_local(&copy(3), 4));
    assert!(!operand_reads_local(&Operand::Copy(Place { local: 3, projection: vec![ProjectionElem::Deref] }), 3));
    assert!(!operand_reads_local(&konst(3), 3));
}

#[test]
fn return_place_and_arguments_are_skipped() {
    let body = counting_loop();
    assert!(is_user_var_skip(&body, 0));
    assert!(is_user_var_skip(&body, 1));
    assert!(!is_user_var_skip(&body, 2));
}
