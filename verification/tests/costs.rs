use j2_passes::cost::{body_weighted_cost, FnTable};
use j2_passes::mir::{BasicBlockData, Body, Const, Operand, Place, Rvalue, StatementKind, TerminatorKind, UnwindAction};

fn place(l: usize) -> Place {
    Place { local: l, projection: vec![] }
}

fn stmt() -> StatementKind {
    StatementKind::Assign(place(1), Rvalue::Use(Operand::Copy(place(2))))
}

fn call(path: &str, target: usize) -> TerminatorKind {
    TerminatorKind::Call {
        func: Operand::Constant(Const::FnDef { path: path.to_string() }),
        args: vec![],
        destination: place(0),
        target: Some(target),
        unwind: UnwindAction::Continue,
    }
}

fn body(blocks: Vec<BasicBlockData>) -> Body {
    Body { basic_blocks: blocks, arg_count: 0, local_tys: vec![] }
}

fn table() -> FnTable {
    FnTable {
        entries: vec![
            (
                "app::leaf".to_string(),
                Some(body(vec![BasicBlockData {
                    statements: vec![stmt(), StatementKind::StorageLive(3), stmt()],
                    terminator: Some(TerminatorKind::Return),
                }])),
            ),
            (
                "app::caller".to_string(),
                Some(body(vec![
                    BasicBlockData { statements: vec![stmt()], terminator: Some(call("app::leaf", 1)) },
                    BasicBlockData { statements: vec![], terminator: Some(TerminatorKind::Return) },
                ])),
            ),
            (
                "app::looper".to_string(),
                Some(body(vec![BasicBlockData { statements: vec![stmt(), stmt()], terminator: Some(TerminatorKind::Goto { target: 0 }) }])),
            ),
            (
                "app::rec".to_string(),
                Some(body(vec![
                    BasicBlockData { statements: vec![], terminator: Some(call("app::rec", 1)) },
                    BasicBlockData { statements: vec![], terminator: Some(TerminatorKind::Return) },
                ])),
            ),
            ("app::extern".to_string(), None),
        ],
    }
}

#[test]
fn costs_of_bodies() {
    let t = table();
    let mut stack: Vec<String> = vec![];
    assert_eq!(body_weighted_cost(&t, "app::leaf", 1, "app::main", &mut stack), 2);
    assert_eq!(body_weighted_cost(&t, "app::caller", 1, "app::main", &mut stack), 13);
    assert_eq!(body_weighted_cost(&t, "app::caller", 0, "app::main", &mut stack), 11);
    assert_eq!(body_weighted_cost(&t, "app::looper", 1, "app::main", &mut stack), 16);
    assert_eq!(body_weighted_cost(&t, "app::rec", 1, "app::main", &mut stack), 40);
    assert!(stack.is_empty());
}

#[test]
fn flat_estimates() {
    let t = table();
    let mut stack: Vec<String> = vec![];
    assert_eq!(body_weighted_cost(&t, "app::main", 1, "app::main", &mut stack), 30);
    assert_eq!(body_weighted_cost(&t, "app::extern", 1, "app::main", &mut stack), 50);
    assert_eq!(body_weighted_cost(&t, "app::missing", 1, "app::main", &mut stack), 50);
    assert_eq!(body_weighted_cost(&t, "app::leaf", 3, "app::main", &mut stack), 0);
    let mut busy = vec!["app::leaf".to_string()];
    assert_eq!(body_weighted_cost(&t, "app::leaf", 1, "app::main", &mut busy), 30);
    assert_eq!(busy, vec!["app::leaf".to_string()]);
}
