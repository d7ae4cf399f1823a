use j2_passes::cost::FnTable;
use j2_passes::macro_walk::body_calls_proc_macro;
use j2_passes::mir::{BasicBlockData, Body, Const, Operand, Place, TerminatorKind, UnwindAction};

/// bb0 calls each path in turn; the last block returns.
fn calling(paths: &[&str]) -> Body {
    let mut blocks: Vec<BasicBlockData> = paths
        .iter()
        .enumerate()
        .map(|(i, p)| BasicBlockData {
            statements: vec![],
            terminator: Some(TerminatorKind::Call {
                func: Operand::Constant(Const::FnDef { path: p.to_string() }),
                args: vec![],
                destination: Place { local: 0, projection: vec![] },
                target: Some(i + 1),
                unwind: UnwindAction::Continue,
            }),
        })
        .collect();
    blocks.push(BasicBlockData { statements: vec![], terminator: Some(TerminatorKind::Return) });
    Body { basic_blocks: blocks, arg_count: 0, local_tys: vec![] }
}

fn table(entries: Vec<(&str, Option<Body>)>) -> FnTable {
    FnTable { entries: entries.into_iter().map(|(p, b)| (p.to_string(), b)).collect() }
}

#[test]
fn a_call_two_levels_down_into_proc_macro_is_found() {
    let t = table(vec![
        ("app::f", Some(calling(&["app::g"]))),
        ("app::g", Some(calling(&["core::mem::drop", "proc_macro::TokenStream::new"]))),
    ]);
    assert!(body_calls_proc_macro(&t, "app::f", &vec![]));
    assert!(body_calls_proc_macro(&t, "proc_macro2::Span::call_site", &vec![]));
}

#[test]
fn cycles_and_missing_bodies_do_not_count() {
    let t = table(vec![
        ("app::f", Some(calling(&["app::g"]))),
        ("app::g", Some(calling(&["app::f", "std::vec::Vec::new"]))),
        ("std::vec::Vec::new", None),
    ]);
    assert!(!body_calls_proc_macro(&t, "app::f", &vec![]));
    // a callee already under inspection counts, conservatively
    assert!(body_calls_proc_macro(&t, "app::f", &vec!["app::g".to_string()]));
}

#[test]
fn the_walk_gives_up_conservatively_past_its_depth() {
    // app::f0 -> app::f1 -> ... -> app::f9, each with a body
    let names: Vec<String> = (0..10).map(|i| format!("app::f{}", i)).collect();
    let mut entries: Vec<(String, Option<Body>)> = Vec::new();
    for i in 0..10 {
        let callees: Vec<&str> = if i + 1 < 10 { vec![names[i + 1].as_str()] } else { vec![] };
        entries.push((names[i].clone(), Some(calling(&callees))));
    }
    let t = FnTable { entries };
    assert!(body_calls_proc_macro(&t, "app::f0", &vec![]));
    assert!(!body_calls_proc_macro(&t, "app::f3", &vec![]));
}
