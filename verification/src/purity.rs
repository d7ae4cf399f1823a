//! Conservative purity checks on MIR: may a callee's body run on a parallel
//! worker? Each check either accepts or gives the reason it refuses, and a
//! body is refused at its first refused statement or terminator.
use vstd::prelude::*;
use crate::mir::{Body, StatementKind, TerminatorKind, Operand, Rvalue, BorrowKind, ProjectionElem, Const};
use crate::idioms::{is_known_pure_callee, is_pure_method};
use crate::text::{decimal, push_decimal, last_segment};

verus! {

/// A check's outcome with its reason as text.
pub open spec fn result_view(r: Result<(), String>) -> Result<(), Seq<char>> {
    match r {
        Ok(()) => Ok(()),
        Err(m) => Err(m@),
    }
}

/// The place's projection dereferences a pointer.
pub open spec fn has_deref(proj: Seq<ProjectionElem>) -> bool {
    exists|i: int| 0 <= i < proj.len() && proj[i] == ProjectionElem::Deref
}

/// Right-hand sides allowed in a reduction body.
pub open spec fn rvalue_purity(rv: Rvalue) -> Result<(), Seq<char>> {
    match rv {
        Rvalue::Ref(kind, _) => match kind {
            BorrowKind::Mut => Err("mutable borrow created in body"@),
            _ => Ok(()),
        },
        Rvalue::RawPtr(_) => Err("raw pointer creation in body"@),
        Rvalue::ThreadLocalRef => Err("ThreadLocalRef in body"@),
        Rvalue::ShallowInitBox(_) => Err("Box init (heap allocation) in body"@),
        Rvalue::WrapUnsafeBinder(_) => Err("unsafe binder in body"@),
        _ => Ok(()),
    }
}

/// Statements allowed in a reduction body: assignments not writing through
/// a pointer, of allowed right-hand sides, and the bookkeeping kinds.
pub open spec fn stmt_purity(s: StatementKind) -> Result<(), Seq<char>> {
    match s {
        StatementKind::Assign(place, rv) => if has_deref(place.projection@) {
            Err("write through pointer (Deref projection)"@)
        } else {
            rvalue_purity(rv)
        },
        StatementKind::SetDiscriminant => Err("statement kind not whitelisted: \"SetDiscriminant\""@),
        StatementKind::Intrinsic => Err("statement kind not whitelisted: \"Intrinsic\""@),
        StatementKind::ConstEvalCounter => Err("statement kind not whitelisted: \"ConstEvalCounter\""@),
        StatementKind::BackwardIncompatibleDropHint => Err(
            "statement kind not whitelisted: \"BackwardIncompatibleDropHint\""@,
        ),
        _ => Ok(()),
    }
}

/// The reasons shared by both terminator checks.
pub open spec fn terminator_refusal(k: TerminatorKind) -> Option<Seq<char>> {
    match k {
        TerminatorKind::TailCall => Some("TailCall in body"@),
        TerminatorKind::Yield { .. } => Some("Yield (generator) in body"@),
        TerminatorKind::CoroutineDrop => Some("CoroutineDrop in body"@),
        TerminatorKind::InlineAsm { .. } => Some("InlineAsm in body"@),
        TerminatorKind::UnwindResume => Some("Unwind path in body"@),
        TerminatorKind::UnwindTerminate => Some("Unwind path in body"@),
        _ => None,
    }
}

/// Terminators allowed in a reduction body: no drops, and calls only of
/// allowlisted pure functions.
pub open spec fn terminator_purity(k: TerminatorKind) -> Result<(), Seq<char>> {
    match k {
        TerminatorKind::Drop { .. } => Err("Drop terminator (Drop impl could have side effects)"@),
        TerminatorKind::Call { func, .. } => match func {
            Operand::Constant(Const::FnDef { path }) => if is_pure_method(last_segment(path@)) {
                Ok(())
            } else {
                Err("Call to non-allowlisted fn: "@ + path@)
            },
            Operand::Constant(_) => Err("Call target is not a FnDef"@),
            _ => Err("indirect Call (function pointer)"@),
        },
        _ => match terminator_refusal(k) {
            Some(m) => Err(m),
            None => Ok(()),
        },
    }
}

/// Right-hand sides allowed in a parallel-invoke body: borrows and box
/// initialisation are admitted too.
pub open spec fn rvalue_purity_for_invoke(rv: Rvalue) -> Result<(), Seq<char>> {
    match rv {
        Rvalue::RawPtr(_) => Err("raw pointer creation in body"@),
        Rvalue::ThreadLocalRef => Err("ThreadLocalRef in body"@),
        Rvalue::WrapUnsafeBinder(_) => Err("unsafe binder in body"@),
        _ => Ok(()),
    }
}

/// Statements allowed in a parallel-invoke body: every kind, with allowed
/// right-hand sides.
pub open spec fn stmt_purity_for_invoke(s: StatementKind) -> Result<(), Seq<char>> {
    match s {
        StatementKind::Assign(_, rv) => rvalue_purity_for_invoke(rv),
        _ => Ok(()),
    }
}

/// Terminators allowed in a parallel-invoke body: drops and calls of any
/// function item are admitted.
pub open spec fn terminator_purity_for_invoke(k: TerminatorKind) -> Result<(), Seq<char>> {
    match k {
        TerminatorKind::Call { func, .. } => match func {
            Operand::Constant(Const::FnDef { .. }) => Ok(()),
            Operand::Constant(_) => Err("Call target is not a FnDef"@),
            _ => Err("indirect Call (function pointer)"@),
        },
        _ => match terminator_refusal(k) {
            Some(m) => Err(m),
            None => Ok(()),
        },
    }
}

/// The statement check of either flavour.
pub open spec fn stmt_check(s: StatementKind, invoke: bool) -> Result<(), Seq<char>> {
    if invoke {
        stmt_purity_for_invoke(s)
    } else {
        stmt_purity(s)
    }
}

/// The terminator check of either flavour.
pub open spec fn terminator_check(k: TerminatorKind, invoke: bool) -> Result<(), Seq<char>> {
    if invoke {
        terminator_purity_for_invoke(k)
    } else {
        terminator_purity(k)
    }
}

/// The first refused statement among the first `m`: its index and reason.
pub open spec fn first_refused_stmt(stmts: Seq<StatementKind>, m: nat, invoke: bool) -> Option<(nat, Seq<char>)>
    decreases m,
{
    if m == 0 {
        None
    } else {
        match first_refused_stmt(stmts, (m - 1) as nat, invoke) {
            Some(p) => Some(p),
            None => match stmt_check(stmts[m - 1], invoke) {
                Err(reason) => Some(((m - 1) as nat, reason)),
                Ok(()) => None,
            },
        }
    }
}

/// The verdict on block `b`: its first refused statement (`bbB:I reason`),
/// else its refused terminator (`bbB terminator reason`).
pub open spec fn block_verdict(body: Body, b: nat, invoke: bool) -> Result<(), Seq<char>> {
    let block = body.basic_blocks@[b as int];
    match first_refused_stmt(block.statements@, block.statements@.len(), invoke) {
        Some((i, reason)) => Err("bb"@ + decimal(b) + ":"@ + decimal(i) + " "@ + reason),
        None => match terminator_check(block.terminator->0, invoke) {
            Err(reason) => Err("bb"@ + decimal(b) + " terminator "@ + reason),
            Ok(()) => Ok(()),
        },
    }
}

/// The verdict on the first `k` blocks: that of the first refused block.
pub open spec fn body_verdict(body: Body, k: nat, invoke: bool) -> Result<(), Seq<char>>
    decreases k,
{
    if k == 0 {
        Ok(())
    } else {
        match body_verdict(body, (k - 1) as nat, invoke) {
            Err(m) => Err(m),
            Ok(()) => block_verdict(body, (k - 1) as nat, invoke),
        }
    }
}

fn err_text(m: &str) -> (r: Result<(), String>)
    ensures
        result_view(r) == Err::<(), Seq<char>>(m@),
{
    Err(m.to_string())
}

/// Purity of a right-hand side in a reduction body.
pub fn check_rvalue_purity(rvalue: &Rvalue) -> (r: Result<(), String>)
    ensures
        result_view(r) == rvalue_purity(*rvalue),
{
    match rvalue {
        Rvalue::Ref(kind, _) => match kind {
            BorrowKind::Mut => err_text("mutable borrow created in body"),
            _ => Ok(()),
        },
        Rvalue::RawPtr(_) => err_text("raw pointer creation in body"),
        Rvalue::ThreadLocalRef => err_text("ThreadLocalRef in body"),
        Rvalue::ShallowInitBox(_) => err_text("Box init (heap allocation) in body"),
        Rvalue::WrapUnsafeBinder(_) => err_text("unsafe binder in body"),
        _ => Ok(()),
    }
}

fn projection_has_deref(proj: &Vec<ProjectionElem>) -> (r: bool)
    ensures
        r == has_deref(proj@),
{
    let mut i: usize = 0;
    while i < proj.len()
        invariant
            i <= proj@.len(),
            forall|j: int| 0 <= j < i ==> proj@[j] != ProjectionElem::Deref,
        decreases proj@.len() - i,
    {
        match proj[i] {
            ProjectionElem::Deref => {
                return true;
            },
            _ => {},
        }
        i = i + 1;
    }
    false
}

/// Purity of a statement in a reduction body.
pub fn check_stmt_purity(stmt: &StatementKind) -> (r: Result<(), String>)
    ensures
        result_view(r) == stmt_purity(*stmt),
{
    match stmt {
        StatementKind::Assign(place, rvalue) => {
            // Field/Index OK; Deref could write shared memory
            if projection_has_deref(&place.projection) {
                return err_text("write through pointer (Deref projection)");
            }
            check_rvalue_purity(rvalue)
        },
        StatementKind::SetDiscriminant => err_text("statement kind not whitelisted: \"SetDiscriminant\""),
        StatementKind::Intrinsic => err_text("statement kind not whitelisted: \"Intrinsic\""),
        StatementKind::ConstEvalCounter => err_text("statement kind not whitelisted: \"ConstEvalCounter\""),
        StatementKind::BackwardIncompatibleDropHint => err_text(
            "statement kind not whitelisted: \"BackwardIncompatibleDropHint\"",
        ),
        _ => Ok(()),
    }
}

fn check_terminator_refusal(k: &TerminatorKind) -> (r: Result<(), String>)
    ensures
        result_view(r) == match terminator_refusal(*k) {
            Some(m) => Err(m),
            None => Ok(()),
        },
{
    match k {
        TerminatorKind::TailCall => err_text("TailCall in body"),
        TerminatorKind::Yield { .. } => err_text("Yield (generator) in body"),
        TerminatorKind::CoroutineDrop => err_text("CoroutineDrop in body"),
        TerminatorKind::InlineAsm { .. } => err_text("InlineAsm in body"),
        TerminatorKind::UnwindResume | TerminatorKind::UnwindTerminate => err_text("Unwind path in body"),
        _ => Ok(()),
    }
}

/// Purity of a terminator in a reduction body.
pub fn check_terminator_purity(k: &TerminatorKind) -> (r: Result<(), String>)
    ensures
        result_view(r) == terminator_purity(*k),
{
    match k {
        TerminatorKind::Drop { .. } => err_text("Drop terminator (Drop impl could have side effects)"),
        TerminatorKind::Call { func, .. } => match func {
            Operand::Constant(Const::FnDef { path }) => {
                if is_known_pure_callee(path.as_str()) {
                    Ok(())
                } else {
                    let mut m = "Call to non-allowlisted fn: ".to_string();
                    m.append(path.as_str());
                    Err(m)
                }
            },
            Operand::Constant(_) => err_text("Call target is not a FnDef"),
            _ => err_text("indirect Call (function pointer)"),
        },
        _ => check_terminator_refusal(k),
    }
}

/// Purity of a right-hand side in a parallel-invoke body.
pub fn check_rvalue_purity_for_invoke(rvalue: &Rvalue) -> (r: Result<(), String>)
    ensures
        result_view(r) == rvalue_purity_for_invoke(*rvalue),
{
    match rvalue {
        // Still reject; admitting caused downstream MIR ICE
        Rvalue::RawPtr(_) => err_text("raw pointer creation in body"),
        // Reject TLS; workers see their own slots
        Rvalue::ThreadLocalRef => err_text("ThreadLocalRef in body"),
        Rvalue::WrapUnsafeBinder(_) => err_text("unsafe binder in body"),
        _ => Ok(()),
    }
}

/// Purity of a statement in a parallel-invoke body.
pub fn check_stmt_purity_for_invoke(stmt: &StatementKind) -> (r: Result<(), String>)
    ensures
        result_view(r) == stmt_purity_for_invoke(*stmt),
{
    match stmt {
        // Allow Deref writes; Send/Sync guards owned heap
        StatementKind::Assign(_, rvalue) => check_rvalue_purity_for_invoke(rvalue),
        _ => Ok(()),
    }
}

/// Purity of a terminator in a parallel-invoke body.
pub fn check_terminator_purity_for_invoke(k: &TerminatorKind) -> (r: Result<(), String>)
    ensures
        result_view(r) == terminator_purity_for_invoke(*k),
{
    match k {
        // Admit any FnDef Call
        TerminatorKind::Call { func, .. } => match func {
            Operand::Constant(Const::FnDef { .. }) => Ok(()),
            Operand::Constant(_) => err_text("Call target is not a FnDef"),
            _ => err_text("indirect Call (function pointer)"),
        },
        _ => check_terminator_refusal(k),
    }
}

fn check_stmt(stmt: &StatementKind, invoke: bool) -> (r: Result<(), String>)
    ensures
        result_view(r) == stmt_check(*stmt, invoke),
{
    if invoke {
        check_stmt_purity_for_invoke(stmt)
    } else {
        check_stmt_purity(stmt)
    }
}

fn check_terminator(k: &TerminatorKind, invoke: bool) -> (r: Result<(), String>)
    ensures
        result_view(r) == terminator_check(*k, invoke),
{
    if invoke {
        check_terminator_purity_for_invoke(k)
    } else {
        check_terminator_purity(k)
    }
}

fn check_block(body: &Body, b: usize, invoke: bool) -> (r: Result<(), String>)
    requires
        b < body.num_blocks(),
        body.all_terminated(),
    ensures
        result_view(r) == block_verdict(*body, b as nat, invoke),
{
    let block = &body.basic_blocks[b];
    let mut i: usize = 0;
    while i < block.statements.len()
        invariant
            i <= block.statements@.len(),
            *block == body.basic_blocks@[b as int],
            first_refused_stmt(block.statements@, i as nat, invoke) is None,
        decreases block.statements@.len() - i,
    {
        match check_stmt(&block.statements[i], invoke) {
            Err(reason) => {
                let mut m = "bb".to_string();
                push_decimal(&mut m, b as u128);
                m.append(":");
                push_decimal(&mut m, i as u128);
                m.append(" ");
                m.append(reason.as_str());
                proof {
                    reveal_strlit("bb");
                    reveal_strlit(":");
                    reveal_strlit(" ");
                    assert(m@ =~= "bb"@ + decimal(b as nat) + ":"@ + decimal(i as nat) + " "@ + reason@);
                    assert(stmt_check(block.statements@[i as int], invoke) == Err::<(), Seq<char>>(reason@));
                    assert(first_refused_stmt(block.statements@, (i + 1) as nat, invoke) == Some((i as nat, reason@)));
                    lemma_first_refused_stays(block.statements@, (i + 1) as nat, block.statements@.len(), invoke);
                }
                return Err(m);
            },
            Ok(()) => {},
        }
        i = i + 1;
    }
    let term = match &block.terminator {
        Some(t) => t,
        None => {
            return Ok(());
        },
    };
    match check_terminator(term, invoke) {
        Err(reason) => {
            let mut m = "bb".to_string();
            push_decimal(&mut m, b as u128);
            m.append(" terminator ");
            m.append(reason.as_str());
            proof {
                reveal_strlit("bb");
                reveal_strlit(" terminator ");
                assert(m@ =~= "bb"@ + decimal(b as nat) + " terminator "@ + reason@);
            }
            Err(m)
        },
        Ok(()) => Ok(()),
    }
}

proof fn lemma_first_refused_stays(stmts: Seq<StatementKind>, m: nat, n: nat, invoke: bool)
    requires
        m <= n,
        first_refused_stmt(stmts, m, invoke) is Some,
    ensures
        first_refused_stmt(stmts, n, invoke) == first_refused_stmt(stmts, m, invoke),
    decreases n - m,
{
    if m < n {
        lemma_first_refused_stays(stmts, m + 1, n, invoke);
    }
}

proof fn lemma_body_verdict_stays(body: Body, m: nat, n: nat, invoke: bool)
    requires
        m <= n,
        body_verdict(body, m, invoke) is Err,
    ensures
        body_verdict(body, n, invoke) == body_verdict(body, m, invoke),
    decreases n - m,
{
    if m < n {
        lemma_body_verdict_stays(body, m + 1, n, invoke);
    }
}

fn check_mir(body: &Body, invoke: bool) -> (r: Result<(), String>)
    requires
        body.all_terminated(),
    ensures
        result_view(r) == body_verdict(*body, body.num_blocks(), invoke),
{
    let mut b: usize = 0;
    while b < body.basic_blocks.len()
        invariant
            b <= body.num_blocks(),
            body.all_terminated(),
            body_verdict(*body, b as nat, invoke) == Ok::<(), Seq<char>>(()),
        decreases body.num_blocks() - b,
    {
        let r = check_block(body, b, invoke);
        if r.is_err() {
            proof {
                lemma_body_verdict_stays(*body, (b + 1) as nat, body.num_blocks(), invoke);
            }
            return r;
        }
        b = b + 1;
    }
    Ok(())
}

/// The statements and terminators of a body, checked in block order for a
/// reduction callee: the first refusal, with its place, or success.
pub fn check_mir_purity(body: &Body) -> (r: Result<(), String>)
    requires
        body.all_terminated(),
    ensures
        result_view(r) == body_verdict(*body, body.num_blocks(), false),
{
    check_mir(body, false)
}

/// The same scan with the relaxed checks of a parallel-invoke callee.
pub fn check_mir_purity_for_invoke(body: &Body) -> (r: Result<(), String>)
    requires
        body.all_terminated(),
    ensures
        result_view(r) == body_verdict(*body, body.num_blocks(), true),
{
    check_mir(body, true)
}


/// What the compiler knows of a callee before its body is scanned: its
/// printed path and the answers of the checks made on it first.
#[derive(Clone, Debug)]
pub struct CalleeFacts {
    pub path: String,
    /// The callee is the body under optimization itself.
    pub is_caller_body: bool,
    /// The callee is already being inspected further up (a recursion cycle).
    pub in_progress: bool,
    /// Its signature holds free or bound regions.
    pub has_problematic_regions: bool,
    /// Its body reaches into `proc_macro` or `proc_macro2`.
    pub calls_proc_macro: bool,
    /// It is defined in the crate being compiled.
    pub is_local: bool,
}

/// The verdict on a callee: the first failed precondition of the scan, in
/// order, else the verdict of the scan of its body.
pub open spec fn callee_verdict(facts: CalleeFacts, mir: Option<Body>, invoke: bool) -> Result<(), Seq<char>> {
    let p = facts.path@;
    if facts.is_caller_body {
        Err("self-recursive callee "@ + p + " \u{2014} cannot inspect own optimized_mir mid-pass"@)
    } else if facts.in_progress {
        Err("mutual-recursion cycle reaching "@ + p + " \u{2014} cannot inspect mid-pass"@)
    } else if facts.has_problematic_regions {
        Err("fn signature contains free/bound regions "@ + p + " \u{2014} would leak into synthesized MIR"@)
    } else if facts.calls_proc_macro {
        Err("body of "@ + p + " calls into proc_macro/proc_macro2 \u{2014} unsafe to run on parallel worker"@)
    } else if !facts.is_local {
        Err("cross-crate body "@ + p + " \u{2014} purity not analysable from this crate"@)
    } else {
        match mir {
            None => Err("MIR unavailable for "@ + p),
            Some(b) => body_verdict(b, b.num_blocks(), invoke),
        }
    }
}

fn framed(head: &str, p: &String, tail: &str) -> (r: Result<(), String>)
    ensures
        result_view(r) == Err::<(), Seq<char>>(head@ + p@ + tail@),
{
    let mut m = head.to_string();
    m.append(p.as_str());
    m.append(tail);
    Err(m)
}

fn check_callee(facts: &CalleeFacts, mir: Option<&Body>, invoke: bool) -> (r: Result<(), String>)
    requires
        mir matches Some(b) ==> b.all_terminated(),
    ensures
        result_view(r) == callee_verdict(*facts, match mir { Some(b) => Some(*b), None => None }, invoke),
{
    proof {
        reveal_strlit("self-recursive callee ");
        reveal_strlit(" \u{2014} cannot inspect own optimized_mir mid-pass");
        reveal_strlit("mutual-recursion cycle reaching ");
        reveal_strlit(" \u{2014} cannot inspect mid-pass");
        reveal_strlit("fn signature contains free/bound regions ");
        reveal_strlit(" \u{2014} would leak into synthesized MIR");
        reveal_strlit("body of ");
        reveal_strlit(" calls into proc_macro/proc_macro2 \u{2014} unsafe to run on parallel worker");
        reveal_strlit("cross-crate body ");
        reveal_strlit(" \u{2014} purity not analysable from this crate");
        reveal_strlit("MIR unavailable for ");
        reveal_strlit("");
    }
    if facts.is_caller_body {
        return framed("self-recursive callee ", &facts.path, " \u{2014} cannot inspect own optimized_mir mid-pass");
    }
    if facts.in_progress {
        return framed("mutual-recursion cycle reaching ", &facts.path, " \u{2014} cannot inspect mid-pass");
    }
    // un-erased regions fail MIR validation
    if facts.has_problematic_regions {
        return framed("fn signature contains free/bound regions ", &facts.path, " \u{2014} would leak into synthesized MIR");
    }
    // proc_macro callers need bridge TLS
    if facts.calls_proc_macro {
        return framed("body of ", &facts.path, " calls into proc_macro/proc_macro2 \u{2014} unsafe to run on parallel worker");
    }
    if !facts.is_local {
        return framed("cross-crate body ", &facts.path, " \u{2014} purity not analysable from this crate");
    }
    match mir {
        None => {
            let r = framed("MIR unavailable for ", &facts.path, "");
            assert("MIR unavailable for "@ + facts.path@ + ""@ =~= "MIR unavailable for "@ + facts.path@);
            r
        },
        Some(b) => check_mir(b, invoke),
    }
}

/// Conservative purity check of a reduction callee: the checks on the
/// callee first, then its body's statements and terminators.
pub fn check_body_purity(facts: &CalleeFacts, mir: Option<&Body>) -> (r: Result<(), String>)
    requires
        mir matches Some(b) ==> b.all_terminated(),
    ensures
        result_view(r) == callee_verdict(*facts, match mir { Some(b) => Some(*b), None => None }, false),
{
    check_callee(facts, mir, false)
}

/// The relaxed purity check of a parallel-invoke callee.
pub fn check_body_purity_for_invoke(facts: &CalleeFacts, mir: Option<&Body>) -> (r: Result<(), String>)
    requires
        mir matches Some(b) ==> b.all_terminated(),
    ensures
        result_view(r) == callee_verdict(*facts, match mir { Some(b) => Some(*b), None => None }, true),
{
    check_callee(facts, mir, true)
}

/// What the compiler gives of a callee for its purity check: its facts
/// and, where it has one, its body.
pub struct CalleePurity {
    pub facts: CalleeFacts,
    pub mir: Option<Body>,
}

/// The facts a parallel-invoke match needs of a callee, with its purity
/// taken from the relaxed purity check of its body and its cost from the
/// weighted cost estimate (at depth 1, an empty stack).
pub fn invoke_callee_info(
    is_local: bool,
    in_sysroot: bool,
    sig_inputs: usize,
    output_matches_dest: bool,
    dest_ty_identical: bool,
    callee: &CalleePurity,
    table: &crate::cost::FnTable,
    body_did: &str,
) -> (r: crate::invoke::CalleeInfo)
    requires
        callee.mir matches Some(m) ==> m.all_terminated(),
    ensures
        r.is_local == is_local,
        r.in_sysroot == in_sysroot,
        r.sig_inputs == sig_inputs,
        r.output_matches_dest == output_matches_dest,
        r.dest_ty_identical == dest_ty_identical,
        r.invoke_pure == (callee_verdict(callee.facts, callee.mir, true) is Ok),
        r.cost == crate::cost::weighted_cost(table.entries@, callee.facts.path@, 1, body_did@, Seq::empty()),
{
    let verdict = match &callee.mir {
        Some(m) => check_body_purity_for_invoke(&callee.facts, Some(m)),
        None => check_body_purity_for_invoke(&callee.facts, None),
    };
    let mut stack: Vec<String> = Vec::new();
    let cost = crate::cost::body_weighted_cost(table, callee.facts.path.as_str(), 1, body_did, &mut stack);
    proof {
        assert(stack@.map_values(|s: String| s@) =~= Seq::<Seq<char>>::empty());
    }
    crate::invoke::CalleeInfo {
        is_local,
        in_sysroot,
        sig_inputs,
        output_matches_dest,
        dest_ty_identical,
        invoke_pure: verdict.is_ok(),
        cost,
    }
}

} // verus!
