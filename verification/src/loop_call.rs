//! Replacing a loop by one call of a runtime helper. Temporaries are added
//! (and a unit local for the helper's result); a new block sets the
//! temporaries, calls the helper and goes to the loop's exit; the loop's
//! entry block, instead of entering the loop header, enters the new block.
use vstd::prelude::*;
use crate::mir::{
    Body, BasicBlockData, StatementKind, TerminatorKind, Operand, Const, Place, Rvalue, BorrowKind, UnwindAction,
    LocalTy, ProjectionElem, UnOp,
};
use crate::detect::successors_spec;
use crate::iter_methods::{operand_is, same_operand, copy_operand};

verus! {

/// How a temporary of the replacement is set.
#[derive(Clone, Copy, PartialEq, Eq, Debug, Structural)]
pub enum TempInit {
    /// A unique (or shared) re-borrow of what local `of` points to:
    /// `&mut (*of)` or `&(*of)`.
    Reborrow { of: usize, mutable: bool },
    /// The negation of a copy of local `of`.
    Neg(usize),
    /// The length of the slice that a copy of local `of` points to.
    Len(usize),
}

/// An argument of the helper call: a temporary of the replacement, moved;
/// a copy of a bare local; or a given operand.
#[derive(Debug)]
pub enum CallArg {
    Temp(usize),
    Copy(usize),
    Op(Operand),
}

/// A replacement: (loop entry block, loop exit block, helper path,
/// temporaries, arguments).
pub type LoopCallView = (usize, usize, Seq<char>, Seq<TempInit>, Seq<CallArg>);

/// A replacement to apply.
#[derive(Debug)]
pub struct LoopCall {
    pub entry_bb: usize,
    pub exit_bb: usize,
    pub helper: String,
    pub temps: Vec<TempInit>,
    pub args: Vec<CallArg>,
}

impl LoopCall {
    pub open spec fn view_tuple(&self) -> LoopCallView {
        (self.entry_bb, self.exit_bb, self.helper@, self.temps@, self.args@)
    }
}

/// `s` sets the bare local `local` as `init` says.
pub open spec fn temp_stmt(s: StatementKind, local: int, init: TempInit) -> bool {
    &&& s is Assign
    &&& s->Assign_0.local == local
    &&& s->Assign_0.projection@.len() == 0
    &&& match init {
        TempInit::Reborrow { of, mutable } => {
            &&& s->Assign_1 matches Rvalue::Ref(k, q)
            &&& s->Assign_1->Ref_0 == if mutable {
                BorrowKind::Mut
            } else {
                BorrowKind::Shared
            }
            &&& s->Assign_1->Ref_1.local == of
            &&& s->Assign_1->Ref_1.projection@ == seq![ProjectionElem::Deref]
        },
        TempInit::Neg(of) => {
            &&& s->Assign_1 matches Rvalue::UnaryOp(UnOp::Neg, o)
            &&& operand_is(s->Assign_1->UnaryOp_1, of, false)
        },
        TempInit::Len(of) => {
            &&& s->Assign_1 matches Rvalue::UnaryOp(UnOp::PtrMetadata, o)
            &&& operand_is(s->Assign_1->UnaryOp_1, of, false)
        },
    }
}

/// Operand `o` is argument `a`, the temporaries starting at local `base`.
pub open spec fn call_arg_ok(o: Operand, a: CallArg, base: int) -> bool {
    match a {
        CallArg::Temp(i) => operand_is(o, (base + i) as usize, true),
        CallArg::Copy(l) => operand_is(o, l, false),
        CallArg::Op(x) => same_operand(o, x),
    }
}

/// The new block: it sets the temporaries (locals from `base` on), in
/// order, then calls the helper into the unit local after them, going to
/// the loop's exit and never unwinding.
pub open spec fn helper_block(blk: BasicBlockData, lc: LoopCallView, base: int) -> bool {
    let t = lc.3.len();
    &&& blk.statements@.len() == t
    &&& forall|i: int| 0 <= i < t ==> #[trigger] temp_stmt(blk.statements@[i], base + i, lc.3[i])
    &&& blk.terminator matches Some(TerminatorKind::Call { func, args, destination, target, unwind })
    &&& blk.terminator->0->Call_func matches Operand::Constant(Const::FnDef { path })
    &&& blk.terminator->0->Call_func->Constant_0->FnDef_path@ == lc.2
    &&& blk.terminator->0->Call_args@.len() == lc.4.len()
    &&& forall|j: int|
        0 <= j < lc.4.len() ==> #[trigger] call_arg_ok(blk.terminator->0->Call_args@[j], lc.4[j], base)
    &&& blk.terminator->0->Call_destination.local == base + t
    &&& blk.terminator->0->Call_destination.projection@.len() == 0
    &&& blk.terminator->0->Call_target == Some(lc.1)
    &&& blk.terminator->0->Call_unwind == UnwindAction::Unreachable
}

/// The block the loop's entry block enters first: the first successor of
/// its terminator.
pub open spec fn loop_header(b: Body, entry: usize) -> Option<usize> {
    match b.basic_blocks@[entry as int].terminator {
        Some(k) => if successors_spec(k).len() > 0 {
            Some(successors_spec(k)[0])
        } else {
            None
        },
        None => None,
    }
}

/// `t`, or `to` where `t` is `from`.
pub open spec fn re(t: usize, from: usize, to: usize) -> usize {
    if t == from {
        to
    } else {
        t
    }
}

pub open spec fn re_unwind(u: UnwindAction, from: usize, to: usize) -> UnwindAction {
    match u {
        UnwindAction::Cleanup(b) => UnwindAction::Cleanup(re(b, from, to)),
        _ => u,
    }
}

/// Terminator `new` is `old` with every successor `from` made `to`.
pub open spec fn redirected(old: TerminatorKind, new: TerminatorKind, from: usize, to: usize) -> bool {
    match old {
        TerminatorKind::Goto { target } => new == TerminatorKind::Goto { target: re(target, from, to) },
        TerminatorKind::SwitchInt { discr, targets, otherwise } => {
            &&& new is SwitchInt
            &&& new->SwitchInt_discr == discr
            &&& new->SwitchInt_targets@ == targets@.map_values(|p: (u128, usize)| (p.0, re(p.1, from, to)))
            &&& new->SwitchInt_otherwise == re(otherwise, from, to)
        },
        TerminatorKind::Drop { target, unwind } => new == TerminatorKind::Drop {
            target: re(target, from, to),
            unwind: re_unwind(unwind, from, to),
        },
        TerminatorKind::Call { func, args, destination, target, unwind } => new == TerminatorKind::Call {
            func,
            args,
            destination,
            target: match target {
                Some(t) => Some(re(t, from, to)),
                None => None,
            },
            unwind: re_unwind(unwind, from, to),
        },
        TerminatorKind::Assert { target, unwind } => new == TerminatorKind::Assert {
            target: re(target, from, to),
            unwind: re_unwind(unwind, from, to),
        },
        TerminatorKind::Yield { resume, drop } => new == TerminatorKind::Yield {
            resume: re(resume, from, to),
            drop: match drop {
                Some(d) => Some(re(d, from, to)),
                None => None,
            },
        },
        TerminatorKind::FalseEdge { real_target, imaginary_target } => new == TerminatorKind::FalseEdge {
            real_target: re(real_target, from, to),
            imaginary_target: re(imaginary_target, from, to),
        },
        TerminatorKind::FalseUnwind { real_target, unwind } => new == TerminatorKind::FalseUnwind {
            real_target: re(real_target, from, to),
            unwind: re_unwind(unwind, from, to),
        },
        TerminatorKind::InlineAsm { targets, unwind } => {
            &&& new is InlineAsm
            &&& new->InlineAsm_targets@ == targets@.map_values(|t: usize| re(t, from, to))
            &&& new->InlineAsm_unwind == re_unwind(unwind, from, to)
        },
        _ => new == old,
    }
}

/// `b1` is `b0` with replacement `lc` applied: the temporaries and the unit
/// local are added; when the entry block has a successor (the header), the
/// new block is added at the end, the entry block's successors that are the
/// header become the new block, and every other block is unchanged; without
/// a header the blocks are left as they were.
pub open spec fn loop_call_applied(b0: Body, b1: Body, lc: LoopCallView) -> bool {
    let base = b0.local_tys@.len();
    let t = lc.3.len();
    let n = b0.num_blocks();
    &&& b1.arg_count == b0.arg_count
    &&& b1.local_tys@ == b0.local_tys@ + Seq::new(t + 1, |i: int| LocalTy::Other)
    &&& match loop_header(b0, lc.0) {
        None => b1.basic_blocks == b0.basic_blocks,
        Some(h) => {
            &&& b1.basic_blocks@.len() == n + 1
            &&& forall|i: int| 0 <= i < n && i != lc.0 ==> #[trigger] b1.basic_blocks@[i] == b0.basic_blocks@[i]
            &&& b1.basic_blocks@[lc.0 as int].statements == b0.basic_blocks@[lc.0 as int].statements
            &&& b1.basic_blocks@[lc.0 as int].terminator is Some
            &&& redirected(
                b0.basic_blocks@[lc.0 as int].terminator->0,
                b1.basic_blocks@[lc.0 as int].terminator->0,
                h,
                n as usize,
            )
            &&& helper_block(b1.basic_blocks@[n as int], lc, base as int)
        },
    }
}

fn re_exec(t: usize, from: usize, to: usize) -> (r: usize)
    ensures
        r == re(t, from, to),
{
    if t == from {
        to
    } else {
        t
    }
}

fn re_unwind_exec(u: UnwindAction, from: usize, to: usize) -> (r: UnwindAction)
    ensures
        r == re_unwind(u, from, to),
{
    match u {
        UnwindAction::Cleanup(b) => UnwindAction::Cleanup(re_exec(b, from, to)),
        _ => u,
    }
}

/// `k` with every successor `from` made `to`.
pub(crate) fn redirect_term(k: TerminatorKind, from: usize, to: usize) -> (r: TerminatorKind)
    ensures
        redirected(k, r, from, to),
{
    match k {
        TerminatorKind::Goto { target } => TerminatorKind::Goto { target: re_exec(target, from, to) },
        TerminatorKind::SwitchInt { discr, targets, otherwise } => {
            let mut ts: Vec<(u128, usize)> = Vec::new();
            let mut i: usize = 0;
            while i < targets.len()
                invariant
                    i <= targets@.len(),
                    ts@ == targets@.take(i as int).map_values(|p: (u128, usize)| (p.0, re(p.1, from, to))),
                decreases targets@.len() - i,
            {
                let p = targets[i];
                ts.push((p.0, re_exec(p.1, from, to)));
                i = i + 1;
                assert(ts@ =~= targets@.take(i as int).map_values(|p: (u128, usize)| (p.0, re(p.1, from, to))));
            }
            assert(targets@.take(i as int) =~= targets@);
            TerminatorKind::SwitchInt { discr, targets: ts, otherwise: re_exec(otherwise, from, to) }
        },
        TerminatorKind::Drop { target, unwind } => TerminatorKind::Drop {
            target: re_exec(target, from, to),
            unwind: re_unwind_exec(unwind, from, to),
        },
        TerminatorKind::Call { func, args, destination, target, unwind } => TerminatorKind::Call {
            func,
            args,
            destination,
            target: match target {
                Some(t) => Some(re_exec(t, from, to)),
                None => None,
            },
            unwind: re_unwind_exec(unwind, from, to),
        },
        TerminatorKind::Assert { target, unwind } => TerminatorKind::Assert {
            target: re_exec(target, from, to),
            unwind: re_unwind_exec(unwind, from, to),
        },
        TerminatorKind::Yield { resume, drop } => TerminatorKind::Yield {
            resume: re_exec(resume, from, to),
            drop: match drop {
                Some(d) => Some(re_exec(d, from, to)),
                None => None,
            },
        },
        TerminatorKind::FalseEdge { real_target, imaginary_target } => TerminatorKind::FalseEdge {
            real_target: re_exec(real_target, from, to),
            imaginary_target: re_exec(imaginary_target, from, to),
        },
        TerminatorKind::FalseUnwind { real_target, unwind } => TerminatorKind::FalseUnwind {
            real_target: re_exec(real_target, from, to),
            unwind: re_unwind_exec(unwind, from, to),
        },
        TerminatorKind::InlineAsm { targets, unwind } => {
            let mut ts: Vec<usize> = Vec::new();
            let mut i: usize = 0;
            while i < targets.len()
                invariant
                    i <= targets@.len(),
                    ts@ == targets@.take(i as int).map_values(|t: usize| re(t, from, to)),
                decreases targets@.len() - i,
            {
                ts.push(re_exec(targets[i], from, to));
                i = i + 1;
                assert(ts@ =~= targets@.take(i as int).map_values(|t: usize| re(t, from, to)));
            }
            assert(targets@.take(i as int) =~= targets@);
            TerminatorKind::InlineAsm { targets: ts, unwind: re_unwind_exec(unwind, from, to) }
        },
        other => other,
    }
}

pub(crate) fn temp_stmt_of(local: usize, init: TempInit) -> (r: StatementKind)
    ensures
        temp_stmt(r, local as int, init),
{
    let dst = Place { local, projection: Vec::new() };
    match init {
        TempInit::Reborrow { of, mutable } => {
            let mut proj: Vec<ProjectionElem> = Vec::new();
            proj.push(ProjectionElem::Deref);
            assert(proj@ =~= seq![ProjectionElem::Deref]);
            let kind = if mutable {
                BorrowKind::Mut
            } else {
                BorrowKind::Shared
            };
            StatementKind::Assign(dst, Rvalue::Ref(kind, Place { local: of, projection: proj }))
        },
        TempInit::Neg(of) => StatementKind::Assign(
            dst,
            Rvalue::UnaryOp(UnOp::Neg, Operand::Copy(Place { local: of, projection: Vec::new() })),
        ),
        TempInit::Len(of) => StatementKind::Assign(
            dst,
            Rvalue::UnaryOp(UnOp::PtrMetadata, Operand::Copy(Place { local: of, projection: Vec::new() })),
        ),
    }
}

/// Applies replacement `lc` and says whether the loop was replaced (its
/// entry block has a successor).
pub fn apply_loop_call(body: &mut Body, lc: LoopCall) -> (ok: bool)
    requires
        lc.entry_bb < old(body).num_blocks(),
        forall|q: int| 0 <= q < lc.args@.len() && #[trigger] lc.args@[q] is Temp ==> lc.args@[q]->Temp_0 < lc.temps@.len(),
    ensures
        loop_call_applied(*old(body), *final(body), lc.view_tuple()),
        ok == (loop_header(*old(body), lc.entry_bb) is Some),
{
    let ghost b0 = *body;
    let ghost lv = lc.view_tuple();
    let mut lc = lc;
    let base = body.local_tys.len();
    let t = lc.temps.len();
    let mut stmts: Vec<StatementKind> = Vec::new();
    let mut i: usize = 0;
    while i < t
        invariant
            i <= t,
            t == lc.temps@.len(),
            lc.temps@ == lv.3,
            base == b0.local_tys@.len(),
            body.local_tys@ == b0.local_tys@ + Seq::new(i as nat, |j: int| LocalTy::Other),
            body.basic_blocks == b0.basic_blocks,
            body.arg_count == b0.arg_count,
            stmts@.len() == i,
            forall|j: int| 0 <= j < i ==> #[trigger] temp_stmt(stmts@[j], base + j, lv.3[j]),
        decreases t - i,
    {
        let local = body.local_tys.len();
        body.local_tys.push(LocalTy::Other);
        let ghost prev = stmts@;
        stmts.push(temp_stmt_of(local, lc.temps[i]));
        proof {
            assert(body.local_tys@ =~= b0.local_tys@ + Seq::new((i + 1) as nat, |j: int| LocalTy::Other));
            assert forall|j: int| 0 <= j < i + 1 implies #[trigger] temp_stmt(stmts@[j], base + j, lv.3[j]) by {
                if j < i {
                    assert(stmts@[j] == prev[j]);
                }
            }
        }
        i = i + 1;
    }
    let unit = body.local_tys.len();
    body.local_tys.push(LocalTy::Other);
    proof {
        assert(body.local_tys@ =~= b0.local_tys@ + Seq::new((t + 1) as nat, |j: int| LocalTy::Other));
    }
    let header = match &body.basic_blocks[lc.entry_bb].terminator {
        Some(k) => {
            let succs = crate::detect::terminator_successors(k);
            if succs.len() == 0 {
                return false;
            }
            succs[0]
        },
        None => {
            return false;
        },
    };
    // the helper's arguments
    let mut args: Vec<Operand> = Vec::new();
    let mut j: usize = 0;
    let ghost arg_specs = lc.args@;
    assert(lc.args@.len() == lc.args.len());
    while lc.args.len() > 0
        invariant
            lc.args@ == arg_specs.skip(j as int),
            j + lc.args@.len() == arg_specs.len(),
            arg_specs == lv.4,
            args@.len() == j,
            forall|q: int| 0 <= q < j ==> #[trigger] call_arg_ok(args@[q], arg_specs[q], base as int),
            forall|q: int| 0 <= q < arg_specs.len() && #[trigger] arg_specs[q] is Temp ==> arg_specs[q]->Temp_0 < t,
            t == lc.temps@.len(),
            base == b0.local_tys@.len(),
            body.local_tys@.len() == base + t + 1,
            arg_specs.len() <= usize::MAX,
            lc.entry_bb == lv.0,
            lc.exit_bb == lv.1,
            lc.helper@ == lv.2,
            lc.temps@ == lv.3,
            lv.0 < b0.num_blocks(),
            body.basic_blocks == b0.basic_blocks,
            body.arg_count == b0.arg_count,
            body.local_tys@ == b0.local_tys@ + Seq::new((t + 1) as nat, |j: int| LocalTy::Other),
        decreases lc.args@.len(),
    {
        let a = lc.args.remove(0);
        assert(a == arg_specs[j as int]);
        let o = match a {
            CallArg::Temp(k) => {
                assert(body.local_tys@.len() == body.local_tys.len());
                Operand::Move(Place { local: base + k, projection: Vec::new() })
            },
            CallArg::Copy(l) => Operand::Copy(Place { local: l, projection: Vec::new() }),
            CallArg::Op(x) => x,
        };
        let ghost prev = args@;
        args.push(o);
        proof {
            assert forall|q: int| 0 <= q < j + 1 implies #[trigger] call_arg_ok(args@[q], arg_specs[q], base as int) by {
                if q < j {
                    assert(args@[q] == prev[q]);
                }
            }
            assert(lc.args@ =~= arg_specs.skip(j + 1));
        }
        j = j + 1;
    }
    let n = body.basic_blocks.len();
    body.basic_blocks.push(
        BasicBlockData {
            statements: stmts,
            terminator: Some(
                TerminatorKind::Call {
                    func: Operand::Constant(Const::FnDef { path: lc.helper }),
                    args,
                    destination: Place { local: unit, projection: Vec::new() },
                    target: Some(lc.exit_bb),
                    unwind: UnwindAction::Unreachable,
                },
            ),
        },
    );
    let old_term = body.basic_blocks[lc.entry_bb].terminator.take();
    match old_term {
        Some(k) => {
            body.basic_blocks[lc.entry_bb].terminator = Some(redirect_term(k, header, n));
        },
        None => {},
    }
    true
}

proof fn lemma_re_below(t: usize, from: usize, to: usize, n: nat)
    requires
        t < n,
        to <= n,
    ensures
        re(t, from, to) < n + 1,
{
}

proof fn lemma_unwind_re_ok(u: UnwindAction, from: usize, to: usize, n: nat)
    requires
        crate::mir::unwind_target_ok(u, n),
        to <= n,
    ensures
        crate::mir::unwind_target_ok(re_unwind(u, from, to), n + 1),
{
}

/// Redirecting a successor to the block just past the end keeps a
/// terminator's targets in range of the grown body.
pub(crate) proof fn lemma_redirected_ok(old: TerminatorKind, new: TerminatorKind, from: usize, to: usize, n: nat)
    requires
        crate::mir::terminator_targets_ok(old, n),
        redirected(old, new, from, to),
        to <= n,
    ensures
        crate::mir::terminator_targets_ok(new, n + 1),
{
    match old {
        TerminatorKind::SwitchInt { discr, targets, otherwise } => {
            assert forall|i: int| 0 <= i < new->SwitchInt_targets@.len() implies (
            #[trigger] new->SwitchInt_targets@[i]).1 < n + 1 by {
                assert(targets@[i].1 < n);
            }
        },
        TerminatorKind::InlineAsm { targets, unwind } => {
            assert forall|i: int| 0 <= i < new->InlineAsm_targets@.len() implies #[trigger] new->InlineAsm_targets@[i]
                < n + 1 by {
                assert(targets@[i] < n);
            }
        },
        _ => {},
    }
}

/// A replacement whose entry and exit blocks are blocks of a well-formed
/// body leaves it well formed: every terminator names existing blocks, and
/// every block keeps its terminator.
pub proof fn lemma_loop_call_keeps_targets(b0: Body, b1: Body, lc: LoopCallView)
    requires
        b0.targets_valid(),
        lc.0 < b0.num_blocks(),
        lc.1 < b0.num_blocks(),
        loop_call_applied(b0, b1, lc),
    ensures
        b1.targets_valid(),
        b0.all_terminated() ==> b1.all_terminated(),
{
    let n = b0.num_blocks();
    match loop_header(b0, lc.0) {
        None => {},
        Some(h) => {
            assert forall|i: int| 0 <= i < b1.basic_blocks@.len() implies match (
            #[trigger] b1.basic_blocks@[i]).terminator {
                Some(k) => crate::mir::terminator_targets_ok(k, b1.basic_blocks@.len()),
                None => true,
            } by {
                if i == n {
                } else if i == lc.0 {
                    lemma_redirected_ok(
                        b0.basic_blocks@[i].terminator->0,
                        b1.basic_blocks@[i].terminator->0,
                        h,
                        n as usize,
                        n,
                    );
                } else {
                    assert(b1.basic_blocks@[i] == b0.basic_blocks@[i]);
                    match b0.basic_blocks@[i].terminator {
                        Some(k) => crate::fork::lemma_targets_grow(k, n, n + 1),
                        None => {},
                    }
                }
            }
            if b0.all_terminated() {
                assert forall|i: int| 0 <= i < b1.basic_blocks@.len() implies (
                #[trigger] b1.basic_blocks@[i]).terminator is Some by {
                    if i != n && i != lc.0 {
                        assert(b1.basic_blocks@[i] == b0.basic_blocks@[i]);
                    }
                }
            }
        },
    }
}

} // verus!
