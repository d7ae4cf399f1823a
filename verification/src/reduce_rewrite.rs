//! Reduction loops replaced by one call of a parallel reduce helper.
//! First the loops `acc = op(acc, f(i))` over an index range: each becomes
//! a block that casts the body function `f` to a function pointer and
//! calls the typed reduce helper on the range's start and end and that
//! pointer, into the accumulator. Then, on the body as it is by then, the
//! loops that sum a `&[u64]`: each becomes a call of the slice sum helper.
use vstd::prelude::*;
use crate::mir::{
    Body, BasicBlockData, StatementKind, TerminatorKind, Operand, Const, Place, Rvalue, LocalTy, UnwindAction,
};
use crate::detect::{SimpleLoop, find_simple_loops, loops_spec, block_range, loop_ok, lemma_loops_in_range, term_of};
use crate::shape::{entry_preds, lemma_entry_preds_bounded, last_target_for, lemma_last_target_in};
use crate::idioms::{AccTyTag, ReduceOp, width_spec, reduce_helper_name};
use crate::reduce_loops::{
    ReducePlan, SliceReducePlan, LoopBound, FnSigFacts, reduce_plan, slice_reduce_plan, body_calls, body_call_at,
    fold_of_calls, last_outside, header_exit, analyze_loop_for_transform, analyze_slice_loop_for_transform,
};
use crate::purity::{CalleeFacts, CalleePurity, callee_verdict, check_body_purity};
use crate::loop_call::{loop_header, redirected, redirect_term, lemma_redirected_ok};
use crate::iter_methods::{helper_listed, helper_available, operand_is, same_operand, copy_operand};
use crate::gates::{sysroot_crate, is_in_sysroot_crate};
use crate::loop_idioms::LoopIdiomGates;
use crate::text::{contains_text, contains_str};

verus! {

/// The callee operand of block `b`'s call.
pub open spec fn call_func(body: Body, b: usize) -> Option<Operand> {
    match term_of(body, b as int) {
        Some(TerminatorKind::Call { func, .. }) => Some(func),
        _ => None,
    }
}

/// A constant of the accumulator's type with raw bits `bits`.
pub open spec fn acc_const(bits: u128, tag: AccTyTag) -> Operand {
    Operand::Constant(Const::Scalar { bits, size_bits: width_spec(tag) as u32 })
}

/// The new block of a reduction: it casts the body function `f` into the
/// bare local `fnptr_l`, then calls the plan's reduce helper on the start,
/// the end (a constant or a copy of the bound local) and the moved
/// pointer, into the accumulator, going to the loop's exit and never
/// unwinding.
pub open spec fn reduce_block(blk: BasicBlockData, p: ReducePlan, f: Operand, fnptr_l: int) -> bool {
    &&& blk.statements@.len() == 1
    &&& blk.statements@[0] matches StatementKind::Assign(place, Rvalue::Cast(o))
    &&& blk.statements@[0]->Assign_0.local == fnptr_l
    &&& blk.statements@[0]->Assign_0.projection@.len() == 0
    &&& same_operand(blk.statements@[0]->Assign_1->Cast_0, f)
    &&& blk.terminator matches Some(TerminatorKind::Call { func, args, destination, target, unwind })
    &&& blk.terminator->0->Call_func matches Operand::Constant(Const::FnDef { path })
    &&& blk.terminator->0->Call_func->Constant_0->FnDef_path@ == reduce_helper_name(p.reduce_op, p.acc_ty_tag)
    &&& blk.terminator->0->Call_args@.len() == 3
    &&& blk.terminator->0->Call_args@[0] == acc_const(p.iter_start_bits, p.acc_ty_tag)
    &&& match p.end_bound {
        LoopBound::Const(n) => blk.terminator->0->Call_args@[1] == acc_const(n as u128, p.acc_ty_tag),
        LoopBound::Local(l) => operand_is(blk.terminator->0->Call_args@[1], l, false),
    }
    &&& operand_is(blk.terminator->0->Call_args@[2], fnptr_l as usize, true)
    &&& blk.terminator->0->Call_destination.local == p.acc_local
    &&& blk.terminator->0->Call_destination.projection@.len() == 0
    &&& blk.terminator->0->Call_target == Some(p.exit_bb)
    &&& blk.terminator->0->Call_unwind == UnwindAction::Unreachable
}

/// `b1` is `b0` with block `n` (the new last block) entered from the entry
/// block instead of the header, every other old block unchanged.
pub open spec fn entry_rerouted(b0: Body, b1: Body, entry: usize, h: usize) -> bool {
    let n = b0.num_blocks();
    &&& b1.basic_blocks@.len() == n + 1
    &&& forall|i: int| 0 <= i < n && i != entry ==> #[trigger] b1.basic_blocks@[i] == b0.basic_blocks@[i]
    &&& b1.basic_blocks@[entry as int].statements == b0.basic_blocks@[entry as int].statements
    &&& b1.basic_blocks@[entry as int].terminator is Some
    &&& redirected(b0.basic_blocks@[entry as int].terminator->0, b1.basic_blocks@[entry as int].terminator->0, h, n as usize)
}

/// `b1` is `b0` with the reduction `p` replaced, `f` being its body
/// function: the pointer local is added; when the entry block has a
/// successor (the header), the new block is added and entered instead of
/// the header.
pub open spec fn reduce_applied(b0: Body, b1: Body, p: ReducePlan, f: Operand) -> bool {
    &&& b1.arg_count == b0.arg_count
    &&& b1.local_tys@ == b0.local_tys@.push(LocalTy::Other)
    &&& match loop_header(b0, p.entry_bb) {
        None => b1.basic_blocks == b0.basic_blocks,
        Some(h) => {
            &&& entry_rerouted(b0, b1, p.entry_bb, h)
            &&& reduce_block(b1.basic_blocks@[b0.num_blocks() as int], p, f, b0.local_tys@.len() as int)
        },
    }
}

/// Is reduction `p` replaced? Its body function is pure, overflow checks
/// do not guard an integer sum or product, and the runtime has the typed
/// helper.
pub open spec fn reduce_applies(
    p: ReducePlan,
    callees: Seq<CalleePurity>,
    overflow_checks: bool,
    available: Seq<String>,
) -> bool {
    &&& callee_verdict(callees[p.body_call_bb as int].facts, callees[p.body_call_bb as int].mir, false) is Ok
    &&& !(overflow_checks && (p.reduce_op == ReduceOp::Add || p.reduce_op == ReduceOp::Mul) && p.acc_ty_tag
        != AccTyTag::F64)
    &&& helper_listed(available, reduce_helper_name(p.reduce_op, p.acc_ty_tag))
}

/// One reduction step from `b0` to `b1`; `src` is the body the plans were
/// found in.
pub open spec fn reduce_step(
    b0: Body,
    b1: Body,
    src: Body,
    p: ReducePlan,
    callees: Seq<CalleePurity>,
    overflow_checks: bool,
    available: Seq<String>,
) -> bool {
    if reduce_applies(p, callees, overflow_checks, available) {
        reduce_applied(b0, b1, p, call_func(src, p.body_call_bb)->0)
    } else {
        b1 == b0
    }
}

/// The reduction plans of the first `n` loops of `ls`, in order.
pub open spec fn reduce_plans_upto(body: Body, ls: Seq<(usize, usize)>, n: nat, sigs: Seq<Option<FnSigFacts>>) -> Seq<ReducePlan>
    decreases n,
{
    if n == 0 || n > ls.len() {
        Seq::empty()
    } else {
        let prev = reduce_plans_upto(body, ls, (n - 1) as nat, sigs);
        match reduce_plan(body, ls[n - 1].0, block_range(ls[n - 1].0, ls[n - 1].1), sigs) {
            Some(p) => prev.push(p),
            None => prev,
        }
    }
}

/// The reduction plans of all the loops of a body, in order.
pub open spec fn reduce_plans(body: Body, sigs: Seq<Option<FnSigFacts>>) -> Seq<ReducePlan> {
    reduce_plans_upto(body, loops_spec(body), loops_spec(body).len(), sigs)
}

/// The new block of a slice sum: a call of the slice sum helper on a copy
/// of the slice, into the accumulator, going to the exit, never unwinding.
pub open spec fn slice_sum_block(blk: BasicBlockData, p: SliceReducePlan) -> bool {
    &&& blk.statements@.len() == 0
    &&& blk.terminator matches Some(TerminatorKind::Call { func, args, destination, target, unwind })
    &&& blk.terminator->0->Call_func matches Operand::Constant(Const::FnDef { path })
    &&& blk.terminator->0->Call_func->Constant_0->FnDef_path@ == "parallel_runtime_parallel_reduce_sum_slice_u64"@
    &&& blk.terminator->0->Call_args@.len() == 1
    &&& operand_is(blk.terminator->0->Call_args@[0], p.slice_local, false)
    &&& blk.terminator->0->Call_destination.local == p.acc_local
    &&& blk.terminator->0->Call_destination.projection@.len() == 0
    &&& blk.terminator->0->Call_target == Some(p.exit_bb)
    &&& blk.terminator->0->Call_unwind == UnwindAction::Unreachable
}

/// `b1` is `b0` with the slice sum `p` replaced (when the entry block has
/// a successor; no local is added).
pub open spec fn slice_sum_applied(b0: Body, b1: Body, p: SliceReducePlan) -> bool {
    &&& b1.arg_count == b0.arg_count
    &&& b1.local_tys == b0.local_tys
    &&& match loop_header(b0, p.entry_bb) {
        None => b1.basic_blocks == b0.basic_blocks,
        Some(h) => {
            &&& entry_rerouted(b0, b1, p.entry_bb, h)
            &&& slice_sum_block(b1.basic_blocks@[b0.num_blocks() as int], p)
        },
    }
}

/// The slice sum plans of the first `n` loops of `ls`, in order.
pub open spec fn slice_plans_upto(body: Body, ls: Seq<(usize, usize)>, n: nat) -> Seq<SliceReducePlan>
    decreases n,
{
    if n == 0 || n > ls.len() {
        Seq::empty()
    } else {
        let prev = slice_plans_upto(body, ls, (n - 1) as nat);
        match slice_reduce_plan(body, ls[n - 1].0, block_range(ls[n - 1].0, ls[n - 1].1)) {
            Some(p) => prev.push(p),
            None => prev,
        }
    }
}

/// The slice sum plans of all the loops of a body, in order.
pub open spec fn slice_plans(body: Body) -> Seq<SliceReducePlan> {
    slice_plans_upto(body, loops_spec(body), loops_spec(body).len())
}

/// How many of the first `m` reduction steps took place.
pub open spec fn reduce_count(
    bodies: Seq<Body>,
    ps: Seq<ReducePlan>,
    callees: Seq<CalleePurity>,
    overflow_checks: bool,
    available: Seq<String>,
    m: nat,
) -> nat
    decreases m,
{
    if m == 0 {
        0
    } else {
        reduce_count(bodies, ps, callees, overflow_checks, available, (m - 1) as nat) + if reduce_applies(
            ps[m - 1],
            callees,
            overflow_checks,
            available,
        ) && loop_header(bodies[m - 1], ps[m - 1].entry_bb) is Some {
            1nat
        } else {
            0nat
        }
    }
}

/// How many of the first `m` slice sum steps took place.
pub open spec fn slice_count(bodies: Seq<Body>, ps: Seq<SliceReducePlan>, m: nat) -> nat
    decreases m,
{
    if m == 0 {
        0
    } else {
        slice_count(bodies, ps, (m - 1) as nat) + if loop_header(bodies[m - 1], ps[m - 1].entry_bb) is Some {
            1nat
        } else {
            0nat
        }
    }
}

/// `b1` is `b0` (the body the plans were found in) with the reductions
/// `ps` applied in order, `n` taking place.
pub open spec fn reductions_applied(
    b0: Body,
    b1: Body,
    ps: Seq<ReducePlan>,
    callees: Seq<CalleePurity>,
    overflow_checks: bool,
    available: Seq<String>,
    n: nat,
) -> bool {
    exists|bodies: Seq<Body>|
        {
            &&& bodies.len() == ps.len() + 1
            &&& bodies[0] == b0
            &&& bodies.last() == b1
            &&& forall|j: int|
                0 <= j < ps.len() ==> #[trigger] reduce_step(
                    bodies[j],
                    bodies[j + 1],
                    b0,
                    ps[j],
                    callees,
                    overflow_checks,
                    available,
                )
            &&& n == reduce_count(bodies, ps, callees, overflow_checks, available, ps.len())
        }
}

/// `b1` is `b0` with the slice sums `ps` applied in order, `n` taking
/// place.
pub open spec fn slice_sums_applied(b0: Body, b1: Body, ps: Seq<SliceReducePlan>, n: nat) -> bool {
    exists|bodies: Seq<Body>|
        {
            &&& bodies.len() == ps.len() + 1
            &&& bodies[0] == b0
            &&& bodies.last() == b1
            &&& forall|j: int| 0 <= j < ps.len() ==> #[trigger] slice_sum_applied(bodies[j], bodies[j + 1], ps[j])
            &&& n == slice_count(bodies, ps, ps.len())
        }
}

// ── Where the plans' blocks lie ─────────────────────────────────────────

proof fn lemma_body_calls_in(body: Body, blocks: Seq<usize>, iter_local: usize)
    ensures
        forall|k: int|
            0 <= k < body_calls(body, blocks, iter_local).len() ==> blocks.contains(
                (#[trigger] body_calls(body, blocks, iter_local)[k]).0,
            ) && body_call_at(body, body_calls(body, blocks, iter_local)[k].0, iter_local) is Some,
    decreases blocks.len(),
{
    if blocks.len() > 0 {
        lemma_body_calls_in(body, blocks.drop_last(), iter_local);
        let prev = body_calls(body, blocks.drop_last(), iter_local);
        let all = body_calls(body, blocks, iter_local);
        assert forall|k: int| 0 <= k < all.len() implies blocks.contains((#[trigger] all[k]).0) && body_call_at(
            body,
            all[k].0,
            iter_local,
        ) is Some by {
            if k < prev.len() {
                assert(all[k] == prev[k]);
                let j = choose|j: int| 0 <= j < blocks.drop_last().len() && blocks.drop_last()[j] == prev[k].0;
                assert(blocks[j] == prev[k].0);
            } else {
                assert(blocks[blocks.len() - 1] == blocks.last());
            }
        }
    }
}

proof fn lemma_fold_block_in(body: Body, blocks: Seq<usize>, entry: usize, calls: Seq<(usize, usize)>, c: int)
    ensures
        fold_of_calls(body, blocks, entry, calls, c) matches Some(f) ==> exists|k: int|
            0 <= k < calls.len() && (#[trigger] calls[k]).0 == f.0,
    decreases calls.len() - c,
{
    if 0 <= c < calls.len() {
        lemma_fold_block_in(body, blocks, entry, calls, c + 1);
    }
}

proof fn lemma_last_outside_in(targets: Seq<(u128, usize)>, blocks: Seq<usize>, n: nat)
    requires
        forall|i: int| 0 <= i < targets.len() ==> (#[trigger] targets[i]).1 < n,
    ensures
        last_outside(targets, blocks) matches Some(t) ==> t < n,
    decreases targets.len(),
{
    if targets.len() > 0 {
        lemma_last_outside_in(targets.drop_last(), blocks, n);
    }
}

/// A reduction plan's entry, exit and body call blocks are blocks of the
/// body, and the body call block ends in a call.
proof fn lemma_reduce_blocks(body: Body, h: usize, bs: Seq<usize>, sigs: Seq<Option<FnSigFacts>>)
    requires
        body.targets_valid(),
        loop_ok(body, bs),
        h < body.num_blocks(),
    ensures
        reduce_plan(body, h, bs, sigs) matches Some(p) ==> p.entry_bb < body.num_blocks() && p.exit_bb
            < body.num_blocks() && p.body_call_bb < body.num_blocks() && call_func(body, p.body_call_bb) is Some,
{
    let n = body.num_blocks();
    lemma_entry_preds_bounded(body, h, bs, n);
    match reduce_plan(body, h, bs, sigs) {
        None => {},
        Some(p) => {
            match term_of(body, h as int) {
                Some(TerminatorKind::SwitchInt { discr, targets, otherwise }) => {
                    lemma_last_outside_in(targets@, bs, n);
                    let preds = entry_preds(body, h, bs, n);
                    let entry = preds[0];
                    let hs = body.basic_blocks@[h as int].statements@;
                    match crate::reduce_loops::first_compare(hs, crate::shape::bare_local(discr)->0, 0) {
                        Some((it, bound)) => {
                            let calls = body_calls(body, bs, it);
                            lemma_body_calls_in(body, bs, it);
                            lemma_fold_block_in(body, bs, entry, calls, 0);
                            let k = choose|k: int| 0 <= k < calls.len() && (#[trigger] calls[k]).0 == p.body_call_bb;
                            assert(bs.contains(calls[k].0));
                            let j = choose|j: int| 0 <= j < bs.len() && bs[j] == calls[k].0;
                            assert(bs[j] < n);
                        },
                        None => {},
                    }
                },
                _ => {},
            }
        },
    }
}

/// A slice sum plan's entry and exit blocks are blocks of the body.
proof fn lemma_slice_blocks(body: Body, h: usize, bs: Seq<usize>)
    requires
        body.targets_valid(),
        h < body.num_blocks(),
    ensures
        slice_reduce_plan(body, h, bs) matches Some(p) ==> p.entry_bb < body.num_blocks() && p.exit_bb
            < body.num_blocks(),
{
    let n = body.num_blocks();
    lemma_entry_preds_bounded(body, h, bs, n);
    match body.basic_blocks@[h as int].terminator {
        Some(TerminatorKind::Call { target: Some(post), .. }) => {
            assert(post < n);
            match body.basic_blocks@[post as int].terminator {
                Some(TerminatorKind::SwitchInt { targets, .. }) => {
                    lemma_last_target_in(targets@, 0, n);
                },
                _ => {},
            }
        },
        _ => {},
    }
}

/// Rerouting the entry block to a new last block whose own targets exist
/// keeps a body well formed.
proof fn lemma_rerouted_keeps_targets(b0: Body, b1: Body, entry: usize, h: usize)
    requires
        b0.targets_valid(),
        entry < b0.num_blocks(),
        loop_header(b0, entry) == Some(h),
        entry_rerouted(b0, b1, entry, h),
        b1.basic_blocks@[b0.num_blocks() as int].terminator matches Some(k) && crate::mir::terminator_targets_ok(
            k,
            b0.num_blocks() + 1,
        ),
    ensures
        b1.targets_valid(),
        b0.all_terminated() ==> b1.all_terminated(),
{
    let n = b0.num_blocks();
    assert forall|i: int| 0 <= i < b1.basic_blocks@.len() implies match (#[trigger] b1.basic_blocks@[i]).terminator {
        Some(k) => crate::mir::terminator_targets_ok(k, b1.basic_blocks@.len()),
        None => true,
    } by {
        if i == n {
        } else if i == entry {
            lemma_redirected_ok(b0.basic_blocks@[i].terminator->0, b1.basic_blocks@[i].terminator->0, h, n as usize, n);
        } else {
            assert(b1.basic_blocks@[i] == b0.basic_blocks@[i]);
            match b0.basic_blocks@[i].terminator {
                Some(k) => crate::fork::lemma_targets_grow(k, n, n + 1),
                None => {},
            }
        }
    }
    if b0.all_terminated() {
        assert forall|i: int| 0 <= i < b1.basic_blocks@.len() implies (#[trigger] b1.basic_blocks@[i]).terminator is Some by {
            if i != n && i != entry {
                assert(b1.basic_blocks@[i] == b0.basic_blocks@[i]);
            }
        }
    }
}

fn bare(l: usize) -> (r: Place)
    ensures
        r.local == l,
        r.projection@.len() == 0,
{
    Place { local: l, projection: Vec::new() }
}

/// The first successor of block `b`'s terminator, if any.
fn header_of(body: &Body, b: usize) -> (r: Option<usize>)
    requires
        b < body.num_blocks(),
    ensures
        r == loop_header(*body, b),
{
    match &body.basic_blocks[b].terminator {
        Some(k) => {
            let succs = crate::detect::terminator_successors(k);
            if succs.len() == 0 {
                None
            } else {
                Some(succs[0])
            }
        },
        None => None,
    }
}

/// Reroutes the entry block from the header to a new last block `blk`.
fn reroute(body: &mut Body, entry: usize, h: usize, blk: BasicBlockData)
    requires
        entry < old(body).num_blocks(),
        loop_header(*old(body), entry) == Some(h),
    ensures
        entry_rerouted(*old(body), *final(body), entry, h),
        final(body).basic_blocks@[old(body).num_blocks() as int] == blk,
        final(body).local_tys == old(body).local_tys,
        final(body).arg_count == old(body).arg_count,
{
    let n = body.basic_blocks.len();
    body.basic_blocks.push(blk);
    let old_term = body.basic_blocks[entry].terminator.take();
    match old_term {
        Some(k) => {
            body.basic_blocks[entry].terminator = Some(redirect_term(k, h, n));
        },
        None => {},
    }
}

fn acc_const_of(bits: u128, tag: AccTyTag) -> (r: Operand)
    ensures
        r == acc_const(bits, tag),
{
    Operand::Constant(Const::Scalar { bits, size_bits: tag.width_bits() })
}

/// Replaces reduction `p`, `f` being its body function; says whether it
/// did (the entry block has a successor).
pub fn apply_reduce_transform(body: &mut Body, p: &ReducePlan, f: &Operand) -> (ok: bool)
    requires
        p.entry_bb < old(body).num_blocks(),
    ensures
        reduce_applied(*old(body), *final(body), *p, *f),
        ok == (loop_header(*old(body), p.entry_bb) is Some),
{
    let fnptr = body.local_tys.len();
    body.local_tys.push(LocalTy::Other);
    let h = match header_of(body, p.entry_bb) {
        Some(h) => h,
        None => {
            return false;
        },
    };
    let mut stmts: Vec<StatementKind> = Vec::new();
    stmts.push(StatementKind::Assign(bare(fnptr), Rvalue::Cast(copy_operand(f))));
    let mut args: Vec<Operand> = Vec::new();
    args.push(acc_const_of(p.iter_start_bits, p.acc_ty_tag));
    args.push(
        match p.end_bound {
            LoopBound::Const(n) => acc_const_of(n as u128, p.acc_ty_tag),
            LoopBound::Local(l) => Operand::Copy(bare(l)),
        },
    );
    args.push(Operand::Move(bare(fnptr)));
    let blk = BasicBlockData {
        statements: stmts,
        terminator: Some(
            TerminatorKind::Call {
                func: Operand::Constant(Const::FnDef { path: p.reduce_op.helper_diag_item(p.acc_ty_tag).to_string() }),
                args,
                destination: bare(p.acc_local),
                target: Some(p.exit_bb),
                unwind: UnwindAction::Unreachable,
            },
        ),
    };
    reroute(body, p.entry_bb, h, blk);
    true
}

/// Replaces the slice sum `p`; says whether it did.
pub fn apply_slice_reduce_transform(body: &mut Body, p: &SliceReducePlan) -> (ok: bool)
    requires
        p.entry_bb < old(body).num_blocks(),
    ensures
        slice_sum_applied(*old(body), *final(body), *p),
        ok == (loop_header(*old(body), p.entry_bb) is Some),
{
    let h = match header_of(body, p.entry_bb) {
        Some(h) => h,
        None => {
            return false;
        },
    };
    let mut args: Vec<Operand> = Vec::new();
    args.push(Operand::Copy(bare(p.slice_local)));
    let blk = BasicBlockData {
        statements: Vec::new(),
        terminator: Some(
            TerminatorKind::Call {
                func: Operand::Constant(Const::FnDef { path: "parallel_runtime_parallel_reduce_sum_slice_u64".to_string() }),
                args,
                destination: bare(p.acc_local),
                target: Some(p.exit_bb),
                unwind: UnwindAction::Unreachable,
            },
        ),
    };
    reroute(body, p.entry_bb, h, blk);
    true
}

/// Bodies the reduction rewrite leaves alone: transforms off, a sysroot
/// crate, fewer than four blocks, the runtime's own functions, or a runtime
/// without the u64 sum helper.
pub open spec fn reduce_gate_refuses(body: Body, g: LoopIdiomGates) -> bool {
    ||| !g.enabled
    ||| sysroot_crate(g.crate_name@)
    ||| body.num_blocks() < 4
    ||| contains_text(g.fn_name@, "parallel_reduce_"@)
    ||| contains_text(g.fn_name@, "parallel_runtime"@)
    ||| !helper_listed(g.available_helpers@, "parallel_runtime_parallel_reduce_add_u64"@)
}

/// The outcome of the reduction rewrite: the index-range reductions of
/// `b0` applied first, giving `mid`, then, when the runtime has the slice
/// sum helper, the slice sums of `mid` applied.
pub open spec fn reductions_outcome(
    b0: Body,
    mid: Body,
    b1: Body,
    sigs: Seq<Option<FnSigFacts>>,
    callees: Seq<CalleePurity>,
    overflow_checks: bool,
    available: Seq<String>,
    n1: nat,
    n2: nat,
) -> bool {
    &&& reductions_applied(b0, mid, reduce_plans(b0, sigs), callees, overflow_checks, available, n1)
    &&& if helper_listed(available, "parallel_runtime_parallel_reduce_sum_slice_u64"@) {
        slice_sums_applied(mid, b1, slice_plans(mid), n2)
    } else {
        b1 == mid && n2 == 0
    }
}

/// Replaces the reduction loops of a body by calls of the parallel reduce
/// helpers (see `reductions_outcome`) and returns how many it replaced.
/// `sigs` and `callees` give, per block, what the compiler says of the
/// block's callee; `overflow_checks` whether the crate checks overflow.
pub fn try_transform_reductions(
    body: &mut Body,
    gates: &LoopIdiomGates,
    overflow_checks: bool,
    sigs: &Vec<Option<FnSigFacts>>,
    callees: &Vec<CalleePurity>,
) -> (n: usize)
    requires
        old(body).targets_valid(),
        old(body).all_terminated(),
        callees@.len() == old(body).num_blocks(),
        forall|b: int| 0 <= b < callees@.len() ==> ((#[trigger] callees@[b]).mir matches Some(m) ==> m.all_terminated()),
    ensures
        reduce_gate_refuses(*old(body), *gates) ==> n == 0 && *final(body) == *old(body),
        !reduce_gate_refuses(*old(body), *gates) ==> exists|mid: Body, n1: nat, n2: nat|
            #[trigger] reductions_outcome(
                *old(body),
                mid,
                *final(body),
                sigs@,
                callees@,
                overflow_checks,
                gates.available_helpers@,
                n1,
                n2,
            ) && n == n1 + n2,
        final(body).targets_valid(),
        final(body).all_terminated(),
{
    let f = gates.fn_name.as_str();
    if !gates.enabled || is_in_sysroot_crate(gates.crate_name.as_str()) || body.basic_blocks.len() < 4
        || contains_str(f, "parallel_reduce_") || contains_str(f, "parallel_runtime")
        || !helper_available(&gates.available_helpers, "parallel_runtime_parallel_reduce_add_u64") {
        return 0;
    }
    let ghost src = *body;
    let ghost ls = loops_spec(src);
    let loops = find_simple_loops(body);
    proof {
        lemma_loops_in_range(src);
    }
    let mut plans: Vec<ReducePlan> = Vec::new();
    let mut funcs: Vec<Operand> = Vec::new();
    let mut i: usize = 0;
    while i < loops.len()
        invariant
            *body == src,
            src.targets_valid(),
            src.all_terminated(),
            i <= loops@.len(),
            loops@.len() == ls.len(),
            ls == loops_spec(src),
            forall|j: int| 0 <= j < ls.len() ==> (#[trigger] ls[j]).0 < ls[j].1 < src.num_blocks(),
            forall|j: int|
                0 <= j < loops@.len() ==> (#[trigger] loops@[j]).header == ls[j].0 && loops@[j].body@
                    == block_range(ls[j].0, ls[j].1),
            plans@ == reduce_plans_upto(src, ls, i as nat, sigs@),
            funcs@.len() == plans@.len(),
            forall|j: int| 0 <= j < funcs@.len() ==> same_operand(#[trigger] funcs@[j], call_func(src, plans@[j].body_call_bb)->0),
            forall|j: int|
                0 <= j < plans@.len() ==> (#[trigger] plans@[j]).entry_bb < src.num_blocks() && plans@[j].exit_bb
                    < src.num_blocks() && plans@[j].body_call_bb < src.num_blocks() && call_func(
                    src,
                    plans@[j].body_call_bb,
                ) is Some,
        decreases loops@.len() - i,
    {
        let lp = &loops[i];
        proof {
            assert(ls[i as int].0 < ls[i as int].1 < src.num_blocks());
            assert forall|j: int| 0 <= j < lp.body@.len() implies #[trigger] lp.body@[j] < src.num_blocks() by {}
            lemma_reduce_blocks(src, lp.header, lp.body@, sigs@);
        }
        match analyze_loop_for_transform(body, lp, sigs) {
            Some(p) => {
                let f = match src_call(body, p.body_call_bb) {
                    Some(f) => copy_operand(f),
                    None => Operand::Constant(Const::Other),
                };
                plans.push(p);
                funcs.push(f);
            },
            None => {},
        }
        i = i + 1;
    }
    let ghost ps = reduce_plans(src, sigs@);
    assert(plans@ == ps);
    let ghost mut bodies: Seq<Body> = seq![src];
    let mut q: usize = 0;
    let mut count1: usize = 0;
    while q < plans.len()
        invariant
            q <= ps.len(),
            plans@ == ps,
            funcs@.len() == ps.len(),
            forall|j: int| 0 <= j < funcs@.len() ==> same_operand(#[trigger] funcs@[j], call_func(src, ps[j].body_call_bb)->0),
            forall|j: int|
                0 <= j < ps.len() ==> (#[trigger] ps[j]).entry_bb < src.num_blocks() && ps[j].exit_bb < src.num_blocks()
                    && ps[j].body_call_bb < src.num_blocks() && call_func(src, ps[j].body_call_bb) is Some,
            callees@.len() == src.num_blocks(),
            forall|b: int| 0 <= b < callees@.len() ==> ((#[trigger] callees@[b]).mir matches Some(m) ==> m.all_terminated()),
            bodies.len() == q + 1,
            bodies[0] == src,
            bodies.last() == *body,
            forall|j: int|
                0 <= j < q ==> #[trigger] reduce_step(
                    bodies[j],
                    bodies[j + 1],
                    src,
                    ps[j],
                    callees@,
                    overflow_checks,
                    gates.available_helpers@,
                ),
            count1 == reduce_count(bodies, ps, callees@, overflow_checks, gates.available_helpers@, q as nat),
            count1 <= q,
            body.num_blocks() == src.num_blocks() + count1,
            body.targets_valid(),
            body.all_terminated(),
        decreases ps.len() - q,
    {
        let p = plans[q];
        let ghost mid = *body;
        let cp = &callees[p.body_call_bb];
        let pure = match &cp.mir {
            Some(m) => check_body_purity(&cp.facts, Some(m)),
            None => check_body_purity(&cp.facts, None),
        };
        let applies = pure.is_ok() && !(overflow_checks && (p.reduce_op == ReduceOp::Add || p.reduce_op == ReduceOp::Mul)
            && p.acc_ty_tag != AccTyTag::F64) && helper_available(
            &gates.available_helpers,
            p.reduce_op.helper_diag_item(p.acc_ty_tag),
        );
        let mut did = false;
        if applies {
            did = apply_reduce_transform(body, &p, &funcs[q]);
            proof {
                lemma_reduce_applied_same(mid, *body, p, funcs@[q as int], call_func(src, p.body_call_bb)->0);
            }
            proof {
                if did {
                    lemma_rerouted_keeps_targets(mid, *body, p.entry_bb, loop_header(mid, p.entry_bb)->0);
                }
            }
        }
        if did {
            count1 = count1 + 1;
        }
        proof {
            let nb = bodies.push(*body);
            assert forall|j: int| 0 <= j < q + 1 implies #[trigger] reduce_step(
                nb[j],
                nb[j + 1],
                src,
                ps[j],
                callees@,
                overflow_checks,
                gates.available_helpers@,
            ) by {
                if j < q {
                    assert(nb[j] == bodies[j] && nb[j + 1] == bodies[j + 1]);
                } else {
                    assert(nb[j] == mid && nb[j + 1] == *body);
                }
            }
            lemma_reduce_count_prefix(bodies, nb, ps, callees@, overflow_checks, gates.available_helpers@, q as nat);
            assert(nb[q as int] == mid);
            bodies = nb;
        }
        q = q + 1;
    }
    proof {
        assert(reductions_applied(src, *body, ps, callees@, overflow_checks, gates.available_helpers@, count1 as nat));
    }
    let ghost mid = *body;
    if !helper_available(&gates.available_helpers, "parallel_runtime_parallel_reduce_sum_slice_u64") {
        proof {
            assert(reductions_outcome(src, mid, *body, sigs@, callees@, overflow_checks, gates.available_helpers@, count1 as nat, 0));
        }
        return count1;
    }
    let ghost ls2 = loops_spec(mid);
    let loops2 = find_simple_loops(body);
    proof {
        lemma_loops_in_range(mid);
    }
    let mut splans: Vec<SliceReducePlan> = Vec::new();
    let mut i: usize = 0;
    while i < loops2.len()
        invariant
            *body == mid,
            mid.targets_valid(),
            mid.all_terminated(),
            i <= loops2@.len(),
            loops2@.len() == ls2.len(),
            ls2 == loops_spec(mid),
            forall|j: int| 0 <= j < ls2.len() ==> (#[trigger] ls2[j]).0 < ls2[j].1 < mid.num_blocks(),
            forall|j: int|
                0 <= j < loops2@.len() ==> (#[trigger] loops2@[j]).header == ls2[j].0 && loops2@[j].body@
                    == block_range(ls2[j].0, ls2[j].1),
            splans@ == slice_plans_upto(mid, ls2, i as nat),
            forall|j: int|
                0 <= j < splans@.len() ==> (#[trigger] splans@[j]).entry_bb < mid.num_blocks() && splans@[j].exit_bb
                    < mid.num_blocks(),
        decreases loops2@.len() - i,
    {
        let lp = &loops2[i];
        proof {
            assert(ls2[i as int].0 < ls2[i as int].1 < mid.num_blocks());
            lemma_slice_blocks(mid, lp.header, lp.body@);
        }
        match analyze_slice_loop_for_transform(body, lp) {
            Some(p) => {
                splans.push(p);
            },
            None => {},
        }
        i = i + 1;
    }
    let ghost sps = slice_plans(mid);
    assert(splans@ == sps);
    let ghost mut bodies2: Seq<Body> = seq![mid];
    let mut q: usize = 0;
    let mut count2: usize = 0;
    while q < splans.len()
        invariant
            q <= sps.len(),
            splans@ == sps,
            forall|j: int| 0 <= j < sps.len() ==> (#[trigger] sps[j]).entry_bb < mid.num_blocks() && sps[j].exit_bb < mid.num_blocks(),
            bodies2.len() == q + 1,
            bodies2[0] == mid,
            bodies2.last() == *body,
            forall|j: int| 0 <= j < q ==> #[trigger] slice_sum_applied(bodies2[j], bodies2[j + 1], sps[j]),
            count2 == slice_count(bodies2, sps, q as nat),
            count2 <= q,
            mid.num_blocks() == src.num_blocks() + count1,
            body.num_blocks() == mid.num_blocks() + count2,
            body.targets_valid(),
            body.all_terminated(),
        decreases sps.len() - q,
    {
        let p = splans[q];
        let ghost cur = *body;
        let did = apply_slice_reduce_transform(body, &p);
        if did {
            count2 = count2 + 1;
            proof {
                lemma_rerouted_keeps_targets(cur, *body, p.entry_bb, loop_header(cur, p.entry_bb)->0);
            }
        }
        proof {
            let nb = bodies2.push(*body);
            assert forall|j: int| 0 <= j < q + 1 implies #[trigger] slice_sum_applied(nb[j], nb[j + 1], sps[j]) by {
                if j < q {
                    assert(nb[j] == bodies2[j] && nb[j + 1] == bodies2[j + 1]);
                } else {
                    assert(nb[j] == cur && nb[j + 1] == *body);
                }
            }
            lemma_slice_count_prefix(bodies2, nb, sps, q as nat);
            assert(nb[q as int] == cur);
            bodies2 = nb;
        }
        q = q + 1;
    }
    proof {
        assert(slice_sums_applied(mid, *body, sps, count2 as nat));
        assert(reductions_outcome(
            src,
            mid,
            *body,
            sigs@,
            callees@,
            overflow_checks,
            gates.available_helpers@,
            count1 as nat,
            count2 as nat,
        ));
    }
    assert(body.basic_blocks@.len() == body.basic_blocks.len());
    count1 + count2
}

/// The replacement reads its body function only up to `same_operand`.
proof fn lemma_reduce_applied_same(b0: Body, b1: Body, p: ReducePlan, f: Operand, g: Operand)
    requires
        reduce_applied(b0, b1, p, f),
        same_operand(f, g),
    ensures
        reduce_applied(b0, b1, p, g),
{
}

fn src_call(body: &Body, b: usize) -> (r: Option<&Operand>)
    requires
        b < body.num_blocks(),
    ensures
        match r {
            Some(f) => call_func(*body, b) == Some(*f),
            None => call_func(*body, b) is None,
        },
{
    match &body.basic_blocks[b].terminator {
        Some(TerminatorKind::Call { func, .. }) => Some(func),
        _ => None,
    }
}

proof fn lemma_reduce_count_prefix(
    a: Seq<Body>,
    b: Seq<Body>,
    ps: Seq<ReducePlan>,
    callees: Seq<CalleePurity>,
    overflow_checks: bool,
    available: Seq<String>,
    m: nat,
)
    requires
        m <= a.len(),
        m <= b.len(),
        forall|j: int| 0 <= j < m ==> a[j] == b[j],
    ensures
        reduce_count(a, ps, callees, overflow_checks, available, m) == reduce_count(b, ps, callees, overflow_checks, available, m),
    decreases m,
{
    if m > 0 {
        lemma_reduce_count_prefix(a, b, ps, callees, overflow_checks, available, (m - 1) as nat);
    }
}

proof fn lemma_slice_count_prefix(a: Seq<Body>, b: Seq<Body>, ps: Seq<SliceReducePlan>, m: nat)
    requires
        m <= a.len(),
        m <= b.len(),
        forall|j: int| 0 <= j < m ==> a[j] == b[j],
    ensures
        slice_count(a, ps, m) == slice_count(b, ps, m),
    decreases m,
{
    if m > 0 {
        lemma_slice_count_prefix(a, b, ps, (m - 1) as nat);
    }
}


} // verus!
