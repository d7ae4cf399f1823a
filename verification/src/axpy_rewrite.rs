//! Axpy loops, `y[i] += alpha * x[i]` (or `-=`), replaced by one call of
//! the runtime's axpy helper. A slice destination is re-borrowed in the
//! helper's block; a `Vec` destination is first turned into a slice by a
//! block of its own that calls `as_mut_slice`. A subtraction hands the
//! helper the negated factor.
use vstd::prelude::*;
use crate::mir::{
    Body, BasicBlockData, StatementKind, TerminatorKind, Operand, Const, Place, LocalTy, UnwindAction,
};
use crate::detect::{SimpleLoop, find_simple_loops, loops_spec, block_range, loop_ok, lemma_loops_in_range};
use crate::axpy::{AxpyPlan, SliceDst, axpy_plan, analyze_axpy_loop_for_transform};
use crate::loop_call::{
    TempInit, CallArg, LoopCall, LoopCallView, loop_header, loop_call_applied, apply_loop_call, temp_stmt,
    redirected, redirect_term, temp_stmt_of, lemma_loop_call_keeps_targets, lemma_redirected_ok,
};
use crate::loop_idioms::{LoopIdiomGates, lemma_shape_entry};
use crate::iter_methods::{helper_listed, helper_available, operand_is};
use crate::gates::{sysroot_crate, quick_skip, is_in_sysroot_crate, parallel_pass_quick_skip};
use crate::text::{contains_text, contains_str};

verus! {

/// The replacement of an axpy loop whose destination is the slice `y`:
/// the helper gets the re-borrowed slice, a copy of x and alpha (negated
/// into a second temporary for a subtraction).
pub open spec fn axpy_slice_call(p: AxpyPlan, y: usize) -> LoopCallView {
    if p.is_sub {
        (
            p.entry_bb,
            p.exit_bb,
            "parallel_runtime_parallel_axpy_f64"@,
            seq![TempInit::Reborrow { of: y, mutable: true }, TempInit::Neg(p.alpha_local)],
            seq![CallArg::Temp(0), CallArg::Copy(p.x_local), CallArg::Temp(1)],
        )
    } else {
        (
            p.entry_bb,
            p.exit_bb,
            "parallel_runtime_parallel_axpy_f64"@,
            seq![TempInit::Reborrow { of: y, mutable: true }],
            seq![CallArg::Temp(0), CallArg::Copy(p.x_local), CallArg::Copy(p.alpha_local)],
        )
    }
}

/// The helper's block of a `Vec` destination: the negation of alpha for a
/// subtraction, then the call of the axpy helper on the slice in local
/// `slice_l`, x and alpha (or its negation in `neg_l`), into `unit_l`,
/// going to the loop's exit and never unwinding.
pub open spec fn vec_helper_block(blk: BasicBlockData, p: AxpyPlan, slice_l: int, neg_l: int, unit_l: int) -> bool {
    &&& if p.is_sub {
        blk.statements@.len() == 1 && temp_stmt(blk.statements@[0], neg_l, TempInit::Neg(p.alpha_local))
    } else {
        blk.statements@.len() == 0
    }
    &&& blk.terminator matches Some(TerminatorKind::Call { func, args, destination, target, unwind })
    &&& blk.terminator->0->Call_func matches Operand::Constant(Const::FnDef { path })
    &&& blk.terminator->0->Call_func->Constant_0->FnDef_path@ == "parallel_runtime_parallel_axpy_f64"@
    &&& blk.terminator->0->Call_args@.len() == 3
    &&& operand_is(blk.terminator->0->Call_args@[0], slice_l as usize, true)
    &&& operand_is(blk.terminator->0->Call_args@[1], p.x_local, false)
    &&& if p.is_sub {
        operand_is(blk.terminator->0->Call_args@[2], neg_l as usize, true)
    } else {
        operand_is(blk.terminator->0->Call_args@[2], p.alpha_local, false)
    }
    &&& blk.terminator->0->Call_destination.local == unit_l
    &&& blk.terminator->0->Call_destination.projection@.len() == 0
    &&& blk.terminator->0->Call_target == Some(p.exit_bb)
    &&& blk.terminator->0->Call_unwind == UnwindAction::Unreachable
}

/// The block that turns the `Vec` behind `vec_ref` into a slice: it
/// re-borrows the `Vec` into `vr_l` and calls `as_mut_slice` on it into
/// `slice_l`, going to the helper's block and never unwinding.
pub open spec fn deref_block(blk: BasicBlockData, vec_ref: usize, vr_l: int, slice_l: int, helper_bb: usize) -> bool {
    &&& blk.statements@.len() == 1
    &&& temp_stmt(blk.statements@[0], vr_l, TempInit::Reborrow { of: vec_ref, mutable: true })
    &&& blk.terminator matches Some(TerminatorKind::Call { func, args, destination, target, unwind })
    &&& blk.terminator->0->Call_func matches Operand::Constant(Const::FnDef { path })
    &&& blk.terminator->0->Call_func->Constant_0->FnDef_path@ == "vec_as_mut_slice"@
    &&& blk.terminator->0->Call_args@.len() == 1
    &&& operand_is(blk.terminator->0->Call_args@[0], vr_l as usize, true)
    &&& blk.terminator->0->Call_destination.local == slice_l
    &&& blk.terminator->0->Call_destination.projection@.len() == 0
    &&& blk.terminator->0->Call_target == Some(helper_bb)
    &&& blk.terminator->0->Call_unwind == UnwindAction::Unreachable
}

/// `b1` is `b0` with the axpy loop `p` on the `Vec` behind `vec_ref`
/// replaced: locals for the re-borrowed `Vec`, the slice, the negation (for
/// a subtraction) and the helper's result are added; when the entry block
/// has a successor (the header), the helper's block and then the `Vec`'s
/// block are added at the end and the entry block enters the latter
/// instead of the header.
pub open spec fn vec_axpy_applied(b0: Body, b1: Body, p: AxpyPlan, vec_ref: usize) -> bool {
    let base = b0.local_tys@.len() as int;
    let nt: int = if p.is_sub {
        3
    } else {
        2
    };
    let n = b0.num_blocks() as int;
    &&& b1.arg_count == b0.arg_count
    &&& b1.local_tys@ == b0.local_tys@ + Seq::new((nt + 1) as nat, |i: int| LocalTy::Other)
    &&& match loop_header(b0, p.entry_bb) {
        None => b1.basic_blocks == b0.basic_blocks,
        Some(h) => {
            &&& b1.basic_blocks@.len() == n + 2
            &&& forall|i: int| 0 <= i < n && i != p.entry_bb ==> #[trigger] b1.basic_blocks@[i] == b0.basic_blocks@[i]
            &&& b1.basic_blocks@[p.entry_bb as int].statements == b0.basic_blocks@[p.entry_bb as int].statements
            &&& b1.basic_blocks@[p.entry_bb as int].terminator is Some
            &&& redirected(
                b0.basic_blocks@[p.entry_bb as int].terminator->0,
                b1.basic_blocks@[p.entry_bb as int].terminator->0,
                h,
                (n + 1) as usize,
            )
            &&& vec_helper_block(b1.basic_blocks@[n], p, base + 1, base + 2, base + nt)
            &&& deref_block(b1.basic_blocks@[n + 1], vec_ref, base, base + 1, n as usize)
        },
    }
}

/// One axpy replacement, from `b0` to `b1`. A `Vec` destination needs the
/// `as_mut_slice` item; without it nothing changes.
pub open spec fn axpy_step(b0: Body, b1: Body, p: AxpyPlan, available: Seq<String>) -> bool {
    match p.y_dst {
        SliceDst::Slice { local } => loop_call_applied(b0, b1, axpy_slice_call(p, local)),
        SliceDst::VecRef { vec_ref } => if helper_listed(available, "vec_as_mut_slice"@) {
            vec_axpy_applied(b0, b1, p, vec_ref)
        } else {
            b1 == b0
        },
    }
}

/// The replacement took place: the entry block has a successor in the body
/// it was applied to, and a `Vec` destination had its `as_mut_slice`.
pub open spec fn axpy_took_place(b0: Body, p: AxpyPlan, available: Seq<String>) -> bool {
    &&& loop_header(b0, p.entry_bb) is Some
    &&& (p.y_dst is VecRef ==> helper_listed(available, "vec_as_mut_slice"@))
}

/// The axpy plans of the first `n` loops of `ls`, in order.
pub open spec fn axpy_plans_upto(body: Body, ls: Seq<(usize, usize)>, n: nat) -> Seq<AxpyPlan>
    decreases n,
{
    if n == 0 || n > ls.len() {
        Seq::empty()
    } else {
        let prev = axpy_plans_upto(body, ls, (n - 1) as nat);
        match axpy_plan(body, ls[n - 1].0, block_range(ls[n - 1].0, ls[n - 1].1)) {
            Some(p) => prev.push(p),
            None => prev,
        }
    }
}

/// The axpy plans of all the loops of a body, in order.
pub open spec fn axpy_plans(body: Body) -> Seq<AxpyPlan> {
    axpy_plans_upto(body, loops_spec(body), loops_spec(body).len())
}

/// How many of the first `m` replacements took place.
pub open spec fn axpy_count(bodies: Seq<Body>, ps: Seq<AxpyPlan>, available: Seq<String>, m: nat) -> nat
    decreases m,
{
    if m == 0 {
        0
    } else {
        axpy_count(bodies, ps, available, (m - 1) as nat) + if axpy_took_place(bodies[m - 1], ps[m - 1], available) {
            1nat
        } else {
            0nat
        }
    }
}

/// `b1` is `b0` with the axpy plans `ps` applied in order, `n` of them
/// taking place.
pub open spec fn axpys_applied(b0: Body, b1: Body, ps: Seq<AxpyPlan>, available: Seq<String>, n: nat) -> bool {
    exists|bodies: Seq<Body>|
        {
            &&& bodies.len() == ps.len() + 1
            &&& bodies[0] == b0
            &&& bodies.last() == b1
            &&& forall|j: int| 0 <= j < ps.len() ==> #[trigger] axpy_step(bodies[j], bodies[j + 1], ps[j], available)
            &&& n == axpy_count(bodies, ps, available, ps.len())
        }
}

fn axpy_slice_call_of(p: &AxpyPlan, y: usize) -> (r: LoopCall)
    ensures
        r.view_tuple() == axpy_slice_call(*p, y),
        r.entry_bb == p.entry_bb,
        r.exit_bb == p.exit_bb,
        forall|q: int| 0 <= q < r.args@.len() && #[trigger] r.args@[q] is Temp ==> r.args@[q]->Temp_0 < r.temps@.len(),
{
    let mut temps: Vec<TempInit> = Vec::new();
    temps.push(TempInit::Reborrow { of: y, mutable: true });
    let mut args: Vec<CallArg> = Vec::new();
    args.push(CallArg::Temp(0));
    args.push(CallArg::Copy(p.x_local));
    if p.is_sub {
        temps.push(TempInit::Neg(p.alpha_local));
        args.push(CallArg::Temp(1));
        assert(temps@ =~= seq![TempInit::Reborrow { of: y, mutable: true }, TempInit::Neg(p.alpha_local)]);
        assert(args@ =~= seq![CallArg::Temp(0), CallArg::Copy(p.x_local), CallArg::Temp(1)]);
    } else {
        args.push(CallArg::Copy(p.alpha_local));
        assert(temps@ =~= seq![TempInit::Reborrow { of: y, mutable: true }]);
        assert(args@ =~= seq![CallArg::Temp(0), CallArg::Copy(p.x_local), CallArg::Copy(p.alpha_local)]);
    }
    LoopCall {
        entry_bb: p.entry_bb,
        exit_bb: p.exit_bb,
        helper: "parallel_runtime_parallel_axpy_f64".to_string(),
        temps,
        args,
    }
}

fn bare(l: usize) -> (r: Place)
    ensures
        r.local == l,
        r.projection@.len() == 0,
{
    Place { local: l, projection: Vec::new() }
}

/// Replaces the axpy loop `p` whose destination is the `Vec` behind
/// `vec_ref`; says whether it did (the entry block has a successor).
fn apply_vec_axpy(body: &mut Body, p: &AxpyPlan, vec_ref: usize) -> (ok: bool)
    requires
        p.entry_bb < old(body).num_blocks(),
    ensures
        vec_axpy_applied(*old(body), *final(body), *p, vec_ref),
        ok == (loop_header(*old(body), p.entry_bb) is Some),
{
    let ghost b0 = *body;
    let base = body.local_tys.len();
    body.local_tys.push(LocalTy::Other);
    body.local_tys.push(LocalTy::Other);
    let mut helper_stmts: Vec<StatementKind> = Vec::new();
    let mut neg_l: usize = body.local_tys.len();
    let alpha_op = if p.is_sub {
        neg_l = body.local_tys.len();
        body.local_tys.push(LocalTy::Other);
        helper_stmts.push(temp_stmt_of(neg_l, TempInit::Neg(p.alpha_local)));
        Operand::Move(bare(neg_l))
    } else {
        Operand::Copy(bare(p.alpha_local))
    };
    let unit = body.local_tys.len();
    body.local_tys.push(LocalTy::Other);
    proof {
        let nt: int = if p.is_sub {
            3
        } else {
            2
        };
        assert(body.local_tys@ =~= b0.local_tys@ + Seq::new((nt + 1) as nat, |i: int| LocalTy::Other));
    }
    let header = match &body.basic_blocks[p.entry_bb].terminator {
        Some(k) => {
            let succs = crate::detect::terminator_successors(k);
            if succs.len() == 0 {
                return false;
            }
            succs[0]
        },
        None => {
            return false;
        },
    };
    let n = body.basic_blocks.len();
    let mut args: Vec<Operand> = Vec::new();
    args.push(Operand::Move(bare(base + 1)));
    args.push(Operand::Copy(bare(p.x_local)));
    args.push(alpha_op);
    body.basic_blocks.push(
        BasicBlockData {
            statements: helper_stmts,
            terminator: Some(
                TerminatorKind::Call {
                    func: Operand::Constant(Const::FnDef { path: "parallel_runtime_parallel_axpy_f64".to_string() }),
                    args,
                    destination: bare(unit),
                    target: Some(p.exit_bb),
                    unwind: UnwindAction::Unreachable,
                },
            ),
        },
    );
    let deref_bb = body.basic_blocks.len();
    let mut deref_stmts: Vec<StatementKind> = Vec::new();
    deref_stmts.push(temp_stmt_of(base, TempInit::Reborrow { of: vec_ref, mutable: true }));
    let mut dargs: Vec<Operand> = Vec::new();
    dargs.push(Operand::Move(bare(base)));
    body.basic_blocks.push(
        BasicBlockData {
            statements: deref_stmts,
            terminator: Some(
                TerminatorKind::Call {
                    func: Operand::Constant(Const::FnDef { path: "vec_as_mut_slice".to_string() }),
                    args: dargs,
                    destination: bare(base + 1),
                    target: Some(n),
                    unwind: UnwindAction::Unreachable,
                },
            ),
        },
    );
    let old_term = body.basic_blocks[p.entry_bb].terminator.take();
    match old_term {
        Some(k) => {
            body.basic_blocks[p.entry_bb].terminator = Some(redirect_term(k, header, deref_bb));
        },
        None => {},
    }
    true
}

/// A `Vec` axpy replacement whose entry and exit blocks exist keeps a body
/// well formed.
proof fn lemma_vec_axpy_keeps_targets(b0: Body, b1: Body, p: AxpyPlan, vec_ref: usize)
    requires
        b0.targets_valid(),
        p.entry_bb < b0.num_blocks(),
        p.exit_bb < b0.num_blocks(),
        vec_axpy_applied(b0, b1, p, vec_ref),
    ensures
        b1.targets_valid(),
        b0.all_terminated() ==> b1.all_terminated(),
{
    let n = b0.num_blocks();
    match loop_header(b0, p.entry_bb) {
        None => {},
        Some(h) => {
            assert forall|i: int| 0 <= i < b1.basic_blocks@.len() implies match (
            #[trigger] b1.basic_blocks@[i]).terminator {
                Some(k) => crate::mir::terminator_targets_ok(k, b1.basic_blocks@.len()),
                None => true,
            } by {
                if i == n || i == n + 1 {
                } else if i == p.entry_bb {
                    crate::fork::lemma_targets_grow(b0.basic_blocks@[i].terminator->0, n, n + 1);
                    lemma_redirected_ok(
                        b0.basic_blocks@[i].terminator->0,
                        b1.basic_blocks@[i].terminator->0,
                        h,
                        (n + 1) as usize,
                        n + 1,
                    );
                } else {
                    assert(b1.basic_blocks@[i] == b0.basic_blocks@[i]);
                    match b0.basic_blocks@[i].terminator {
                        Some(k) => crate::fork::lemma_targets_grow(k, n, n + 2),
                        None => {},
                    }
                }
            }
            if b0.all_terminated() {
                assert forall|i: int| 0 <= i < b1.basic_blocks@.len() implies (
                #[trigger] b1.basic_blocks@[i]).terminator is Some by {
                    if i < n && i != p.entry_bb {
                        assert(b1.basic_blocks@[i] == b0.basic_blocks@[i]);
                    }
                }
            }
        },
    }
}

/// Bodies the axpy rewrite leaves alone: transforms off, a sysroot crate,
/// the runtime's own functions, no opt-in to reassociated float sums,
/// fewer than four blocks or no call, or a runtime without the axpy helper.
pub open spec fn axpy_gate_refuses(body: Body, g: LoopIdiomGates) -> bool {
    ||| !g.enabled
    ||| sysroot_crate(g.crate_name@)
    ||| contains_text(g.fn_name@, "parallel_runtime"@)
    ||| contains_text(g.fn_name@, "parallel_reduce_"@)
    ||| contains_text(g.fn_name@, "parallel_axpy"@)
    ||| contains_text(g.fn_name@, "parallel_invoke"@)
    ||| !g.float_opt_in
    ||| quick_skip(body, 4, true, g.inline_always_or_naked)
    ||| !helper_listed(g.available_helpers@, "parallel_runtime_parallel_axpy_f64"@)
}

/// Replaces the axpy loops of a body (see `axpy_plans`), in order, each by
/// one call of the axpy helper (see `axpy_step`), and returns how many
/// were replaced.
pub fn try_transform_slice_axpy_f64(body: &mut Body, gates: &LoopIdiomGates) -> (n: usize)
    requires
        old(body).targets_valid(),
        old(body).all_terminated(),
    ensures
        axpy_gate_refuses(*old(body), *gates) ==> n == 0 && *final(body) == *old(body),
        !axpy_gate_refuses(*old(body), *gates) ==> axpys_applied(
            *old(body),
            *final(body),
            axpy_plans(*old(body)),
            gates.available_helpers@,
            n as nat,
        ),
        final(body).targets_valid(),
        final(body).all_terminated(),
{
    let f = gates.fn_name.as_str();
    if !gates.enabled || is_in_sysroot_crate(gates.crate_name.as_str()) || contains_str(f, "parallel_runtime")
        || contains_str(f, "parallel_reduce_") || contains_str(f, "parallel_axpy") || contains_str(f, "parallel_invoke")
        || !gates.float_opt_in || parallel_pass_quick_skip(body, 4, true, gates.inline_always_or_naked)
        || !helper_available(&gates.available_helpers, "parallel_runtime_parallel_axpy_f64") {
        return 0;
    }
    let ghost src = *body;
    let ghost ls = loops_spec(src);
    let loops = find_simple_loops(body);
    proof {
        lemma_loops_in_range(src);
    }
    let mut plans: Vec<AxpyPlan> = Vec::new();
    let mut i: usize = 0;
    while i < loops.len()
        invariant
            *body == src,
            src.targets_valid(),
            src.all_terminated(),
            i <= loops@.len(),
            loops@.len() == ls.len(),
            ls == loops_spec(src),
            forall|j: int| 0 <= j < ls.len() ==> (#[trigger] ls[j]).0 < ls[j].1 < src.num_blocks(),
            forall|j: int|
                0 <= j < loops@.len() ==> (#[trigger] loops@[j]).header == ls[j].0 && loops@[j].body@
                    == block_range(ls[j].0, ls[j].1),
            plans@ == axpy_plans_upto(src, ls, i as nat),
            forall|j: int|
                0 <= j < plans@.len() ==> (#[trigger] plans@[j]).entry_bb < src.num_blocks() && plans@[j].exit_bb
                    < src.num_blocks(),
        decreases loops@.len() - i,
    {
        let lp = &loops[i];
        proof {
            assert(ls[i as int].0 < ls[i as int].1 < src.num_blocks());
            assert forall|j: int| 0 <= j < lp.body@.len() implies #[trigger] lp.body@[j] < src.num_blocks() by {}
            lemma_shape_entry(src, lp.header, lp.body@);
        }
        match analyze_axpy_loop_for_transform(body, lp) {
            Some(p) => {
                plans.push(p);
            },
            None => {},
        }
        i = i + 1;
    }
    let ghost ps = axpy_plans(src);
    assert(plans@ == ps);
    let ghost mut bodies: Seq<Body> = seq![src];
    let mut q: usize = 0;
    let mut count: usize = 0;
    let has_as_mut_slice = helper_available(&gates.available_helpers, "vec_as_mut_slice");
    while q < plans.len()
        invariant
            q <= ps.len(),
            plans@ == ps,
            forall|j: int|
                0 <= j < ps.len() ==> (#[trigger] ps[j]).entry_bb < src.num_blocks() && ps[j].exit_bb < src.num_blocks(),
            has_as_mut_slice == helper_listed(gates.available_helpers@, "vec_as_mut_slice"@),
            bodies.len() == q + 1,
            bodies[0] == src,
            bodies.last() == *body,
            forall|j: int| 0 <= j < q ==> #[trigger] axpy_step(bodies[j], bodies[j + 1], ps[j], gates.available_helpers@),
            count == axpy_count(bodies, ps, gates.available_helpers@, q as nat),
            count <= q,
            body.num_blocks() >= src.num_blocks(),
            body.targets_valid(),
            body.all_terminated(),
        decreases ps.len() - q,
    {
        let p = plans[q];
        let ghost mid = *body;
        let did = match p.y_dst {
            SliceDst::Slice { local } => {
                let c = axpy_slice_call_of(&p, local);
                let ok = apply_loop_call(body, c);
                proof {
                    lemma_loop_call_keeps_targets(mid, *body, axpy_slice_call(p, local));
                }
                ok
            },
            SliceDst::VecRef { vec_ref } => {
                if has_as_mut_slice {
                    let ok = apply_vec_axpy(body, &p, vec_ref);
                    proof {
                        lemma_vec_axpy_keeps_targets(mid, *body, p, vec_ref);
                    }
                    ok
                } else {
                    false
                }
            },
        };
        if did {
            count = count + 1;
        }
        proof {
            let nb = bodies.push(*body);
            assert forall|j: int| 0 <= j < q + 1 implies #[trigger] axpy_step(
                nb[j],
                nb[j + 1],
                ps[j],
                gates.available_helpers@,
            ) by {
                if j < q {
                    assert(nb[j] == bodies[j] && nb[j + 1] == bodies[j + 1]);
                } else {
                    assert(nb[j] == mid && nb[j + 1] == *body);
                }
            }
            lemma_axpy_count_prefix(bodies, nb, ps, gates.available_helpers@, q as nat);
            assert(nb[q as int] == mid);
            bodies = nb;
        }
        q = q + 1;
    }
    count
}

proof fn lemma_axpy_count_prefix(a: Seq<Body>, b: Seq<Body>, ps: Seq<AxpyPlan>, available: Seq<String>, m: nat)
    requires
        m <= a.len(),
        m <= b.len(),
        forall|j: int| 0 <= j < m ==> a[j] == b[j],
    ensures
        axpy_count(a, ps, available, m) == axpy_count(b, ps, available, m),
    decreases m,
{
    if m > 0 {
        lemma_axpy_count_prefix(a, b, ps, available, (m - 1) as nat);
    }
}

} // verus!
