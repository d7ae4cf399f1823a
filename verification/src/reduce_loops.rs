//! The canonical reduction loop `while i < n { acc = acc op body(i); i += 1 }`:
//! finding the call of the body function, the operation that folds its
//! result into the accumulator, and the plan that hands the loop to a
//! parallel reduce helper.
use vstd::prelude::*;
use crate::mir::{Body, BasicBlockData, StatementKind, TerminatorKind, Operand, Rvalue, BinOp, Const, LocalTy, local_ty, local_ty_of, binop_value};
use crate::idioms::{AccTyTag, ReduceOp, ScalarTy, identity_spec, width_spec, reduce_value, is_assoc_comm};
use crate::detect::{SimpleLoop, loop_ok, stmts_of, term_of, contains_usize};
use crate::shape::{
    bare_local, entry_preds, unique_entry_pred, ends_with_next, ends_with_next_exec, discr_assigned, discr_assigned_exec,
    last_target_for, last_target_for_exec,
};
use crate::chains::{
    chain_walk, trace_back, xblock_walk, resolve_local_chain, resolve_local_chain_before, traces_to_local,
    resolve_local_chain_xblock_to_acc, const_u64_value, extract_u64_const, const_u64, extract_u64_const_loose, init_bits, width_mask, find_init_bits,
    is_local_initialised_to_bits,
};
use crate::axpy::bare_local_exec;
use crate::iter_methods::acc_tag;
use crate::text::{last_segment, last_path_segment, starts_with_text, contains_text, starts_with_str, contains_str, str_eq};

verus! {

// ── The body call ─────────────────────────────────────────────────────

/// Callees that are arithmetic or the induction step, not a loop body.
pub open spec fn not_a_body_callee(path: Seq<char>) -> bool {
    ||| starts_with_text(path, "core::num::"@)
    ||| contains_text(path, "wrapping_add"@)
    ||| contains_text(path, "wrapping_sub"@)
    ||| contains_text(path, "wrapping_mul"@)
    ||| contains_text(path, "wrapping_div"@)
    ||| contains_text(path, "rotate_left"@)
    ||| contains_text(path, "rotate_right"@)
}

/// Block `b` calls a body function on one bare local that is (a copy
/// chain, within the block, of) the induction variable: the call's
/// destination.
pub open spec fn body_call_at(body: Body, b: usize, iter_local: usize) -> Option<usize> {
    match term_of(body, b as int) {
        Some(TerminatorKind::Call { func: Operand::Constant(Const::FnDef { path }), args, destination, .. }) => {
            if destination.projection@.len() == 0 && !not_a_body_callee(path@) && args@.len() == 1 {
                match bare_local(args@[0]) {
                    Some(al) => if al == iter_local || trace_back(stmts_of(body, b as int), al, iter_local) {
                        Some(destination.local)
                    } else {
                        None
                    },
                    None => None,
                }
            } else {
                None
            }
        },
        _ => None,
    }
}

/// The body calls among the blocks, in order: (block, destination).
pub open spec fn body_calls(body: Body, blocks: Seq<usize>, iter_local: usize) -> Seq<(usize, usize)>
    decreases blocks.len(),
{
    if blocks.len() == 0 {
        Seq::empty()
    } else {
        body_calls(body, blocks.drop_last(), iter_local) + match body_call_at(body, blocks.last(), iter_local) {
            Some(d) => seq![(blocks.last(), d)],
            None => Seq::empty(),
        }
    }
}

// ── The folding operation ─────────────────────────────────────────────

/// The reduction of a binary operator.
pub open spec fn reduce_of_binop(bo: BinOp) -> Option<ReduceOp> {
    match bo {
        BinOp::Add | BinOp::AddUnchecked | BinOp::AddWithOverflow => Some(ReduceOp::Add),
        BinOp::Mul | BinOp::MulUnchecked | BinOp::MulWithOverflow => Some(ReduceOp::Mul),
        BinOp::BitAnd => Some(ReduceOp::BitAnd),
        BinOp::BitOr => Some(ReduceOp::BitOr),
        BinOp::BitXor => Some(ReduceOp::BitXor),
        _ => None,
    }
}

/// The operand other than `dest` (the left one is compared first).
pub open spec fn other_operand(la: usize, lb: usize, dest: usize) -> Option<usize> {
    if la == dest {
        Some(lb)
    } else if lb == dest {
        Some(la)
    } else {
        None
    }
}

/// A statement folding `dest` with another bare local: (op, the other).
pub open spec fn stmt_fold(s: StatementKind, dest: usize) -> Option<(ReduceOp, usize)> {
    match s {
        StatementKind::Assign(_, Rvalue::BinaryOp(bo, a, b)) => match reduce_of_binop(bo) {
            None => None,
            Some(op) => match (bare_local(a), bare_local(b)) {
                (Some(la), Some(lb)) => match other_operand(la, lb, dest) {
                    Some(x) => Some((op, x)),
                    None => None,
                },
                _ => None,
            },
        },
        _ => None,
    }
}

/// The first such statement from index `i` on: (its index, op, other).
pub open spec fn first_fold(ss: Seq<StatementKind>, dest: usize, i: int) -> Option<(int, ReduceOp, usize)>
    decreases ss.len() - i,
{
    if i < 0 || i >= ss.len() {
        None
    } else {
        match stmt_fold(ss[i], dest) {
            Some((op, x)) => Some((i, op, x)),
            None => first_fold(ss, dest, i + 1),
        }
    }
}

/// The reduction that a call names: `wrapping_add`, `wrapping_mul`, or a
/// last segment `min` or `max`.
pub open spec fn call_reduce(path: Seq<char>) -> Option<ReduceOp> {
    if contains_text(path, "wrapping_add"@) {
        Some(ReduceOp::Add)
    } else if contains_text(path, "wrapping_mul"@) {
        Some(ReduceOp::Mul)
    } else if last_segment(path) == "min"@ {
        Some(ReduceOp::Min)
    } else if last_segment(path) == "max"@ {
        Some(ReduceOp::Max)
    } else {
        None
    }
}

/// A terminator calling such a function on `dest` and another bare local,
/// into a bare local: (op, the other).
pub open spec fn term_fold(t: Option<TerminatorKind>, dest: usize) -> Option<(ReduceOp, usize)> {
    match t {
        Some(TerminatorKind::Call { func: Operand::Constant(Const::FnDef { path }), args, destination, .. }) => {
            if destination.projection@.len() == 0 && args@.len() == 2 {
                match call_reduce(path@) {
                    None => None,
                    Some(op) => match (bare_local(args@[0]), bare_local(args@[1])) {
                        (Some(la), Some(lb)) => match other_operand(la, lb, dest) {
                            Some(x) => Some((op, x)),
                            None => None,
                        },
                        _ => None,
                    },
                }
            } else {
                None
            }
        },
        _ => None,
    }
}

/// The accumulator an operand comes from: its copy chain within the block
/// before the fold, or, when that leads nowhere, its chain across the loop
/// to a local that the entry block writes.
pub open spec fn acc_of(body: Body, blocks: Seq<usize>, entry: usize, before: Seq<StatementKind>, x: usize) -> usize {
    let r = chain_walk(before, x, 17);
    if r == x {
        xblock_walk(body, blocks, entry, x, 33)
    } else {
        r
    }
}

/// The fold of `dest` in block `b`: its first folding statement, else its
/// folding call: (op, accumulator).
pub open spec fn block_fold(body: Body, blocks: Seq<usize>, entry: usize, b: usize, dest: usize) -> Option<(ReduceOp, usize)> {
    let ss = stmts_of(body, b as int);
    match first_fold(ss, dest, 0) {
        Some((i, op, x)) => Some((op, acc_of(body, blocks, entry, ss.take(i), x))),
        None => match term_fold(term_of(body, b as int), dest) {
            Some((op, x)) => Some((op, acc_of(body, blocks, entry, ss, x))),
            None => None,
        },
    }
}

/// The first block of the loop that folds `dest`.
pub open spec fn loop_fold(body: Body, blocks: Seq<usize>, entry: usize, dest: usize, j: int) -> Option<(ReduceOp, usize)>
    decreases blocks.len() - j,
{
    if j < 0 || j >= blocks.len() {
        None
    } else {
        match block_fold(body, blocks, entry, blocks[j], dest) {
            Some(f) => Some(f),
            None => loop_fold(body, blocks, entry, dest, j + 1),
        }
    }
}

/// The first body call whose result some block folds: (call block, op,
/// accumulator).
pub open spec fn fold_of_calls(body: Body, blocks: Seq<usize>, entry: usize, calls: Seq<(usize, usize)>, c: int) -> Option<
    (usize, ReduceOp, usize),
>
    decreases calls.len() - c,
{
    if c < 0 || c >= calls.len() {
        None
    } else {
        match loop_fold(body, blocks, entry, calls[c].1, 0) {
            Some((op, acc)) => Some((calls[c].0, op, acc)),
            None => fold_of_calls(body, blocks, entry, calls, c + 1),
        }
    }
}

/// The reduction of a loop: (block of the body call, op, accumulator).
pub open spec fn reduction_in_loop(body: Body, blocks: Seq<usize>, iter_local: usize, entry: usize) -> Option<
    (usize, ReduceOp, usize),
> {
    fold_of_calls(body, blocks, entry, body_calls(body, blocks, iter_local), 0)
}

fn not_a_body_callee_exec(path: &str) -> (r: bool)
    ensures
        r == not_a_body_callee(path@),
{
    starts_with_str(path, "core::num::") || contains_str(path, "wrapping_add") || contains_str(path, "wrapping_sub")
        || contains_str(path, "wrapping_mul") || contains_str(path, "wrapping_div") || contains_str(path, "rotate_left")
        || contains_str(path, "rotate_right")
}

fn body_call_of(body: &Body, b: usize, iter_local: usize) -> (r: Option<usize>)
    requires
        b < body.num_blocks(),
    ensures
        r == body_call_at(*body, b, iter_local),
{
    let block = &body.basic_blocks[b];
    match &block.terminator {
        Some(TerminatorKind::Call { func: Operand::Constant(Const::FnDef { path }), args, destination, .. }) => {
            if destination.projection.len() != 0 || not_a_body_callee_exec(path.as_str()) || args.len() != 1 {
                return None;
            }
            match bare_local_exec(&args[0]) {
                Some(al) => {
                    if traces_to_local(block, al, iter_local) {
                        Some(destination.local)
                    } else {
                        None
                    }
                },
                None => None,
            }
        },
        _ => None,
    }
}

fn body_calls_of(body: &Body, lp: &SimpleLoop, iter_local: usize) -> (r: Vec<(usize, usize)>)
    requires
        loop_ok(*body, lp.body@),
    ensures
        r@ == body_calls(*body, lp.body@, iter_local),
{
    let mut r: Vec<(usize, usize)> = Vec::new();
    let mut k: usize = 0;
    while k < lp.body.len()
        invariant
            k <= lp.body@.len(),
            loop_ok(*body, lp.body@),
            r@ == body_calls(*body, lp.body@.take(k as int), iter_local),
        decreases lp.body@.len() - k,
    {
        proof {
            assert(lp.body@.take(k + 1).drop_last() =~= lp.body@.take(k as int));
        }
        let bb = lp.body[k];
        match body_call_of(body, bb, iter_local) {
            Some(d) => {
                r.push((bb, d));
            },
            None => {},
        }
        proof {
            assert(r@ =~= body_calls(*body, lp.body@.take(k + 1), iter_local));
        }
        k = k + 1;
    }
    proof {
        assert(lp.body@.take(k as int) =~= lp.body@);
    }
    r
}

fn stmt_fold_of(s: &StatementKind, dest: usize) -> (r: Option<(ReduceOp, usize)>)
    ensures
        r == stmt_fold(*s, dest),
{
    match s {
        StatementKind::Assign(_, Rvalue::BinaryOp(bo, a, b)) => {
            let op = match *bo {
                BinOp::Add | BinOp::AddUnchecked | BinOp::AddWithOverflow => ReduceOp::Add,
                BinOp::Mul | BinOp::MulUnchecked | BinOp::MulWithOverflow => ReduceOp::Mul,
                BinOp::BitAnd => ReduceOp::BitAnd,
                BinOp::BitOr => ReduceOp::BitOr,
                BinOp::BitXor => ReduceOp::BitXor,
                _ => {
                    return None;
                },
            };
            match (bare_local_exec(a), bare_local_exec(b)) {
                (Some(la), Some(lb)) => {
                    if la == dest {
                        Some((op, lb))
                    } else if lb == dest {
                        Some((op, la))
                    } else {
                        None
                    }
                },
                _ => None,
            }
        },
        _ => None,
    }
}

fn call_reduce_of(path: &str) -> (r: Option<ReduceOp>)
    ensures
        r == call_reduce(path@),
{
    if contains_str(path, "wrapping_add") {
        Some(ReduceOp::Add)
    } else if contains_str(path, "wrapping_mul") {
        Some(ReduceOp::Mul)
    } else {
        let seg = last_path_segment(path);
        if str_eq(seg, "min") {
            Some(ReduceOp::Min)
        } else if str_eq(seg, "max") {
            Some(ReduceOp::Max)
        } else {
            None
        }
    }
}

fn term_fold_of(t: &Option<TerminatorKind>, dest: usize) -> (r: Option<(ReduceOp, usize)>)
    ensures
        r == term_fold(*t, dest),
{
    match t {
        Some(TerminatorKind::Call { func: Operand::Constant(Const::FnDef { path }), args, destination, .. }) => {
            if destination.projection.len() != 0 || args.len() != 2 {
                return None;
            }
            let op = match call_reduce_of(path.as_str()) {
                Some(op) => op,
                None => {
                    return None;
                },
            };
            match (bare_local_exec(&args[0]), bare_local_exec(&args[1])) {
                (Some(la), Some(lb)) => {
                    if la == dest {
                        Some((op, lb))
                    } else if lb == dest {
                        Some((op, la))
                    } else {
                        None
                    }
                },
                _ => None,
            }
        },
        _ => None,
    }
}

fn block_fold_of(body: &Body, lp: &SimpleLoop, entry: usize, b: usize, dest: usize) -> (r: Option<(ReduceOp, usize)>)
    requires
        loop_ok(*body, lp.body@),
        entry < body.num_blocks(),
        b < body.num_blocks(),
    ensures
        r == block_fold(*body, lp.body@, entry, b, dest),
{
    let block = &body.basic_blocks[b];
    let stmts = &block.statements;
    let mut i: usize = 0;
    while i < stmts.len()
        invariant
            i <= stmts@.len(),
            loop_ok(*body, lp.body@),
            entry < body.num_blocks(),
            b < body.num_blocks(),
            *block == body.basic_blocks@[b as int],
            stmts@ == stmts_of(*body, b as int),
            stmts@ == block.statements@,
            first_fold(stmts@, dest, 0) == first_fold(stmts@, dest, i as int),
        decreases stmts@.len() - i,
    {
        match stmt_fold_of(&stmts[i], dest) {
            Some((op, x)) => {
                let r0 = resolve_local_chain_before(block, x, i);
                let acc = if r0 == x {
                    resolve_local_chain_xblock_to_acc(body, lp, entry, x)
                } else {
                    r0
                };
                return Some((op, acc));
            },
            None => {},
        }
        i = i + 1;
    }
    match term_fold_of(&block.terminator, dest) {
        Some((op, x)) => {
            let r0 = resolve_local_chain_before(block, x, stmts.len());
            proof {
                assert(stmts@.take(stmts@.len() as int) =~= stmts@);
            }
            let acc = if r0 == x {
                resolve_local_chain_xblock_to_acc(body, lp, entry, x)
            } else {
                r0
            };
            Some((op, acc))
        },
        None => None,
    }
}

/// Finds the reduction of a loop: the first call (in the loop's block
/// order) of a body function on the induction variable whose result some
/// block folds into an accumulator, by a statement (looked for first) or
/// by a `wrapping_add`, `wrapping_mul`, `min` or `max` call. Gives the call's
/// block, the operation and the accumulator.
pub fn find_reduction_in_loop(body: &Body, lp: &SimpleLoop, iter_local: usize, entry_bb: usize) -> (r: Option<
    (usize, ReduceOp, usize),
>)
    requires
        loop_ok(*body, lp.body@),
        entry_bb < body.num_blocks(),
    ensures
        r == reduction_in_loop(*body, lp.body@, iter_local, entry_bb),
{
    let calls = body_calls_of(body, lp, iter_local);
    let mut c: usize = 0;
    while c < calls.len()
        invariant
            c <= calls@.len(),
            loop_ok(*body, lp.body@),
            entry_bb < body.num_blocks(),
            calls@ == body_calls(*body, lp.body@, iter_local),
            reduction_in_loop(*body, lp.body@, iter_local, entry_bb) == fold_of_calls(
                *body,
                lp.body@,
                entry_bb,
                calls@,
                c as int,
            ),
        decreases calls@.len() - c,
    {
        let (call_bb, dest) = calls[c];
        let mut j: usize = 0;
        while j < lp.body.len()
            invariant
                j <= lp.body@.len(),
                c < calls@.len(),
                call_bb == calls@[c as int].0,
                dest == calls@[c as int].1,
                loop_ok(*body, lp.body@),
                entry_bb < body.num_blocks(),
                reduction_in_loop(*body, lp.body@, iter_local, entry_bb) == fold_of_calls(
                    *body,
                    lp.body@,
                    entry_bb,
                    calls@,
                    c as int,
                ),
                loop_fold(*body, lp.body@, entry_bb, dest, 0) == loop_fold(*body, lp.body@, entry_bb, dest, j as int),
            decreases lp.body@.len() - j,
        {
            match block_fold_of(body, lp, entry_bb, lp.body[j], dest) {
                Some((op, acc)) => {
                    return Some((call_bb, op, acc));
                },
                None => {},
            }
            j = j + 1;
        }
        c = c + 1;
    }
    None
}

// ── The plan ──────────────────────────────────────────────────────────

/// The loop's bound: a constant or a local.
#[derive(Clone, Copy, Debug, PartialEq, Eq, Structural)]
pub enum LoopBound {
    Const(u64),
    Local(usize),
}

/// What the compiler says of a callee's signature (regions erased): the
/// types of its inputs and of its output.
#[derive(Clone, Debug)]
pub struct FnSigFacts {
    pub inputs: Vec<LocalTy>,
    pub output: LocalTy,
}

/// A reduction loop to hand to a parallel reduce helper.
#[derive(Clone, Copy, Debug)]
pub struct ReducePlan {
    pub entry_bb: usize,
    pub exit_bb: usize,
    pub acc_local: usize,
    /// The block whose call is the body function.
    pub body_call_bb: usize,
    pub end_bound: LoopBound,
    pub acc_ty: LocalTy,
    pub acc_ty_tag: AccTyTag,
    pub reduce_op: ReduceOp,
    /// The induction variable's initial bits.
    pub iter_start_bits: u128,
}

/// The last switch target outside the loop, else the otherwise block when
/// it lies outside.
pub open spec fn last_outside(targets: Seq<(u128, usize)>, blocks: Seq<usize>) -> Option<usize>
    decreases targets.len(),
{
    if targets.len() == 0 {
        None
    } else if !blocks.contains(targets.last().1) {
        Some(targets.last().1)
    } else {
        last_outside(targets.drop_last(), blocks)
    }
}

pub open spec fn header_exit(targets: Seq<(u128, usize)>, otherwise: usize, blocks: Seq<usize>) -> Option<usize> {
    match last_outside(targets, blocks) {
        Some(e) => Some(e),
        None => if !blocks.contains(otherwise) {
            Some(otherwise)
        } else {
            None
        },
    }
}

/// A header statement `test_local = Lt(i, n)` with `i` a bare local and `n` a
/// constant that fits in a `u64` or a bare local: (i, n), each traced back
/// through the header's copies.
pub open spec fn lt_compare(s: StatementKind, test_local: usize, hs: Seq<StatementKind>) -> Option<(usize, LoopBound)> {
    match s {
        StatementKind::Assign(place, Rvalue::BinaryOp(BinOp::Lt, a, b)) => if place.projection@.len() == 0
            && place.local == test_local {
            match bare_local(a) {
                None => None,
                Some(it) => {
                    let bound = match b {
                        Operand::Constant(c) => match const_u64_value(c) {
                            Some(n) => Some(LoopBound::Const(n)),
                            None => None,
                        },
                        _ => match bare_local(b) {
                            Some(p) => Some(LoopBound::Local(chain_walk(hs, p, 17))),
                            None => None,
                        },
                    };
                    match bound {
                        Some(bd) => Some((chain_walk(hs, it, 17), bd)),
                        None => None,
                    }
                },
            }
        } else {
            None
        },
        _ => None,
    }
}

/// The first such comparison from index `i` on.
pub open spec fn first_compare(hs: Seq<StatementKind>, test_local: usize, i: int) -> Option<(usize, LoopBound)>
    decreases hs.len() - i,
{
    if i < 0 || i >= hs.len() {
        None
    } else {
        match lt_compare(hs[i], test_local, hs) {
            Some(x) => Some(x),
            None => first_compare(hs, test_local, i + 1),
        }
    }
}

/// The signature of block `b`'s callee is `fn(t) -> t`.
pub open spec fn sig_is_endo(sigs: Seq<Option<FnSigFacts>>, b: usize, t: LocalTy) -> bool {
    &&& b < sigs.len()
    &&& sigs[b as int] matches Some(sig) && sig.inputs@.len() == 1 && sig.inputs@[0] == t && sig.output == t
}

/// The plan of a reduction loop: one edge enters the header from outside
/// the loop; the header switches on a bare local `test_local` and has a way out
/// of the loop; its first `test_local = i < n` gives the induction variable and
/// the bound; the loop reduces the results of a body call on `i` into an
/// accumulator of a supported scalar type; the entry block starts `i` at a
/// constant and the accumulator at the operation's identity; the body
/// function maps that type to itself; and `i` has that type too.
pub open spec fn reduce_plan(body: Body, header: usize, blocks: Seq<usize>, sigs: Seq<Option<FnSigFacts>>) -> Option<ReducePlan> {
    let preds = entry_preds(body, header, blocks, body.num_blocks());
    if preds.len() != 1 {
        None
    } else {
        let entry = preds[0];
        match term_of(body, header as int) {
            Some(TerminatorKind::SwitchInt { discr, targets, otherwise }) => match bare_local(discr) {
                None => None,
                Some(test_local) => match header_exit(targets@, otherwise, blocks) {
                    None => None,
                    Some(exit) => match first_compare(stmts_of(body, header as int), test_local, 0) {
                        None => None,
                        Some((iter, bound)) => match reduction_in_loop(body, blocks, iter, entry) {
                            None => None,
                            Some((cb, op, acc)) => {
                                let acc_ty = local_ty(body, acc);
                                match acc_ty {
                                    LocalTy::Scalar(t) => match acc_tag(t) {
                                        None => None,
                                        Some(tag) => {
                                            let mask = width_mask(width_spec(tag) as u32);
                                            match init_bits(stmts_of(body, entry as int), iter, mask) {
                                                None => None,
                                                Some(start) => if sig_is_endo(sigs, cb, acc_ty) && local_ty(body, iter)
                                                    == acc_ty && init_bits(stmts_of(body, entry as int), acc, mask)
                                                    == Some((identity_spec(op, tag) as u128) & mask) {
                                                    Some(
                                                        ReducePlan {
                                                            entry_bb: entry,
                                                            exit_bb: exit,
                                                            acc_local: acc,
                                                            body_call_bb: cb,
                                                            end_bound: bound,
                                                            acc_ty,
                                                            acc_ty_tag: tag,
                                                            reduce_op: op,
                                                            iter_start_bits: start,
                                                        },
                                                    )
                                                } else {
                                                    None
                                                },
                                            }
                                        },
                                    },
                                    _ => None,
                                }
                            },
                        },
                    },
                },
            },
            _ => None,
        }
    }
}

fn header_exit_of(targets: &Vec<(u128, usize)>, otherwise: usize, lp: &SimpleLoop) -> (r: Option<usize>)
    ensures
        r == header_exit(targets@, otherwise, lp.body@),
{
    let mut exit: Option<usize> = None;
    let mut k: usize = 0;
    while k < targets.len()
        invariant
            k <= targets@.len(),
            exit == last_outside(targets@.take(k as int), lp.body@),
        decreases targets@.len() - k,
    {
        proof {
            assert(targets@.take(k + 1).drop_last() =~= targets@.take(k as int));
        }
        if !contains_usize(&lp.body, targets[k].1) {
            exit = Some(targets[k].1);
        }
        k = k + 1;
    }
    proof {
        assert(targets@.take(k as int) =~= targets@);
    }
    match exit {
        Some(e) => Some(e),
        None => if !contains_usize(&lp.body, otherwise) {
            Some(otherwise)
        } else {
            None
        },
    }
}

fn lt_compare_of(s: &StatementKind, test_local: usize, header_block: &BasicBlockData) -> (r: Option<(usize, LoopBound)>)
    ensures
        r == lt_compare(*s, test_local, header_block.statements@),
{
    match s {
        StatementKind::Assign(place, Rvalue::BinaryOp(BinOp::Lt, a, b)) => {
            if place.projection.len() != 0 || place.local != test_local {
                return None;
            }
            let it = match bare_local_exec(a) {
                Some(x) => x,
                None => {
                    return None;
                },
            };
            let bound = match b {
                Operand::Constant(c) => match extract_u64_const(c) {
                    Some(n) => LoopBound::Const(n),
                    None => {
                        return None;
                    },
                },
                _ => match bare_local_exec(b) {
                    Some(p) => LoopBound::Local(resolve_local_chain(header_block, p)),
                    None => {
                        return None;
                    },
                },
            };
            Some((resolve_local_chain(header_block, it), bound))
        },
        _ => None,
    }
}

fn sig_is_endo_of(sigs: &Vec<Option<FnSigFacts>>, b: usize, t: LocalTy) -> (r: bool)
    ensures
        r == sig_is_endo(sigs@, b, t),
{
    if b >= sigs.len() {
        return false;
    }
    match &sigs[b] {
        Some(sig) => sig.inputs.len() == 1 && sig.inputs[0] == t && sig.output == t,
        None => false,
    }
}

fn first_compare_of(header_block: &BasicBlockData, switch_local: usize) -> (r: Option<(usize, LoopBound)>)
    ensures
        r == first_compare(header_block.statements@, switch_local, 0),
{
    let hs = &header_block.statements;
    let mut i: usize = 0;
    while i < hs.len()
        invariant
            i <= hs@.len(),
            hs@ == header_block.statements@,
            first_compare(hs@, switch_local, 0) == first_compare(hs@, switch_local, i as int),
        decreases hs@.len() - i,
    {
        match lt_compare_of(&hs[i], switch_local, header_block) {
            Some(x) => {
                return Some(x);
            },
            None => {},
        }
        i = i + 1;
    }
    None
}

/// Matches a canonical reduction loop; `sigs` gives, per block, the
/// signature of the function its call terminator calls.
pub fn analyze_loop_for_transform(body: &Body, lp: &SimpleLoop, sigs: &Vec<Option<FnSigFacts>>) -> (r: Option<ReducePlan>)
    requires
        body.all_terminated(),
        loop_ok(*body, lp.body@),
        lp.header < body.num_blocks(),
    ensures
        r == reduce_plan(*body, lp.header, lp.body@, sigs@),
{
    let header = lp.header;
    let entry_bb = match unique_entry_pred(body, lp, header) {
        Some(e) => e,
        None => {
            return None;
        },
    };
    proof {
        let preds = entry_preds(*body, header, lp.body@, body.num_blocks());
        assert(entry_bb < body.num_blocks()) by {
            crate::shape::lemma_entry_preds_bounded(*body, header, lp.body@, body.num_blocks());
        }
    }
    let header_block = &body.basic_blocks[header];
    let (switch_local, exit_bb) = match &header_block.terminator {
        Some(TerminatorKind::SwitchInt { discr, targets, otherwise }) => {
            let test_local = match bare_local_exec(discr) {
                Some(l) => l,
                None => {
                    return None;
                },
            };
            match header_exit_of(targets, *otherwise, lp) {
                Some(e) => (test_local, e),
                None => {
                    return None;
                },
            }
        },
        _ => {
            return None;
        },
    };
    let found = first_compare_of(header_block, switch_local);
    let (iter_local, end_bound) = match found {
        Some(x) => x,
        None => {
            return None;
        },
    };
    let (call_bb, op, acc) = match find_reduction_in_loop(body, lp, iter_local, entry_bb) {
        Some(x) => x,
        None => {
            return None;
        },
    };
    let acc_ty = local_ty_of(body, acc);
    let tag = match acc_ty {
        LocalTy::Scalar(t) => match AccTyTag::from_ty(t) {
            Some(tag) => tag,
            None => {
                return None;
            },
        },
        _ => {
            return None;
        },
    };
    let width = tag.width_bits();
    let start = match find_init_bits(body, entry_bb, iter_local, width) {
        Some(b) => b,
        None => {
            return None;
        },
    };
    if !sig_is_endo_of(sigs, call_bb, acc_ty) || local_ty_of(body, iter_local) != acc_ty {
        return None;
    }
    let expected = op.identity_bits(tag);
    if !is_local_initialised_to_bits(body, entry_bb, acc, expected, width) {
        return None;
    }
    Some(
        ReducePlan {
            entry_bb,
            exit_bb,
            acc_local: acc,
            body_call_bb: call_bb,
            end_bound,
            acc_ty,
            acc_ty_tag: tag,
            reduce_op: op,
            iter_start_bits: start,
        },
    )
}

// ── The slice form ────────────────────────────────────────────────────

/// `&[u64]` or `&mut [u64]`.
pub open spec fn ref_slice_u64(t: LocalTy) -> bool {
    t matches LocalTy::RefSlice { elem, .. } && elem == ScalarTy::U64
}

/// True for `&[u64]` or `&mut [u64]`.
pub fn is_ref_slice_u64(t: LocalTy) -> (r: bool)
    ensures
        r == ref_slice_u64(t),
{
    match t {
        LocalTy::RefSlice { elem, .. } => elem == ScalarTy::U64,
        _ => false,
    }
}

/// A statement `l = const 0` (a constant of at most 64 bits) into a bare
/// local: `l`.
pub open spec fn zero_init_of(s: StatementKind) -> Option<usize> {
    match s {
        StatementKind::Assign(place, Rvalue::Use(Operand::Constant(c))) => if place.projection@.len() == 0
            && const_u64(c) == Some(0u64) {
            Some(place.local)
        } else {
            None
        },
        _ => None,
    }
}

/// The first such statement among `ss`.
pub open spec fn first_zero_init(ss: Seq<StatementKind>) -> Option<usize>
    decreases ss.len(),
{
    if ss.len() == 0 {
        None
    } else {
        match zero_init_of(ss[0]) {
            Some(l) => Some(l),
            None => first_zero_init(ss.skip(1)),
        }
    }
}

/// The first such statement in the blocks from `b` on that lie outside the
/// loop, in block order.
pub open spec fn zero_init_outside(body: Body, blocks: Seq<usize>, b: int) -> Option<usize>
    decreases body.basic_blocks@.len() - b,
{
    if b < 0 || b >= body.basic_blocks@.len() {
        None
    } else if blocks.contains(b as usize) {
        zero_init_outside(body, blocks, b + 1)
    } else {
        match first_zero_init(stmts_of(body, b)) {
            Some(l) => Some(l),
            None => zero_init_outside(body, blocks, b + 1),
        }
    }
}

fn first_zero_init_of(ss: &Vec<StatementKind>) -> (r: Option<usize>)
    ensures
        r == first_zero_init(ss@),
{
    let mut j: usize = 0;
    assert(ss@.skip(0) =~= ss@);
    while j < ss.len()
        invariant
            j <= ss@.len(),
            first_zero_init(ss@) == first_zero_init(ss@.skip(j as int)),
        decreases ss@.len() - j,
    {
        proof {
            assert(ss@.skip(j as int)[0] == ss@[j as int]);
            assert(ss@.skip(j as int).skip(1) =~= ss@.skip(j + 1));
        }
        match &ss[j] {
            StatementKind::Assign(place, Rvalue::Use(Operand::Constant(c))) => {
                if place.projection.len() == 0 && extract_u64_const_loose(c) == Some(0u64) {
                    return Some(place.local);
                }
            },
            _ => {},
        }
        j = j + 1;
    }
    None
}

/// The first `l = const 0` outside the loop (blocks in order): the
/// accumulator of a slice sum.
pub fn find_u64_acc_init_zero_anywhere(body: &Body, loop_body: &Vec<usize>) -> (r: Option<usize>)
    ensures
        r == zero_init_outside(*body, loop_body@, 0),
{
    let mut b: usize = 0;
    while b < body.basic_blocks.len()
        invariant
            b <= body.basic_blocks@.len(),
            zero_init_outside(*body, loop_body@, 0) == zero_init_outside(*body, loop_body@, b as int),
        decreases body.basic_blocks@.len() - b,
    {
        if !contains_usize(loop_body, b) {
            match first_zero_init_of(&body.basic_blocks[b].statements) {
                Some(l) => {
                    return Some(l);
                },
                None => {},
            }
        }
        b = b + 1;
    }
    None
}

/// A call of `into_iter` on a bare local, traced back through its block's
/// copies: the root.
pub open spec fn into_iter_root(body: Body, b: int) -> Option<usize> {
    match term_of(body, b) {
        Some(TerminatorKind::Call { func: Operand::Constant(Const::FnDef { path }), args, .. }) => if last_segment(
            path@,
        ) == "into_iter"@ && args@.len() >= 1 {
            match bare_local(args@[0]) {
                Some(a) => Some(chain_walk(stmts_of(body, b), a, 17)),
                None => None,
            }
        } else {
            None
        },
        _ => None,
    }
}

/// The first such call in the body, blocks in order from `b`.
pub open spec fn first_into_iter(body: Body, b: int) -> Option<usize>
    decreases body.basic_blocks@.len() - b,
{
    if b < 0 || b >= body.basic_blocks@.len() {
        None
    } else {
        match into_iter_root(body, b) {
            Some(r) => Some(r),
            None => first_into_iter(body, b + 1),
        }
    }
}

/// A `for x in slice { acc += x }` loop over `&[u64]`.
#[derive(Clone, Copy, Debug)]
pub struct SliceReducePlan {
    pub entry_bb: usize,
    pub exit_bb: usize,
    pub acc_local: usize,
    /// The local holding the `&[u64]`.
    pub slice_local: usize,
}

/// The plan of a slice sum loop: the header calls an `Iterator` method
/// ending in `::next` into a bare local, with a return block; that block
/// switches on a bare local that it assigns the result's discriminant; the
/// switch has arms for 0 (the exit) and 1; one edge enters the header from
/// outside; the first `into_iter` call of the body takes a local that is
/// (through its block's copies, and if needed one more hop through the
/// entry block's) a `&[u64]`; and some block outside the loop zeroes an
/// accumulator.
pub open spec fn slice_reduce_plan(body: Body, header: usize, blocks: Seq<usize>) -> Option<SliceReducePlan> {
    match term_of(body, header as int) {
        Some(TerminatorKind::Call { func: Operand::Constant(Const::FnDef { path }), destination, target: Some(post), .. }) => {
            if destination.projection@.len() != 0 || !contains_text(path@, "Iterator"@) || !ends_with_next(path@) {
                None
            } else {
                let opt = destination.local;
                match term_of(body, post as int) {
                    Some(TerminatorKind::SwitchInt { discr, targets, .. }) => match bare_local(discr) {
                        None => None,
                        Some(d) => if !discr_assigned(stmts_of(body, post as int), d, opt) {
                            None
                        } else {
                            match (last_target_for(targets@, 0), last_target_for(targets@, 1)) {
                                (Some(exit), Some(_arm)) => {
                                    let preds = entry_preds(body, header, blocks, body.num_blocks());
                                    if preds.len() != 1 {
                                        None
                                    } else {
                                        let entry = preds[0];
                                        match first_into_iter(body, 0) {
                                            None => None,
                                            Some(s0) => {
                                                let slice = if ref_slice_u64(local_ty(body, s0)) {
                                                    Some(s0)
                                                } else {
                                                    let next = chain_walk(stmts_of(body, entry as int), s0, 17);
                                                    if next != s0 && ref_slice_u64(local_ty(body, next)) {
                                                        Some(next)
                                                    } else {
                                                        None
                                                    }
                                                };
                                                match (slice, zero_init_outside(body, blocks, 0)) {
                                                    (Some(sl), Some(acc)) => Some(
                                                        SliceReducePlan {
                                                            entry_bb: entry,
                                                            exit_bb: exit,
                                                            acc_local: acc,
                                                            slice_local: sl,
                                                        },
                                                    ),
                                                    _ => None,
                                                }
                                            },
                                        }
                                    }
                                },
                                _ => None,
                            }
                        },
                    },
                    _ => None,
                }
            }
        },
        _ => None,
    }
}

fn first_into_iter_of(body: &Body) -> (r: Option<usize>)
    ensures
        r == first_into_iter(*body, 0),
{
    let mut b: usize = 0;
    while b < body.basic_blocks.len()
        invariant
            b <= body.basic_blocks@.len(),
            first_into_iter(*body, 0) == first_into_iter(*body, b as int),
        decreases body.basic_blocks@.len() - b,
    {
        let block = &body.basic_blocks[b];
        match &block.terminator {
            Some(TerminatorKind::Call { func: Operand::Constant(Const::FnDef { path }), args, .. }) => {
                if str_eq(last_path_segment(path.as_str()), "into_iter") && args.len() >= 1 {
                    match bare_local_exec(&args[0]) {
                        Some(a) => {
                            return Some(resolve_local_chain(block, a));
                        },
                        None => {},
                    }
                }
            },
            _ => {},
        }
        b = b + 1;
    }
    None
}

/// Matches a slice sum loop, `for x in slice { acc += x }` over `&[u64]`.
pub fn analyze_slice_loop_for_transform(body: &Body, lp: &SimpleLoop) -> (r: Option<SliceReducePlan>)
    requires
        body.targets_valid(),
        body.all_terminated(),
        lp.header < body.num_blocks(),
    ensures
        r == slice_reduce_plan(*body, lp.header, lp.body@),
{
    let header = lp.header;
    proof {
        assert(body.basic_blocks@[header as int].terminator is Some);
        assert(crate::mir::terminator_targets_ok(body.basic_blocks@[header as int].terminator->0, body.num_blocks()));
    }
    let (path, destination, post) = match &body.basic_blocks[header].terminator {
        Some(TerminatorKind::Call { func: Operand::Constant(Const::FnDef { path }), destination, target: Some(post), .. }) => (
            path,
            destination,
            *post,
        ),
        _ => {
            return None;
        },
    };
    if destination.projection.len() != 0 || !contains_str(path.as_str(), "Iterator") || !ends_with_next_exec(path.as_str()) {
        return None;
    }
    let opt = destination.local;
    let post_block = &body.basic_blocks[post];
    let (d, exit) = match &post_block.terminator {
        Some(TerminatorKind::SwitchInt { discr, targets, .. }) => {
            let d = match bare_local_exec(discr) {
                Some(d) => d,
                None => {
                    return None;
                },
            };
            if !discr_assigned_exec(&post_block.statements, d, opt) {
                return None;
            }
            match (last_target_for_exec(targets, 0), last_target_for_exec(targets, 1)) {
                (Some(exit), Some(_)) => (d, exit),
                _ => {
                    return None;
                },
            }
        },
        _ => {
            return None;
        },
    };
    let entry_bb = match unique_entry_pred(body, lp, header) {
        Some(e) => e,
        None => {
            return None;
        },
    };
    proof {
        crate::shape::lemma_entry_preds_bounded(*body, header, lp.body@, body.num_blocks());
    }
    let s0 = match first_into_iter_of(body) {
        Some(s) => s,
        None => {
            return None;
        },
    };
    let slice_local = if is_ref_slice_u64(local_ty_of(body, s0)) {
        s0
    } else {
        let next = resolve_local_chain(&body.basic_blocks[entry_bb], s0);
        if next != s0 && is_ref_slice_u64(local_ty_of(body, next)) {
            next
        } else {
            return None;
        }
    };
    let acc_local = match find_u64_acc_init_zero_anywhere(body, &lp.body) {
        Some(a) => a,
        None => {
            return None;
        },
    };
    Some(SliceReducePlan { entry_bb, exit_bb: exit, acc_local, slice_local })
}

/// A loop's binary operator and the reduction it becomes agree: an
/// operator has a reduction exactly when it is associative and
/// commutative, and the reduction combines any two values into what the
/// operator computes of them.
pub proof fn lemma_reduction_computes_the_operator(bo: BinOp, a: u64, b: u64)
    ensures
        reduce_of_binop(bo) is Some <==> is_assoc_comm(bo),
        reduce_of_binop(bo) matches Some(op) ==> binop_value(bo, a, b) == Some(reduce_value(op, a, b)),
{
}

/// A fold statement `dest = dest OP x` (or `x OP dest`) is folded with the
/// reduction that computes its operator, whatever two values the loop
/// combines, and with `x` the operand other than `dest`.
pub proof fn lemma_fold_statement_keeps_its_operator(s: StatementKind, dest: usize, a: u64, b: u64)
    ensures
        stmt_fold(s, dest) matches Some((op, x)) ==> {
            &&& s matches StatementKind::Assign(_, Rvalue::BinaryOp(bo, _, _))
            &&& binop_value(s->Assign_1->BinaryOp_0, a, b) == Some(reduce_value(op, a, b))
            &&& ({
                let l = bare_local(s->Assign_1->BinaryOp_1);
                let r = bare_local(s->Assign_1->BinaryOp_2);
                (l == Some(dest) && r == Some(x)) || (r == Some(dest) && l == Some(x))
            })
        },
{
}

/// A reducing call is folded with the reduction its method names: a
/// `wrapping_add` with a sum, a `wrapping_mul` with a product, a `min` with
/// the minimum and a `max` with the maximum; no call gives a bitwise one.
pub proof fn lemma_call_reduction_is_named_by_its_method(path: Seq<char>)
    ensures
        call_reduce(path) matches Some(op) ==> match op {
            ReduceOp::Add => contains_text(path, "wrapping_add"@),
            ReduceOp::Mul => contains_text(path, "wrapping_mul"@),
            ReduceOp::Min => last_segment(path) == "min"@,
            ReduceOp::Max => last_segment(path) == "max"@,
            _ => false,
        },
{
}

} // verus!
