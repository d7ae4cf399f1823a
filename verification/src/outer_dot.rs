//! A range loop whose body calls a dot-product function of the crate on a
//! row slice `&x[i * d..]` and a second slice `w`, storing the result at
//! `y[i]`: a matrix-vector product written across two functions. It is
//! replaced by one call of the matvec helper.
use vstd::prelude::*;
use std::collections::BTreeMap;
use crate::mir::{Body, StatementKind, TerminatorKind, Operand, Const, Rvalue, BinOp, LocalTy, ProjectionElem, AggregateKind, local_ty, local_ty_of};
use crate::detect::{SimpleLoop, find_simple_loops, loops_spec, block_range, loop_ok, lemma_loops_in_range, term_of, stmts_of, contains_usize};
use crate::shape::{
    alias_walk, alias_map, range_loop_shape, detect_range_loop_shape, LoopShape, bare_local, entry_preds, block_succs,
    unique_entry_pred, lemma_entry_preds_bounded,
};
use crate::axpy::{ref_slice_float, ref_slice_float_ty, bare_local_exec};
use crate::idioms::{FloatTy, ScalarTy};
use crate::matvec::{is_iv, is_iv_exec, last_some, range_end_f, resolved_as, last_range_end, resolve_operand};
use crate::reduce_loops::FnSigFacts;
use crate::loop_call::{TempInit, CallArg, LoopCall, LoopCallView, loop_call_applied, apply_loop_call, lemma_loop_call_keeps_targets};
use crate::loop_idioms::{LoopIdiomGates, dst_borrow, temps_ok, idiom_count, lemma_shape_entry, borrow_call};
use crate::nested_idioms::{op_arg, nested_step};
use crate::iter_methods::{helper_listed, helper_available};
use crate::gates::{sysroot_crate, quick_skip, is_in_sysroot_crate, parallel_pass_quick_skip};
use crate::text::{contains_text, contains_str, ends_with_text, ends_with_str};
use crate::cfg::count_false;

verus! {

/// What the compiler gives of the callee of a block's call: whether it is
/// defined in this crate, its signature, and its body where that is
/// available.
pub struct DotCallee {
    pub is_local: bool,
    pub sig: Option<FnSigFacts>,
    pub mir: Option<Body>,
}

/// Statement `s` multiplies.
pub open spec fn is_mul_stmt(s: StatementKind) -> bool {
    s matches StatementKind::Assign(_, Rvalue::BinaryOp(op, _, _)) && (op == BinOp::Mul || op == BinOp::MulUnchecked)
}

/// Block `b` of `mir` calls a zipped slice sum helper or multiplies.
pub open spec fn dot_signal(mir: Body, b: int) -> bool {
    ||| (match term_of(mir, b) {
        Some(TerminatorKind::Call { func: Operand::Constant(Const::FnDef { path }), .. }) => contains_text(
            path@,
            "parallel_reduce_sum_slice_zip_mul"@,
        ) || contains_text(path@, "parallel_reduce_sum_slice_zip_map"@),
        _ => false,
    })
    ||| exists|k: int| 0 <= k < stmts_of(mir, b).len() && #[trigger] is_mul_stmt(stmts_of(mir, b)[k])
}

/// The callee's body looks like a dot product: it is a function of this
/// crate with a body, some block of which multiplies or calls a zipped
/// slice sum helper.
pub open spec fn looks_like_dot(c: DotCallee) -> bool {
    &&& c.is_local
    &&& c.mir is Some
    &&& exists|b: int| 0 <= b < c.mir->0.num_blocks() && #[trigger] dot_signal(c.mir->0, b)
}

/// Paths of callees that are not user dot-product functions.
pub open spec fn excluded_callee(p: Seq<char>) -> bool {
    ||| contains_text(p, "Index"@)
    ||| contains_text(p, "Iterator"@)
    ||| contains_text(p, "parallel_runtime"@)
    ||| contains_text(p, "parallel_reduce"@)
    ||| contains_text(p, "parallel_invoke"@)
    ||| contains_text(p, "parallel_apply"@)
}

/// The signature takes two float slices first and returns an `f64`.
pub open spec fn dot_sig(s: FnSigFacts) -> bool {
    &&& s.inputs@.len() >= 2
    &&& s.output == LocalTy::Scalar(ScalarTy::F64)
    &&& ref_slice_float(s.inputs@[0], false) == Some(FloatTy::F64)
    &&& ref_slice_float(s.inputs@[1], false) == Some(FloatTy::F64)
}

pub open spec fn sig_ok(s: Option<FnSigFacts>) -> bool {
    match s {
        Some(f) => dot_sig(f),
        None => false,
    }
}

/// Block `bb` calls a dot-product function of the crate on two bare
/// locals with a return block: (first argument, second argument,
/// destination, return block).
pub open spec fn dot_call(body: Body, bb: int, c: DotCallee) -> Option<(usize, usize, usize, usize)> {
    match term_of(body, bb) {
        Some(TerminatorKind::Call { func: Operand::Constant(Const::FnDef { path }), args, destination, target: Some(t), .. }) => {
            if c.is_local && !excluded_callee(path@) && sig_ok(c.sig) && looks_like_dot(c) && args@.len() >= 2 {
                match (bare_local(args@[0]), bare_local(args@[1])) {
                    (Some(a0), Some(a1)) => Some((a0, a1, destination.local, t)),
                    _ => None,
                }
            } else {
                None
            }
        },
        _ => None,
    }
}

/// Block `b` calls an `Index::index` method on two arguments into a bare
/// local that resolves to `row`.
pub open spec fn is_index_call(body: Body, b: int, m: Map<usize, usize>, row: usize) -> bool {
    match term_of(body, b) {
        Some(TerminatorKind::Call { func, args, destination, .. }) => {
            &&& destination.projection@.len() == 0
            &&& alias_walk(m, destination.local, 16) == row
            &&& func matches Operand::Constant(Const::FnDef { path })
            &&& contains_text(func->Constant_0->FnDef_path@, "Index"@)
            &&& ends_with_text(func->Constant_0->FnDef_path@, "::index"@)
            &&& args@.len() == 2
        },
        _ => false,
    }
}

/// The first block of `blocks` from position `k` on that calls the index
/// method producing the row.
pub open spec fn first_index_call(body: Body, blocks: Seq<usize>, m: Map<usize, usize>, row: usize, k: int) -> Option<usize>
    decreases blocks.len() - k,
{
    if k < 0 || k >= blocks.len() {
        None
    } else if is_index_call(body, blocks[k] as int, m, row) {
        Some(blocks[k])
    } else {
        first_index_call(body, blocks, m, row, k + 1)
    }
}

/// `r = Range { start, end }` into a bare local that resolves to `root`:
/// the start's bare local, or `None` when the start is not one.
pub open spec fn range_start(s: StatementKind, m: Map<usize, usize>, root: usize) -> Option<Option<usize>> {
    match s {
        StatementKind::Assign(place, Rvalue::Aggregate(AggregateKind::Adt { path, .. }, fields)) => if place.projection@.len()
            == 0 && alias_walk(m, place.local, 16) == root && ends_with_text(path@, "Range"@) && fields@.len() == 2 {
            Some(bare_local(fields@[0]))
        } else {
            None
        },
        _ => None,
    }
}

/// `o` is a bare local resolving to the induction variable.
pub open spec fn iv_operand(o: Operand, m: Map<usize, usize>, i_root: usize) -> bool {
    match bare_local(o) {
        Some(l) => is_iv(m, i_root, l),
        None => false,
    }
}

/// `t = i * d` (or `d * i`) into a bare local resolving as `start` does,
/// `i` the loop's induction variable: `d`.
pub open spec fn start_factor(s: StatementKind, m: Map<usize, usize>, i_root: usize, start: usize) -> Option<Operand> {
    match s {
        StatementKind::Assign(p2, Rvalue::BinaryOp(op, lhs, rhs)) => if p2.projection@.len() == 0 && alias_walk(m, p2.local, 16)
            == alias_walk(m, start, 16) && (op == BinOp::Mul || op == BinOp::MulUnchecked) {
            if iv_operand(lhs, m, i_root) {
                Some(rhs)
            } else if iv_operand(rhs, m, i_root) {
                Some(lhs)
            } else {
                None
            }
        } else {
            None
        },
        _ => None,
    }
}

pub open spec fn start_factor_f(m: Map<usize, usize>, i_root: usize, start: usize) -> spec_fn(StatementKind) -> Option<Operand> {
    |s: StatementKind| start_factor(s, m, i_root, start)
}

/// For a range statement, the last factor `d` of its start among `all`.
pub open spec fn range_factor(s: StatementKind, all: Seq<StatementKind>, m: Map<usize, usize>, i_root: usize, root: usize) -> Option<Operand> {
    match range_start(s, m, root) {
        Some(Some(st)) => last_some(all, start_factor_f(m, i_root, st)),
        _ => None,
    }
}

pub open spec fn range_factor_f(all: Seq<StatementKind>, m: Map<usize, usize>, i_root: usize, root: usize) -> spec_fn(StatementKind) -> Option<Operand> {
    |s: StatementKind| range_factor(s, all, m, i_root, root)
}

/// Some range statement into `root` has a start that is not a bare local.
pub open spec fn bad_range_start(ss: Seq<StatementKind>, m: Map<usize, usize>, root: usize) -> bool {
    exists|k: int| 0 <= k < ss.len() && #[trigger] range_start(ss[k], m, root) == Some(None::<usize>)
}

/// `(*y)[i] = v` with `v` a bare local resolving as `dest` does: `y`
/// resolved.
pub open spec fn y_store(s: StatementKind, m: Map<usize, usize>, i_root: usize, dest: usize) -> Option<usize> {
    match s {
        StatementKind::Assign(place, Rvalue::Use(op)) => if place.projection@.len() >= 2 && place.projection@[0]
            == ProjectionElem::Deref {
            match (place.projection@[1], bare_local(op)) {
                (ProjectionElem::Index(idx), Some(v)) => if is_iv(m, i_root, idx) && alias_walk(m, v, 16) == alias_walk(
                    m,
                    dest,
                    16,
                ) {
                    Some(alias_walk(m, place.local, 16))
                } else {
                    None
                },
                _ => None,
            }
        } else {
            None
        },
        _ => None,
    }
}

pub open spec fn y_store_f(m: Map<usize, usize>, i_root: usize, dest: usize) -> spec_fn(StatementKind) -> Option<usize> {
    |s: StatementKind| y_store(s, m, i_root, dest)
}

/// The successors of `succs` that lie in `blocks`, in order.
pub open spec fn succs_in(succs: Seq<usize>, blocks: Seq<usize>) -> Seq<usize>
    decreases succs.len(),
{
    if succs.len() == 0 {
        Seq::empty()
    } else {
        succs_in(succs.drop_last(), blocks) + if blocks.contains(succs.last()) {
            seq![succs.last()]
        } else {
            Seq::empty()
        }
    }
}

/// The depth-first walk from the call's return block through the loop's
/// blocks (a stack, taking the last pushed first, and the visited blocks):
/// the first visited block that stores the call's result at `y[i]` gives
/// `y` (its last such store).
pub open spec fn y_search(
    body: Body,
    blocks: Seq<usize>,
    m: Map<usize, usize>,
    i_root: usize,
    dest: usize,
    stack: Seq<usize>,
    visited: Seq<bool>,
) -> Option<usize>
    decreases count_false(visited), stack.len(),
{
    if stack.len() == 0 {
        None
    } else {
        let v = stack.last();
        let rest = stack.drop_last();
        if !blocks.contains(v) || v >= visited.len() || visited[v as int] {
            y_search(body, blocks, m, i_root, dest, rest, visited)
        } else {
            proof {
                crate::cfg::lemma_count_false_set(visited, v as int);
            }
            match last_some(stmts_of(body, v as int), y_store_f(m, i_root, dest)) {
                Some(y) => Some(y),
                None => y_search(
                    body,
                    blocks,
                    m,
                    i_root,
                    dest,
                    rest + succs_in(block_succs(body, v as int), blocks),
                    visited.update(v as int, true),
                ),
            }
        }
    }
}

/// No block visited yet.
pub open spec fn no_visits(n: nat) -> Seq<bool> {
    Seq::new(n, |i: int| false)
}

/// What the call in one block of the loop gives: nothing (look on), a
/// failure of the whole match, or a plan (entry, exit, y, x, w, the raw
/// `m` and the raw `d`).
pub enum DotOutcome {
    Skip,
    Abort,
    Found(usize, usize, usize, usize, usize, Operand, Operand),
}

/// The outcome of the call in block `bb` of the loop `outer`, whose range
/// shape is (`exit`, `i_root`) with aliases `m`.
pub open spec fn dot_outcome(body: Body, outer: SimpleLoop, bb: usize, c: DotCallee, exit: usize, i_root: usize) -> DotOutcome {
    let m = alias_map(body, outer.body@);
    match dot_call(body, bb as int, c) {
        None => DotOutcome::Skip,
        Some((a0, a1, dest, target)) => {
            let row = alias_walk(m, a0, 16);
            match first_index_call(body, outer.body@, m, row, 0) {
                None => DotOutcome::Skip,
                Some(cb) => {
                    let cargs = term_of(body, cb as int)->0->Call_args@;
                    match (bare_local(cargs[0]), bare_local(cargs[1])) {
                        (Some(xa), Some(ra)) => {
                            let ss = stmts_of(body, cb as int);
                            let root = alias_walk(m, ra, 16);
                            if bad_range_start(ss, m, root) {
                                DotOutcome::Abort
                            } else {
                                match last_some(ss, range_factor_f(ss, m, i_root, root)) {
                                    None => DotOutcome::Abort,
                                    Some(d_raw) => {
                                        let x = alias_walk(m, xa, 16);
                                        let w = alias_walk(m, a1, 16);
                                        let vis = no_visits(body.num_blocks());
                                        match y_search(body, outer.body@, m, i_root, dest, seq![target], vis) {
                                            None => DotOutcome::Abort,
                                            Some(y) => if ref_slice_float(local_ty(body, y), true) != Some(FloatTy::F64)
                                                || ref_slice_float(local_ty(body, x), false) != Some(FloatTy::F64)
                                                || ref_slice_float(local_ty(body, w), false) != Some(FloatTy::F64) || y
                                                == x || y == w || x == w {
                                                DotOutcome::Skip
                                            } else {
                                                let preds = entry_preds(body, outer.header, outer.body@, body.num_blocks());
                                                if preds.len() != 1 {
                                                    DotOutcome::Abort
                                                } else {
                                                    let e = preds[0];
                                                    let pre = entry_preds(body, e, outer.body@, body.num_blocks());
                                                    if pre.len() != 1 {
                                                        DotOutcome::Abort
                                                    } else {
                                                        match last_some(stmts_of(body, pre[0] as int), range_end_f()) {
                                                            None => DotOutcome::Abort,
                                                            Some(m_raw) => DotOutcome::Found(e, exit, y, x, w, m_raw, d_raw),
                                                        }
                                                    }
                                                }
                                            },
                                        }
                                    },
                                }
                            }
                        },
                        _ => DotOutcome::Abort,
                    }
                },
            }
        },
    }
}

/// The first outcome other than `Skip` among the loop's blocks from
/// position `k` on (the header left out).
pub open spec fn first_outcome(
    body: Body,
    outer: SimpleLoop,
    callees: Seq<DotCallee>,
    exit: usize,
    i_root: usize,
    k: int,
) -> DotOutcome
    decreases outer.body@.len() - k,
{
    if k < 0 || k >= outer.body@.len() {
        DotOutcome::Skip
    } else {
        let bb = outer.body@[k];
        let o = if bb == outer.header {
            DotOutcome::Skip
        } else {
            dot_outcome(body, outer, bb, callees[bb as int], exit, i_root)
        };
        match o {
            DotOutcome::Skip => first_outcome(body, outer, callees, exit, i_root, k + 1),
            _ => o,
        }
    }
}

/// The plan of an outer dot-call loop: the range loop's shape, then the
/// first block of the loop (header left out) whose call decides.
pub open spec fn outer_dot_plan(body: Body, outer: SimpleLoop, callees: Seq<DotCallee>) -> DotOutcome {
    match range_loop_shape(body, outer.header, outer.body@) {
        None => DotOutcome::Abort,
        Some((_e, exit, i_root)) => first_outcome(body, outer, callees, exit, i_root, 0),
    }
}

// ── Exec forms ──────────────────────────────────────────────────────────

fn dot_signal_of(mir: &Body, b: usize) -> (r: bool)
    requires
        b < mir.num_blocks(),
    ensures
        r == dot_signal(*mir, b as int),
{
    let blk = &mir.basic_blocks[b];
    match &blk.terminator {
        Some(TerminatorKind::Call { func: Operand::Constant(Const::FnDef { path }), .. }) => {
            if contains_str(path.as_str(), "parallel_reduce_sum_slice_zip_mul") || contains_str(
                path.as_str(),
                "parallel_reduce_sum_slice_zip_map",
            ) {
                return true;
            }
        },
        _ => {},
    }
    let mut k: usize = 0;
    while k < blk.statements.len()
        invariant
            k <= blk.statements@.len(),
            b < mir.num_blocks(),
            *blk == mir.basic_blocks@[b as int],
            forall|j: int| 0 <= j < k ==> !#[trigger] is_mul_stmt(blk.statements@[j]),
        decreases blk.statements@.len() - k,
    {
        match &blk.statements[k] {
            StatementKind::Assign(_, Rvalue::BinaryOp(op, _, _)) => {
                if *op == BinOp::Mul || *op == BinOp::MulUnchecked {
                    assert(is_mul_stmt(blk.statements@[k as int]));
                    assert(stmts_of(*mir, b as int)[k as int] == blk.statements@[k as int]);
                    return true;
                }
            },
            _ => {},
        }
        k = k + 1;
    }
    false
}

/// Does the callee's body look like a dot product (see `looks_like_dot`)?
pub fn fn_body_looks_like_dot(c: &DotCallee) -> (r: bool)
    ensures
        r == looks_like_dot(*c),
{
    if !c.is_local {
        return false;
    }
    match &c.mir {
        None => false,
        Some(m) => {
            let mut b: usize = 0;
            while b < m.basic_blocks.len()
                invariant
                    b <= m.num_blocks(),
                    c.is_local,
                    c.mir == Some(*m),
                    forall|j: int| 0 <= j < b ==> !#[trigger] dot_signal(*m, j),
                decreases m.num_blocks() - b,
            {
                if dot_signal_of(m, b) {
                    assert(c.mir == Some(*m));
                    assert(0 <= b < m.num_blocks() && dot_signal(*m, b as int));
                    assert(c.mir->0 == *m);
                    assert(dot_signal(c.mir->0, b as int));
                    assert(looks_like_dot(*c));
                    return true;
                }
                b = b + 1;
            }
            false
        },
    }
}

fn excluded_callee_exec(p: &str) -> (r: bool)
    ensures
        r == excluded_callee(p@),
{
    contains_str(p, "Index") || contains_str(p, "Iterator") || contains_str(p, "parallel_runtime") || contains_str(
        p,
        "parallel_reduce",
    ) || contains_str(p, "parallel_invoke") || contains_str(p, "parallel_apply")
}

fn sig_ok_exec(s: &Option<FnSigFacts>) -> (r: bool)
    ensures
        r == sig_ok(*s),
{
    match s {
        None => false,
        Some(f) => f.inputs.len() >= 2 && f.output == LocalTy::Scalar(ScalarTy::F64) && ref_slice_float_ty(
            f.inputs[0],
            false,
        ) == Some(FloatTy::F64) && ref_slice_float_ty(f.inputs[1], false) == Some(FloatTy::F64),
    }
}

fn dot_call_of(body: &Body, bb: usize, c: &DotCallee) -> (r: Option<(usize, usize, usize, usize)>)
    requires
        bb < body.num_blocks(),
    ensures
        r == dot_call(*body, bb as int, *c),
{
    match &body.basic_blocks[bb].terminator {
        Some(TerminatorKind::Call { func: Operand::Constant(Const::FnDef { path }), args, destination, target: Some(t), .. }) => {
            if c.is_local && !excluded_callee_exec(path.as_str()) && sig_ok_exec(&c.sig) && fn_body_looks_like_dot(c)
                && args.len() >= 2 {
                match (bare_local_exec(&args[0]), bare_local_exec(&args[1])) {
                    (Some(a0), Some(a1)) => Some((a0, a1, destination.local, *t)),
                    _ => None,
                }
            } else {
                None
            }
        },
        _ => None,
    }
}

fn is_index_call_of(body: &Body, b: usize, m: &BTreeMap<usize, usize>, row: usize) -> (r: bool)
    requires
        b < body.num_blocks(),
    ensures
        r == is_index_call(*body, b as int, m@, row),
{
    match &body.basic_blocks[b].terminator {
        Some(TerminatorKind::Call { func, args, destination, .. }) => {
            if destination.projection.len() != 0 || LoopShape::resolve(m, destination.local) != row {
                return false;
            }
            match func {
                Operand::Constant(Const::FnDef { path }) => contains_str(path.as_str(), "Index") && ends_with_str(
                    path.as_str(),
                    "::index",
                ) && args.len() == 2,
                _ => false,
            }
        },
        _ => false,
    }
}

fn first_index_call_of(body: &Body, blocks: &Vec<usize>, m: &BTreeMap<usize, usize>, row: usize) -> (r: Option<usize>)
    requires
        loop_ok(*body, blocks@),
    ensures
        r == first_index_call(*body, blocks@, m@, row, 0),
{
    let mut k: usize = 0;
    while k < blocks.len()
        invariant
            k <= blocks@.len(),
            loop_ok(*body, blocks@),
            first_index_call(*body, blocks@, m@, row, 0) == first_index_call(*body, blocks@, m@, row, k as int),
        decreases blocks@.len() - k,
    {
        if is_index_call_of(body, blocks[k], m, row) {
            return Some(blocks[k]);
        }
        k = k + 1;
    }
    None
}

fn range_start_of(s: &StatementKind, m: &BTreeMap<usize, usize>, root: usize) -> (r: Option<Option<usize>>)
    ensures
        r == range_start(*s, m@, root),
{
    match s {
        StatementKind::Assign(place, Rvalue::Aggregate(AggregateKind::Adt { path, .. }, fields)) => {
            if place.projection.len() == 0 && LoopShape::resolve(m, place.local) == root && ends_with_str(
                path.as_str(),
                "Range",
            ) && fields.len() == 2 {
                Some(bare_local_exec(&fields[0]))
            } else {
                None
            }
        },
        _ => None,
    }
}

fn iv_operand_of(o: &Operand, m: &BTreeMap<usize, usize>, i_root: usize) -> (r: bool)
    ensures
        r == iv_operand(*o, m@, i_root),
{
    match bare_local_exec(o) {
        Some(l) => is_iv_exec(m, i_root, l),
        None => false,
    }
}

fn start_factor_of<'a>(s: &'a StatementKind, m: &BTreeMap<usize, usize>, i_root: usize, start: usize) -> (r: Option<&'a Operand>)
    ensures
        match r {
            None => start_factor(*s, m@, i_root, start) is None,
            Some(o) => start_factor(*s, m@, i_root, start) == Some(*o),
        },
{
    match s {
        StatementKind::Assign(p2, Rvalue::BinaryOp(op, lhs, rhs)) => {
            if p2.projection.len() == 0 && LoopShape::resolve(m, p2.local) == LoopShape::resolve(m, start) && (*op
                == BinOp::Mul || *op == BinOp::MulUnchecked) {
                if iv_operand_of(lhs, m, i_root) {
                    Some(rhs)
                } else if iv_operand_of(rhs, m, i_root) {
                    Some(lhs)
                } else {
                    None
                }
            } else {
                None
            }
        },
        _ => None,
    }
}

fn last_start_factor<'a>(ss: &'a Vec<StatementKind>, m: &BTreeMap<usize, usize>, i_root: usize, start: usize) -> (r: Option<&'a Operand>)
    ensures
        match r {
            None => last_some(ss@, start_factor_f(m@, i_root, start)) is None,
            Some(o) => last_some(ss@, start_factor_f(m@, i_root, start)) == Some(*o),
        },
{
    let mut j: usize = ss.len();
    assert(ss@.take(j as int) =~= ss@);
    while j > 0
        invariant
            j <= ss@.len(),
            last_some(ss@, start_factor_f(m@, i_root, start)) == last_some(ss@.take(j as int), start_factor_f(m@, i_root, start)),
        decreases j,
    {
        proof {
            crate::apply_loops::lemma_prefix_step(ss@, j - 1);
        }
        match start_factor_of(&ss[j - 1], m, i_root, start) {
            Some(x) => {
                return Some(x);
            },
            None => {},
        }
        j = j - 1;
    }
    None
}

fn last_range_factor<'a>(ss: &'a Vec<StatementKind>, m: &BTreeMap<usize, usize>, i_root: usize, root: usize) -> (r: Option<&'a Operand>)
    ensures
        match r {
            None => last_some(ss@, range_factor_f(ss@, m@, i_root, root)) is None,
            Some(o) => last_some(ss@, range_factor_f(ss@, m@, i_root, root)) == Some(*o),
        },
{
    let ghost f = range_factor_f(ss@, m@, i_root, root);
    let mut j: usize = ss.len();
    assert(ss@.take(j as int) =~= ss@);
    while j > 0
        invariant
            j <= ss@.len(),
            f == range_factor_f(ss@, m@, i_root, root),
            last_some(ss@, f) == last_some(ss@.take(j as int), f),
        decreases j,
    {
        proof {
            crate::apply_loops::lemma_prefix_step(ss@, j - 1);
        }
        match range_start_of(&ss[j - 1], m, root) {
            Some(Some(st)) => match last_start_factor(ss, m, i_root, st) {
                Some(x) => {
                    return Some(x);
                },
                None => {},
            },
            _ => {},
        }
        j = j - 1;
    }
    None
}

fn bad_range_start_of(ss: &Vec<StatementKind>, m: &BTreeMap<usize, usize>, root: usize) -> (r: bool)
    ensures
        r == bad_range_start(ss@, m@, root),
{
    let mut k: usize = 0;
    while k < ss.len()
        invariant
            k <= ss@.len(),
            forall|j: int| 0 <= j < k ==> #[trigger] range_start(ss@[j], m@, root) != Some(None::<usize>),
        decreases ss@.len() - k,
    {
        if range_start_of(&ss[k], m, root) == Some(None::<usize>) {
            return true;
        }
        k = k + 1;
    }
    false
}

fn y_store_of(s: &StatementKind, m: &BTreeMap<usize, usize>, i_root: usize, dest: usize) -> (r: Option<usize>)
    ensures
        r == y_store(*s, m@, i_root, dest),
{
    match s {
        StatementKind::Assign(place, Rvalue::Use(op)) => {
            if place.projection.len() >= 2 && place.projection[0] == ProjectionElem::Deref {
                match (place.projection[1], bare_local_exec(op)) {
                    (ProjectionElem::Index(idx), Some(v)) => {
                        if is_iv_exec(m, i_root, idx) && LoopShape::resolve(m, v) == LoopShape::resolve(m, dest) {
                            Some(LoopShape::resolve(m, place.local))
                        } else {
                            None
                        }
                    },
                    _ => None,
                }
            } else {
                None
            }
        },
        _ => None,
    }
}

fn last_y_store(ss: &Vec<StatementKind>, m: &BTreeMap<usize, usize>, i_root: usize, dest: usize) -> (r: Option<usize>)
    ensures
        r == last_some(ss@, y_store_f(m@, i_root, dest)),
{
    let mut j: usize = ss.len();
    assert(ss@.take(j as int) =~= ss@);
    while j > 0
        invariant
            j <= ss@.len(),
            last_some(ss@, y_store_f(m@, i_root, dest)) == last_some(ss@.take(j as int), y_store_f(m@, i_root, dest)),
        decreases j,
    {
        proof {
            crate::apply_loops::lemma_prefix_step(ss@, j - 1);
        }
        match y_store_of(&ss[j - 1], m, i_root, dest) {
            Some(x) => {
                return Some(x);
            },
            None => {},
        }
        j = j - 1;
    }
    None
}

fn succs_in_of(succs: &Vec<usize>, blocks: &Vec<usize>) -> (r: Vec<usize>)
    ensures
        r@ == succs_in(succs@, blocks@),
{
    let mut r: Vec<usize> = Vec::new();
    let mut k: usize = 0;
    while k < succs.len()
        invariant
            k <= succs@.len(),
            r@ == succs_in(succs@.take(k as int), blocks@),
        decreases succs@.len() - k,
    {
        proof {
            crate::apply_loops::lemma_prefix_step(succs@, k as int);
        }
        if contains_usize(blocks, succs[k]) {
            r.push(succs[k]);
        }
        k = k + 1;
        proof {
            assert(r@ =~= succs_in(succs@.take(k as int), blocks@));
        }
    }
    assert(succs@.take(k as int) =~= succs@);
    r
}

fn y_search_of(
    body: &Body,
    blocks: &Vec<usize>,
    m: &BTreeMap<usize, usize>,
    i_root: usize,
    dest: usize,
    start: usize,
) -> (r: Option<usize>)
    requires
        body.all_terminated(),
    ensures
        r == y_search(*body, blocks@, m@, i_root, dest, seq![start], no_visits(body.num_blocks())),
{
    let mut visited: Vec<bool> = Vec::new();
    let mut i: usize = 0;
    while i < body.basic_blocks.len()
        invariant
            i <= body.num_blocks(),
            visited@ == no_visits(i as nat),
        decreases body.num_blocks() - i,
    {
        visited.push(false);
        i = i + 1;
        proof {
            assert(visited@ =~= no_visits(i as nat));
        }
    }
    let mut stack: Vec<usize> = Vec::new();
    stack.push(start);
    assert(stack@ =~= seq![start]);
    let ghost goal = y_search(*body, blocks@, m@, i_root, dest, seq![start], no_visits(body.num_blocks()));
    while stack.len() > 0
        invariant
            visited@.len() == body.num_blocks(),
            body.all_terminated(),
            goal == y_search(*body, blocks@, m@, i_root, dest, stack@, visited@),
            goal == y_search(*body, blocks@, m@, i_root, dest, seq![start], no_visits(body.num_blocks())),
        decreases count_false(visited@), stack@.len(),
    {
        let ghost st = stack@;
        let v = stack.pop().unwrap();
        assert(st.drop_last() =~= stack@);
        assert(st.last() == v);
        assert(goal == y_search(*body, blocks@, m@, i_root, dest, st, visited@));
        if !contains_usize(blocks, v) || v >= visited.len() || visited[v] {
            continue;
        }
        proof {
            crate::cfg::lemma_count_false_set(visited@, v as int);
        }
        assert(stmts_of(*body, v as int) == body.basic_blocks@[v as int].statements@);
        match last_y_store(&body.basic_blocks[v].statements, m, i_root, dest) {
            Some(y) => {
                assert(blocks@.contains(v) && v < visited@.len() && !visited@[v as int]);
                assert(last_some(stmts_of(*body, v as int), y_store_f(m@, i_root, dest)) == Some(y));
                assert(y_search(*body, blocks@, m@, i_root, dest, st, visited@) == Some(y));
                return Some(y);
            },
            None => {},
        }
        visited.set(v, true);
        let succs = match &body.basic_blocks[v].terminator {
            Some(k) => crate::detect::terminator_successors(k),
            None => Vec::new(),
        };
        let more = succs_in_of(&succs, blocks);
        let mut t: usize = 0;
        let ghost base = stack@;
        while t < more.len()
            invariant
                t <= more@.len(),
                stack@ == base + more@.take(t as int),
            decreases more@.len() - t,
        {
            stack.push(more[t]);
            t = t + 1;
            proof {
                assert(stack@ =~= base + more@.take(t as int));
            }
        }
        proof {
            assert(more@.take(t as int) =~= more@);
            assert(block_succs(*body, v as int) == succs@);
        }
    }
    None
}

/// An outer dot-call loop to hand to the matvec helper.
#[derive(Debug)]
pub struct OuterDotCallPlan {
    pub outer_entry_bb: usize,
    pub outer_exit_bb: usize,
    pub y_local: usize,
    pub x_local: usize,
    pub w_local: usize,
    /// The outer range's end, the number of rows.
    pub m_op: Operand,
    /// The row length `d` of `x[i * d..]`.
    pub d_op: Operand,
    pub fty: FloatTy,
}

/// Plan `p` is the outcome `o`, its operands resolved through `m`.
pub open spec fn plan_is(p: OuterDotCallPlan, o: DotOutcome, m: Map<usize, usize>) -> bool {
    match o {
        DotOutcome::Found(e, ex, y, x, w, mr, dr) => {
            &&& p.outer_entry_bb == e
            &&& p.outer_exit_bb == ex
            &&& p.y_local == y
            &&& p.x_local == x
            &&& p.w_local == w
            &&& resolved_as(p.m_op, mr, m)
            &&& resolved_as(p.d_op, dr, m)
            &&& p.fty == FloatTy::F64
        },
        _ => false,
    }
}

proof fn lemma_first_outcome_blocks(body: Body, outer: SimpleLoop, callees: Seq<DotCallee>, exit: usize, i_root: usize, k: int)
    ensures
        first_outcome(body, outer, callees, exit, i_root, k) matches DotOutcome::Found(e, ex, _, _, _, _, _) ==> ex
            == exit && entry_preds(body, outer.header, outer.body@, body.num_blocks()).len() == 1 && e == entry_preds(
            body,
            outer.header,
            outer.body@,
            body.num_blocks(),
        )[0],
    decreases outer.body@.len() - k,
{
    if 0 <= k < outer.body@.len() {
        lemma_first_outcome_blocks(body, outer, callees, exit, i_root, k + 1);
    }
}

proof fn lemma_first_index_call(body: Body, blocks: Seq<usize>, m: Map<usize, usize>, row: usize, k: int)
    ensures
        first_index_call(body, blocks, m, row, k) matches Some(cb) ==> is_index_call(body, cb as int, m, row)
            && blocks.contains(cb),
    decreases blocks.len() - k,
{
    if 0 <= k < blocks.len() && !is_index_call(body, blocks[k] as int, m, row) {
        lemma_first_index_call(body, blocks, m, row, k + 1);
    }
}

/// The outcome of the call in block `bb` (see `dot_outcome`): whether it
/// decides, and the plan it gives.
fn outcome_of(
    body: &Body,
    outer: &SimpleLoop,
    bb: usize,
    c: &DotCallee,
    m: &BTreeMap<usize, usize>,
    exit: usize,
    i_root: usize,
) -> (r: (bool, Option<OuterDotCallPlan>))
    requires
        body.targets_valid(),
        body.all_terminated(),
        loop_ok(*body, outer.body@),
        bb < body.num_blocks(),
        m@ == alias_map(*body, outer.body@),
    ensures
        match dot_outcome(*body, *outer, bb, *c, exit, i_root) {
            DotOutcome::Skip => !r.0,
            DotOutcome::Abort => r.0 && r.1 is None,
            DotOutcome::Found(..) => r.0 && (r.1 matches Some(p) && plan_is(
                p,
                dot_outcome(*body, *outer, bb, *c, exit, i_root),
                m@,
            )),
        },
{
    let (a0, a1, dest, target) = match dot_call_of(body, bb, c) {
        None => {
            return (false, None);
        },
        Some(t) => t,
    };
    let row = LoopShape::resolve(m, a0);
    let cb = match first_index_call_of(body, &outer.body, m, row) {
        None => {
            return (false, None);
        },
        Some(cb) => cb,
    };
    proof {
        lemma_first_index_call(*body, outer.body@, m@, row, 0);
        let j = choose|j: int| 0 <= j < outer.body@.len() && outer.body@[j] == cb;
        assert(outer.body@[j] < body.num_blocks());
    }
    let cargs = match &body.basic_blocks[cb].terminator {
        Some(TerminatorKind::Call { args, .. }) => args,
        _ => {
            proof {
                assert(false);
            }
            return (true, None);
        },
    };
    let (xa, ra) = match (bare_local_exec(&cargs[0]), bare_local_exec(&cargs[1])) {
        (Some(xa), Some(ra)) => (xa, ra),
        _ => {
            return (true, None);
        },
    };
    let ss = &body.basic_blocks[cb].statements;
    let root = LoopShape::resolve(m, ra);
    if bad_range_start_of(ss, m, root) {
        return (true, None);
    }
    let d_raw = match last_range_factor(ss, m, i_root, root) {
        None => {
            return (true, None);
        },
        Some(d) => d,
    };
    let x = LoopShape::resolve(m, xa);
    let w = LoopShape::resolve(m, a1);
    let y = match y_search_of(body, &outer.body, m, i_root, dest, target) {
        None => {
            return (true, None);
        },
        Some(y) => y,
    };
    if ref_slice_float_ty(local_ty_of(body, y), true) != Some(FloatTy::F64) || ref_slice_float_ty(local_ty_of(body, x), false)
        != Some(FloatTy::F64) || ref_slice_float_ty(local_ty_of(body, w), false) != Some(FloatTy::F64) || y == x || y
        == w || x == w {
        return (false, None);
    }
    let e = match unique_entry_pred(body, outer, outer.header) {
        Some(e) => e,
        None => {
            return (true, None);
        },
    };
    proof {
        lemma_entry_preds_bounded(*body, outer.header, outer.body@, body.num_blocks());
    }
    let pre = match unique_entry_pred(body, outer, e) {
        Some(p) => p,
        None => {
            return (true, None);
        },
    };
    proof {
        lemma_entry_preds_bounded(*body, e, outer.body@, body.num_blocks());
    }
    let m_raw = match last_range_end(&body.basic_blocks[pre].statements) {
        Some(o) => o,
        None => {
            return (true, None);
        },
    };
    (
        true,
        Some(
            OuterDotCallPlan {
                outer_entry_bb: e,
                outer_exit_bb: exit,
                y_local: y,
                x_local: x,
                w_local: w,
                m_op: resolve_operand(m_raw, m),
                d_op: resolve_operand(d_raw, m),
                fty: FloatTy::F64,
            },
        ),
    )
}

/// Matches a range loop that calls a dot-product function of the crate on
/// a row `&x[i * d..]` and `w` and stores the result at `y[i]` (see
/// `outer_dot_plan`); `callees` gives, per block, what the compiler says of
/// the block's callee.
pub fn analyze_outer_dot_call_loop(body: &Body, outer: &SimpleLoop, callees: &Vec<DotCallee>) -> (r: Option<OuterDotCallPlan>)
    requires
        body.targets_valid(),
        body.all_terminated(),
        loop_ok(*body, outer.body@),
        outer.header < body.num_blocks(),
        callees@.len() == body.num_blocks(),
    ensures
        match r {
            None => !(outer_dot_plan(*body, *outer, callees@) is Found),
            Some(p) => plan_is(p, outer_dot_plan(*body, *outer, callees@), alias_map(*body, outer.body@)),
        },
{
    let shape = match detect_range_loop_shape(body, outer) {
        Some(s) => s,
        None => {
            return None;
        },
    };
    let m = &shape.alias_root;
    let exit = shape.exit_bb;
    let i_root = shape.i_root;
    let ghost goal = outer_dot_plan(*body, *outer, callees@);
    let mut k: usize = 0;
    while k < outer.body.len()
        invariant
            k <= outer.body@.len(),
            body.targets_valid(),
            body.all_terminated(),
            loop_ok(*body, outer.body@),
            callees@.len() == body.num_blocks(),
            m@ == alias_map(*body, outer.body@),
            goal == first_outcome(*body, *outer, callees@, exit, i_root, k as int),
            goal == outer_dot_plan(*body, *outer, callees@),
        decreases outer.body@.len() - k,
    {
        let bb = outer.body[k];
        if bb != outer.header {
            let (decided, plan) = outcome_of(body, outer, bb, &callees[bb], m, exit, i_root);
            if decided {
                return plan;
            }
        }
        k = k + 1;
    }
    None
}

/// The replacement of an outer dot-call loop: the matvec helper gets the
/// re-borrowed `y`, copies of `x` and `w`, then `m` and `d`.
pub open spec fn dot_call_ok(c: LoopCallView, o: DotOutcome, m: Map<usize, usize>) -> bool {
    match o {
        DotOutcome::Found(e, ex, y, x, w, mr, dr) => {
            &&& c.0 == e
            &&& c.1 == ex
            &&& c.2 == "parallel_runtime_parallel_matvec_f64"@
            &&& c.3 == dst_borrow(y)
            &&& c.4.len() == 5
            &&& c.4[0] == CallArg::Temp(0)
            &&& c.4[1] == CallArg::Copy(x)
            &&& c.4[2] == CallArg::Copy(w)
            &&& op_arg(c.4[3], mr, m)
            &&& op_arg(c.4[4], dr, m)
        },
        _ => false,
    }
}

/// The positions of the first `n` loops whose plan is found, in order.
pub open spec fn dot_found(body: Body, loops: Seq<SimpleLoop>, callees: Seq<DotCallee>, n: nat) -> Seq<int>
    decreases n,
{
    if n == 0 {
        Seq::empty()
    } else {
        let prev = dot_found(body, loops, callees, (n - 1) as nat);
        if outer_dot_plan(body, loops[n - 1], callees) is Found {
            prev.push(n - 1)
        } else {
            prev
        }
    }
}

/// `cs` are the replacements of the loops of `loops` whose plan is found.
pub open spec fn dot_calls_ok(body: Body, loops: Seq<SimpleLoop>, callees: Seq<DotCallee>, cs: Seq<LoopCallView>) -> bool {
    let f = dot_found(body, loops, callees, loops.len());
    &&& cs.len() == f.len()
    &&& forall|t: int|
        0 <= t < cs.len() ==> #[trigger] dot_call_ok(
            cs[t],
            outer_dot_plan(body, loops[f[t]], callees),
            alias_map(body, loops[f[t]].body@),
        )
}

/// The outcome of the outer dot-call rewrite.
pub open spec fn dot_rewrite_outcome(
    b0: Body,
    b1: Body,
    loops: Seq<SimpleLoop>,
    callees: Seq<DotCallee>,
    cs: Seq<LoopCallView>,
    available: Seq<String>,
    n: nat,
) -> bool {
    &&& crate::nested_idioms::loops_of(loops, b0)
    &&& dot_calls_ok(b0, loops, callees, cs)
    &&& crate::nested_idioms::nested_applied(b0, b1, cs, available, n)
}

/// Bodies the outer dot-call rewrite leaves alone.
pub open spec fn dot_gate_refuses(body: Body, g: LoopIdiomGates) -> bool {
    ||| !g.enabled
    ||| sysroot_crate(g.crate_name@)
    ||| contains_text(g.fn_name@, "parallel_runtime"@)
    ||| contains_text(g.fn_name@, "parallel_matvec"@)
    ||| contains_text(g.fn_name@, "parallel_invoke"@)
    ||| contains_text(g.fn_name@, "predict_dot"@)
    ||| !g.float_opt_in
    ||| quick_skip(body, 4, true, g.inline_always_or_naked)
    ||| !helper_listed(g.available_helpers@, "parallel_runtime_parallel_matvec_f64"@)
}

/// Replaces the outer dot-call loops of a body by calls of the matvec
/// helper and returns how many were replaced.
pub fn try_transform_outer_dot_call_matvec_f64(body: &mut Body, gates: &LoopIdiomGates, callees: &Vec<DotCallee>) -> (n: usize)
    requires
        old(body).targets_valid(),
        old(body).all_terminated(),
        callees@.len() == old(body).num_blocks(),
    ensures
        dot_gate_refuses(*old(body), *gates) ==> n == 0 && *final(body) == *old(body),
        !dot_gate_refuses(*old(body), *gates) ==> exists|loops: Seq<SimpleLoop>, cs: Seq<LoopCallView>|
            #[trigger] dot_rewrite_outcome(*old(body), *final(body), loops, callees@, cs, gates.available_helpers@, n as nat),
        final(body).targets_valid(),
        final(body).all_terminated(),
{
    let f = gates.fn_name.as_str();
    if !gates.enabled || is_in_sysroot_crate(gates.crate_name.as_str()) || contains_str(f, "parallel_runtime")
        || contains_str(f, "parallel_matvec") || contains_str(f, "parallel_invoke") || contains_str(f, "predict_dot")
        || !gates.float_opt_in || parallel_pass_quick_skip(body, 4, true, gates.inline_always_or_naked)
        || !helper_available(&gates.available_helpers, "parallel_runtime_parallel_matvec_f64") {
        return 0;
    }
    let ghost src = *body;
    let ghost ls = loops_spec(src);
    let loops = find_simple_loops(body);
    proof {
        lemma_loops_in_range(src);
        assert forall|j: int| 0 <= j < loops@.len() implies loop_ok(src, (#[trigger] loops@[j]).body@)
            && loops@[j].header < src.num_blocks() by {
            assert(ls[j].0 < ls[j].1 < src.num_blocks());
        }
        assert(crate::nested_idioms::loops_of(loops@, src));
    }
    let mut calls: Vec<LoopCall> = Vec::new();
    let mut i: usize = 0;
    while i < loops.len()
        invariant
            *body == src,
            src.targets_valid(),
            src.all_terminated(),
            callees@.len() == src.num_blocks(),
            i <= loops@.len(),
            forall|j: int| 0 <= j < loops@.len() ==> loop_ok(src, (#[trigger] loops@[j]).body@) && loops@[j].header < src.num_blocks(),
            calls@.len() == dot_found(src, loops@, callees@, i as nat).len(),
            forall|t: int|
                0 <= t < calls@.len() ==> dot_call_ok(
                    (#[trigger] calls@[t]).view_tuple(),
                    outer_dot_plan(src, loops@[dot_found(src, loops@, callees@, i as nat)[t]], callees@),
                    alias_map(src, loops@[dot_found(src, loops@, callees@, i as nat)[t]].body@),
                ) && calls@[t].entry_bb < src.num_blocks() && calls@[t].exit_bb < src.num_blocks() && temps_ok(
                    calls@[t].view_tuple(),
                ),
        decreases loops@.len() - i,
    {
        let ghost prev = calls@;
        let lp = &loops[i];
        proof {
            lemma_shape_entry(src, lp.header, lp.body@);
            lemma_entry_preds_bounded(src, lp.header, lp.body@, src.num_blocks());
        }
        match analyze_outer_dot_call_loop(body, lp, callees) {
            Some(p) => {
                let ghost mo = p.m_op;
                let ghost dop = p.d_op;
                let ghost pv = p;
                let mut c = borrow_call(
                    p.outer_entry_bb,
                    p.outer_exit_bb,
                    "parallel_runtime_parallel_matvec_f64",
                    p.y_local,
                    vec![p.x_local, p.w_local],
                );
                c.args.push(CallArg::Op(p.m_op));
                c.args.push(CallArg::Op(p.d_op));
                proof {
                    let o = outer_dot_plan(src, *lp, callees@);
                    let am = alias_map(src, lp.body@);
                    match range_loop_shape(src, lp.header, lp.body@) {
                        Some((_e, ex, ir)) => lemma_first_outcome_blocks(src, *lp, callees@, ex, ir, 0),
                        None => {},
                    }
                    assert(c.entry_bb < src.num_blocks() && c.exit_bb < src.num_blocks());
                    assert(plan_is(pv, o, am));
                    assert(c.args@.len() == 5);
                    assert(c.args@[3] == CallArg::Op(mo));
                    assert(c.args@[4] == CallArg::Op(dop));
                    assert(c.args@[1] == CallArg::Copy(pv.x_local));
                    assert(c.args@[2] == CallArg::Copy(pv.w_local));
                    assert(dot_call_ok(c.view_tuple(), o, am));
                    assert(temps_ok(c.view_tuple()));
                }
                calls.push(c);
            },
            None => {},
        }
        proof {
            let f1 = dot_found(src, loops@, callees@, (i + 1) as nat);
            let f0 = dot_found(src, loops@, callees@, i as nat);
            assert forall|t: int|
                0 <= t < calls@.len() implies dot_call_ok(
                (#[trigger] calls@[t]).view_tuple(),
                outer_dot_plan(src, loops@[f1[t]], callees@),
                alias_map(src, loops@[f1[t]].body@),
            ) && calls@[t].entry_bb < src.num_blocks() && calls@[t].exit_bb < src.num_blocks() && temps_ok(
                calls@[t].view_tuple(),
            ) by {
                if t < prev.len() {
                    assert(calls@[t] == prev[t]);
                    assert(f1[t] == f0[t]);
                } else {
                    assert(f1[t] == i);
                }
            }
        }
        i = i + 1;
    }
    let ghost all = calls@;
    let ghost cs = all.map_values(|c: LoopCall| c.view_tuple());
    proof {
        assert(dot_calls_ok(src, loops@, callees@, cs));
    }
    let ghost mut bodies: Seq<Body> = seq![src];
    let ghost mut q: int = 0;
    let mut count: usize = 0;
    assert(calls@.len() == calls.len());
    while calls.len() > 0
        invariant
            0 <= q <= cs.len(),
            all.len() == cs.len(),
            all.len() <= usize::MAX,
            calls@ == all.skip(q),
            forall|j: int|
                0 <= j < all.len() ==> (#[trigger] all[j]).view_tuple() == cs[j] && all[j].entry_bb < src.num_blocks()
                    && all[j].exit_bb < src.num_blocks() && temps_ok(all[j].view_tuple()),
            bodies.len() == q + 1,
            bodies[0] == src,
            bodies.last() == *body,
            forall|j: int| 0 <= j < q ==> #[trigger] nested_step(bodies[j], bodies[j + 1], cs[j], gates.available_helpers@),
            count == idiom_count(bodies, cs, gates.available_helpers@, q as nat),
            count <= q,
            body.num_blocks() >= src.num_blocks(),
            body.targets_valid(),
            body.all_terminated(),
        decreases calls@.len(),
    {
        let c = calls.remove(0);
        let ghost mid = *body;
        assert(c == all[q]);
        let ghost cv = c.view_tuple();
        assert(cv == cs[q] && c.entry_bb < src.num_blocks() && c.exit_bb < src.num_blocks() && temps_ok(cv));
        let listed = helper_available(&gates.available_helpers, c.helper.as_str());
        let mut did = false;
        if listed {
            did = apply_loop_call(body, c);
        }
        if did {
            count = count + 1;
        }
        proof {
            if listed {
                lemma_loop_call_keeps_targets(mid, *body, cv);
            }
            let nb = bodies.push(*body);
            assert forall|j: int| 0 <= j < q + 1 implies #[trigger] nested_step(
                nb[j],
                nb[j + 1],
                cs[j],
                gates.available_helpers@,
            ) by {
                if j < q {
                    assert(nb[j] == bodies[j] && nb[j + 1] == bodies[j + 1]);
                } else {
                    assert(nb[j] == mid && nb[j + 1] == *body);
                }
            }
            crate::loop_idioms::lemma_count_prefix(bodies, nb, cs, gates.available_helpers@, q as nat);
            assert(nb[q] == mid);
            bodies = nb;
            assert(calls@ =~= all.skip(q + 1));
            q = q + 1;
        }
    }
    proof {
        assert(crate::nested_idioms::nested_applied(src, *body, cs, gates.available_helpers@, count as nat));
        assert(dot_rewrite_outcome(src, *body, loops@, callees@, cs, gates.available_helpers@, count as nat));
    }
    count
}

} // verus!
