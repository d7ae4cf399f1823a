//! Nested range loops over a row-major `m x n` grid indexed `i * n + j`:
//! the row sums `out[i] = sum_j a[i*n+j]` (axis reduce), the row-wise
//! broadcast `a[i*n+j] += b[j]`, and the transpose `b[j*m+i] = a[i*n+j]`.
use vstd::prelude::*;
use std::collections::BTreeMap;
use crate::mir::{Body, StatementKind, TerminatorKind, Operand, Rvalue, BinOp, ProjectionElem, local_ty, local_ty_of};
use crate::idioms::FloatTy;
use crate::detect::{SimpleLoop, loop_ok, stmts_of, contains_usize};
use crate::shape::{alias_walk, alias_map, range_loop_shape, detect_range_loop_shape, LoopShape, bare_local, entry_preds, unique_entry_pred};
use crate::axpy::{body_stmts, op_place, ref_slice_float, ref_slice_float_ty, bare_local_exec};
use crate::apply_loops::loop_stmts;
use crate::matvec::{
    first_some, last_some, is_iv, mul_by_i_f, add_j_f, read_at_idx_f, acc_update_f, store_acc_f, zero_f64_f,
    range_end_f, range_end, outer_only_stmts, outer_some_arm, resolved_as, is_iv_exec, first_mul_by_i, first_add_j,
    first_read_at_idx, first_acc_update, first_store_acc, last_zero_f64, range_end_of, resolve_operand, outer_only_refs,
    outer_some_arm_of,
};

verus! {

/// The statements of the blocks, in index order, that lie outside the
/// outer loop, below block `b`.
pub open spec fn outside_stmts(body: Body, outer: Seq<usize>, b: nat) -> Seq<StatementKind>
    decreases b,
{
    if b == 0 {
        Seq::empty()
    } else {
        outside_stmts(body, outer, (b - 1) as nat) + if !outer.contains((b - 1) as usize) {
            stmts_of(body, b - 1)
        } else {
            Seq::empty()
        }
    }
}

/// The end of the last `Range` built outside the outer loop: `m`.
pub open spec fn outside_range_end(body: Body, outer: Seq<usize>) -> Option<Operand> {
    last_some(outside_stmts(body, outer, body.num_blocks()), range_end_f())
}

fn last_range_end_outside<'a>(body: &'a Body, outer: &SimpleLoop) -> (r: Option<&'a Operand>)
    ensures
        match r {
            None => outside_range_end(*body, outer.body@) is None,
            Some(o) => outside_range_end(*body, outer.body@) == Some(*o),
        },
{
    let mut b: usize = body.basic_blocks.len();
    while b > 0
        invariant
            b <= body.num_blocks(),
            outside_range_end(*body, outer.body@) == last_some(outside_stmts(*body, outer.body@, b as nat), range_end_f()),
        decreases b,
    {
        let bb = b - 1;
        let ghost prev = outside_stmts(*body, outer.body@, bb as nat);
        if !contains_usize(&outer.body, bb) {
            let stmts = &body.basic_blocks[bb].statements;
            let mut j: usize = stmts.len();
            proof {
                assert(outside_stmts(*body, outer.body@, b as nat) =~= prev + stmts@);
                assert(stmts@.take(j as int) =~= stmts@);
            }
            while j > 0
                invariant
                    j <= stmts@.len(),
                    stmts@ == stmts_of(*body, bb as int),
                    outside_range_end(*body, outer.body@) == last_some(prev + stmts@.take(j as int), range_end_f()),
                decreases j,
            {
                proof {
                    assert((prev + stmts@.take(j as int)).drop_last() =~= prev + stmts@.take(j - 1));
                    assert((prev + stmts@.take(j as int)).last() == stmts@[j - 1]);
                }
                match range_end_of(&stmts[j - 1]) {
                    Some(o) => {
                        return Some(o);
                    },
                    None => {},
                }
                j = j - 1;
            }
            proof {
                assert(prev + stmts@.take(0) =~= prev);
            }
        } else {
            proof {
                assert(outside_stmts(*body, outer.body@, b as nat) =~= prev);
            }
        }
        b = b - 1;
    }
    None
}

proof fn lemma_some_arm_bounded(body: Body, header: usize)
    requires
        body.targets_valid(),
        body.all_terminated(),
        header < body.num_blocks(),
    ensures
        outer_some_arm(body, header) matches Some(a) ==> a < body.num_blocks(),
{
    assert(crate::mir::terminator_targets_ok(body.basic_blocks@[header as int].terminator->0, body.num_blocks()));
    if let Some(TerminatorKind::Call { target: Some(post), .. }) = body.basic_blocks@[header as int].terminator {
        assert(crate::mir::terminator_targets_ok(body.basic_blocks@[post as int].terminator->0, body.num_blocks()));
        if let Some(TerminatorKind::SwitchInt { targets, .. }) = body.basic_blocks@[post as int].terminator {
            crate::shape::lemma_last_target_in(targets@, 1, body.num_blocks());
        }
    }
}

// ── Axis reduce ───────────────────────────────────────────────────────

/// The plan of a row-sum nest, with the operands for `m` and `n` as the
/// body holds them: (outer entry, outer exit, out, a, m, n, float type). As
/// for a matrix-vector product up to the read `va = a[i*n+j]`, then an
/// update `acc += va`, the store `out[i] = acc`, out a `&mut [f64]` and a a
/// float slice of its type other than out, and `m` the end of the last
/// `Range` built outside the outer loop.
pub open spec fn axis_reduce_plan(body: Body, outer: SimpleLoop, inner: SimpleLoop) -> Option<
    (usize, usize, usize, usize, Operand, Operand, FloatTy),
> {
    if outer.header == inner.header || !outer.body@.contains(inner.header) {
        None
    } else {
        match (range_loop_shape(body, outer.header, outer.body@), range_loop_shape(body, inner.header, inner.body@)) {
            (Some((_oe, oexit, oi)), Some((_ie, _iexit, ii))) => {
                let om = alias_map(body, outer.body@);
                let im = alias_map(body, inner.body@);
                let ss = body_stmts(body, inner.body@, inner.header);
                match outer_some_arm(body, outer.header) {
                    None => None,
                    Some(arm) => match last_some(stmts_of(body, arm as int), zero_f64_f(body)) {
                        None => None,
                        Some(acc) => match first_some(ss, mul_by_i_f(om, oi)) {
                            None => None,
                            Some((t_mul, n_raw)) => match first_some(ss, add_j_f(im, ii, t_mul)) {
                                None => None,
                                Some(t_idx) => match first_some(ss, read_at_idx_f(im, t_idx)) {
                                    None => None,
                                    Some((va, a)) => if first_some(ss, acc_update_f(om, im, acc, va)) is None {
                                        None
                                    } else {
                                        match first_some(
                                            outer_only_stmts(body, outer.body@, inner.body@, outer.header),
                                            store_acc_f(om, oi, acc),
                                        ) {
                                            None => None,
                                            Some(out) => if ref_slice_float(local_ty(body, out), true) != Some(FloatTy::F64)
                                                || ref_slice_float(local_ty(body, a), false) != Some(FloatTy::F64) || out
                                                == a {
                                                None
                                            } else {
                                                let preds = entry_preds(body, outer.header, outer.body@, body.num_blocks());
                                                if preds.len() != 1 {
                                                    None
                                                } else {
                                                    match outside_range_end(body, outer.body@) {
                                                        None => None,
                                                        Some(m_raw) => Some(
                                                            (preds[0], oexit, out, a, m_raw, n_raw, FloatTy::F64),
                                                        ),
                                                    }
                                                }
                                            },
                                        }
                                    },
                                },
                            },
                        },
                    },
                }
            },
            _ => None,
        }
    }
}

/// A row-sum nest to hand to a helper.
#[derive(Debug)]
pub struct AxisReducePlan {
    pub outer_entry_bb: usize,
    pub outer_exit_bb: usize,
    pub out_local: usize,
    pub a_local: usize,
    pub m_op: Operand,
    pub n_op: Operand,
    pub fty: FloatTy,
}

/// Matches a row-sum nest: `out[i] = sum_j a[i * n + j]`.
pub fn analyze_axis_reduce_loops(body: &Body, outer: &SimpleLoop, inner: &SimpleLoop) -> (r: Option<AxisReducePlan>)
    requires
        body.targets_valid(),
        body.all_terminated(),
        loop_ok(*body, outer.body@),
        loop_ok(*body, inner.body@),
        outer.header < body.num_blocks(),
        inner.header < body.num_blocks(),
    ensures
        match r {
            None => axis_reduce_plan(*body, *outer, *inner) is None,
            Some(p) => axis_reduce_plan(*body, *outer, *inner) matches Some(v) && p.outer_entry_bb == v.0
                && p.outer_exit_bb == v.1 && p.out_local == v.2 && p.a_local == v.3 && resolved_as(
                p.m_op,
                v.4,
                alias_map(*body, outer.body@),
            ) && resolved_as(p.n_op, v.5, alias_map(*body, outer.body@)) && p.fty == v.6,
        },
{
    if outer.header == inner.header || !contains_usize(&outer.body, inner.header) {
        return None;
    }
    let oshape = match detect_range_loop_shape(body, outer) {
        Some(s) => s,
        None => {
            return None;
        },
    };
    let ishape = match detect_range_loop_shape(body, inner) {
        Some(s) => s,
        None => {
            return None;
        },
    };
    let om = &oshape.alias_root;
    let im = &ishape.alias_root;
    let oi = oshape.i_root;
    let ii = ishape.i_root;
    let arm = match outer_some_arm_of(body, outer.header) {
        Some(a) => a,
        None => {
            return None;
        },
    };
    proof {
        lemma_some_arm_bounded(*body, outer.header);
    }
    let acc = match last_zero_f64(body, &body.basic_blocks[arm].statements) {
        Some(a) => a,
        None => {
            return None;
        },
    };
    let ss = loop_stmts(body, inner, true);
    proof {
        assert(ss@.map_values(|t: &StatementKind| *t) =~= body_stmts(*body, inner.body@, inner.header));
    }
    let (t_mul, n_raw) = match first_mul_by_i(&ss, om, oi) {
        Some(x) => x,
        None => {
            return None;
        },
    };
    let t_idx = match first_add_j(&ss, im, ii, t_mul) {
        Some(x) => x,
        None => {
            return None;
        },
    };
    let (va, a) = match first_read_at_idx(&ss, im, t_idx) {
        Some(x) => x,
        None => {
            return None;
        },
    };
    if first_acc_update(&ss, om, im, acc, va).is_none() {
        return None;
    }
    let outer_ss = outer_only_refs(body, outer, inner);
    let out = match first_store_acc(&outer_ss, om, oi, acc) {
        Some(y) => y,
        None => {
            return None;
        },
    };
    if ref_slice_float_ty(local_ty_of(body, out), true) != Some(FloatTy::F64) || ref_slice_float_ty(local_ty_of(body, a), false)
        != Some(FloatTy::F64) || out == a {
        return None;
    }
    let e = match unique_entry_pred(body, outer, outer.header) {
        Some(e) => e,
        None => {
            return None;
        },
    };
    let m_raw = match last_range_end_outside(body, outer) {
        Some(o) => o,
        None => {
            return None;
        },
    };
    Some(
        AxisReducePlan {
            outer_entry_bb: e,
            outer_exit_bb: oshape.exit_bb,
            out_local: out,
            a_local: a,
            m_op: resolve_operand(m_raw, om),
            n_op: resolve_operand(n_raw, om),
            fty: FloatTy::F64,
        },
    )
}

// ── Broadcast ─────────────────────────────────────────────────────────

/// The operand reads `(*dst)[idx]` with `idx` (an alias of) `t_idx`.
pub open spec fn self_at_idx(o: Operand, dst: usize, im: Map<usize, usize>, t_idx: usize) -> bool {
    op_place(o) matches Some(p) && p.local == dst && p.projection@.len() >= 2 && p.projection@[0]
        == ProjectionElem::Deref && (p.projection@[1] matches ProjectionElem::Index(idx) && alias_walk(im, idx, 16)
        == alias_walk(im, t_idx, 16))
}

/// `(*a)[idx] = (*a)[idx] + vb` (or `vb + ...`) with `idx` (an alias of)
/// `t_idx` and `vb` a bare local: (a, vb). The self-read is looked for on
/// the left first.
pub open spec fn add_into(s: StatementKind, im: Map<usize, usize>, t_idx: usize) -> Option<(usize, usize)> {
    match s {
        StatementKind::Assign(place, Rvalue::BinaryOp(op, lhs, rhs)) => if place.projection@.len() >= 2
            && place.projection@[0] == ProjectionElem::Deref && (place.projection@[1] matches ProjectionElem::Index(idx)
            && alias_walk(im, idx, 16) == alias_walk(im, t_idx, 16)) && (op == BinOp::Add || op == BinOp::AddUnchecked) {
            if self_at_idx(lhs, place.local, im, t_idx) {
                match bare_local(rhs) {
                    Some(vb) => Some((place.local, vb)),
                    None => None,
                }
            } else if self_at_idx(rhs, place.local, im, t_idx) {
                match bare_local(lhs) {
                    Some(vb) => Some((place.local, vb)),
                    None => None,
                }
            } else {
                None
            }
        } else {
            None
        },
        _ => None,
    }
}

pub open spec fn add_into_f(im: Map<usize, usize>, t_idx: usize) -> spec_fn(StatementKind) -> Option<(usize, usize)> {
    |s: StatementKind| add_into(s, im, t_idx)
}

/// A read `v = (*b)[j]` into (an alias of) `vb`, `j` the inner induction
/// variable: b resolved.
pub open spec fn read_j_into(s: StatementKind, im: Map<usize, usize>, ii: usize, vb: usize) -> Option<usize> {
    match s {
        StatementKind::Assign(place, Rvalue::Use(o)) => if place.projection@.len() == 0 && alias_walk(
            im,
            place.local,
            16,
        ) == alias_walk(im, vb, 16) {
            match op_place(o) {
                Some(p) => if p.projection@.len() >= 2 && p.projection@[0] == ProjectionElem::Deref && (
                p.projection@[1] matches ProjectionElem::Index(idx) && is_iv(im, ii, alias_walk(im, idx, 16))) {
                    Some(alias_walk(im, p.local, 16))
                } else {
                    None
                },
                None => None,
            }
        } else {
            None
        },
        _ => None,
    }
}

pub open spec fn read_j_into_f(im: Map<usize, usize>, ii: usize, vb: usize) -> spec_fn(StatementKind) -> Option<usize> {
    |s: StatementKind| read_j_into(s, im, ii, vb)
}

/// The plan of a row-wise broadcast nest, with `m` and `n` as the body
/// holds them: (outer entry, outer exit, a, b, m, n, float type): `t = i *
/// n` and `idx = t + j` as for a matrix-vector product, then the first
/// `a[idx] += vb`, the first read of `vb` from `b[j]`, a (resolved through
/// the outer aliases) a float slice of some type and b one of the same
/// type other than a, one edge into the outer header from outside, and `m`
/// the end of the last `Range` built outside the outer loop.
pub open spec fn broadcast_plan(body: Body, outer: SimpleLoop, inner: SimpleLoop) -> Option<
    (usize, usize, usize, usize, Operand, Operand, FloatTy),
> {
    if outer.header == inner.header || !outer.body@.contains(inner.header) {
        None
    } else {
        match (range_loop_shape(body, outer.header, outer.body@), range_loop_shape(body, inner.header, inner.body@)) {
            (Some((_oe, oexit, oi)), Some((_ie, _iexit, ii))) => {
                let om = alias_map(body, outer.body@);
                let im = alias_map(body, inner.body@);
                let ss = body_stmts(body, inner.body@, inner.header);
                match first_some(ss, mul_by_i_f(om, oi)) {
                    None => None,
                    Some((t_mul, n_raw)) => match first_some(ss, add_j_f(im, ii, t_mul)) {
                        None => None,
                        Some(t_idx) => match first_some(ss, add_into_f(im, t_idx)) {
                            None => None,
                            Some((a_raw, vb)) => match first_some(ss, read_j_into_f(im, ii, vb)) {
                                None => None,
                                Some(b) => {
                                    let a = alias_walk(om, a_raw, 16);
                                    match ref_slice_float(local_ty(body, a), true) {
                                        None => None,
                                        Some(f) => if ref_slice_float(local_ty(body, b), false) != Some(f) || a == b {
                                            None
                                        } else {
                                            let preds = entry_preds(body, outer.header, outer.body@, body.num_blocks());
                                            if preds.len() != 1 {
                                                None
                                            } else {
                                                match outside_range_end(body, outer.body@) {
                                                    None => None,
                                                    Some(m_raw) => Some((preds[0], oexit, a, b, m_raw, n_raw, f)),
                                                }
                                            }
                                        },
                                    }
                                },
                            },
                        },
                    },
                }
            },
            _ => None,
        }
    }
}

/// A row-wise broadcast nest to hand to a helper.
#[derive(Debug)]
pub struct BroadcastPlan {
    pub outer_entry_bb: usize,
    pub outer_exit_bb: usize,
    pub a_local: usize,
    pub b_local: usize,
    pub m_op: Operand,
    pub n_op: Operand,
    pub fty: FloatTy,
}

fn self_at_idx_exec(o: &Operand, dst: usize, im: &BTreeMap<usize, usize>, t_idx: usize) -> (r: bool)
    ensures
        r == self_at_idx(*o, dst, im@, t_idx),
{
    match o {
        Operand::Copy(p) | Operand::Move(p) => {
            if p.local != dst || p.projection.len() < 2 || p.projection[0] != ProjectionElem::Deref {
                return false;
            }
            match p.projection[1] {
                ProjectionElem::Index(idx) => LoopShape::resolve(im, idx) == LoopShape::resolve(im, t_idx),
                _ => false,
            }
        },
        Operand::Constant(_) => false,
    }
}

fn add_into_of(s: &StatementKind, im: &BTreeMap<usize, usize>, t_idx: usize) -> (r: Option<(usize, usize)>)
    ensures
        r == add_into(*s, im@, t_idx),
{
    match s {
        StatementKind::Assign(place, Rvalue::BinaryOp(op, lhs, rhs)) => {
            if place.projection.len() < 2 || place.projection[0] != ProjectionElem::Deref {
                return None;
            }
            let idx_ok = match place.projection[1] {
                ProjectionElem::Index(idx) => LoopShape::resolve(im, idx) == LoopShape::resolve(im, t_idx),
                _ => false,
            };
            if !idx_ok || !(*op == BinOp::Add || *op == BinOp::AddUnchecked) {
                return None;
            }
            if self_at_idx_exec(lhs, place.local, im, t_idx) {
                match bare_local_exec(rhs) {
                    Some(vb) => Some((place.local, vb)),
                    None => None,
                }
            } else if self_at_idx_exec(rhs, place.local, im, t_idx) {
                match bare_local_exec(lhs) {
                    Some(vb) => Some((place.local, vb)),
                    None => None,
                }
            } else {
                None
            }
        },
        _ => None,
    }
}

fn first_add_into(ss: &Vec<&StatementKind>, im: &BTreeMap<usize, usize>, t_idx: usize) -> (r: Option<(usize, usize)>)
    ensures
        r == first_some(ss@.map_values(|t: &StatementKind| *t), add_into_f(im@, t_idx)),
{
    let ghost sv = ss@.map_values(|t: &StatementKind| *t);
    let mut j: usize = 0;
    assert(sv.skip(0) =~= sv);
    while j < ss.len()
        invariant
            j <= ss@.len(),
            sv == ss@.map_values(|t: &StatementKind| *t),
            first_some(sv, add_into_f(im@, t_idx)) == first_some(sv.skip(j as int), add_into_f(im@, t_idx)),
        decreases ss@.len() - j,
    {
        proof {
            assert(sv.skip(j as int)[0] == sv[j as int]);
            assert(sv[j as int] == *ss@[j as int]);
            assert(sv.skip(j as int).skip(1) =~= sv.skip(j + 1));
        }
        match add_into_of(ss[j], im, t_idx) {
            Some(x) => {
                return Some(x);
            },
            None => {},
        }
        j = j + 1;
    }
    None
}

fn read_j_into_of(s: &StatementKind, im: &BTreeMap<usize, usize>, ii: usize, vb: usize) -> (r: Option<usize>)
    ensures
        r == read_j_into(*s, im@, ii, vb),
{
    match s {
        StatementKind::Assign(place, Rvalue::Use(Operand::Copy(p))) | StatementKind::Assign(
            place,
            Rvalue::Use(Operand::Move(p)),
        ) => {
            if place.projection.len() != 0 || LoopShape::resolve(im, place.local) != LoopShape::resolve(im, vb)
                || p.projection.len() < 2 || p.projection[0] != ProjectionElem::Deref {
                return None;
            }
            match p.projection[1] {
                ProjectionElem::Index(idx) => if is_iv_exec(im, ii, LoopShape::resolve(im, idx)) {
                    Some(LoopShape::resolve(im, p.local))
                } else {
                    None
                },
                _ => None,
            }
        },
        _ => None,
    }
}

fn first_read_j_into(ss: &Vec<&StatementKind>, im: &BTreeMap<usize, usize>, ii: usize, vb: usize) -> (r: Option<usize>)
    ensures
        r == first_some(ss@.map_values(|t: &StatementKind| *t), read_j_into_f(im@, ii, vb)),
{
    let ghost sv = ss@.map_values(|t: &StatementKind| *t);
    let mut j: usize = 0;
    assert(sv.skip(0) =~= sv);
    while j < ss.len()
        invariant
            j <= ss@.len(),
            sv == ss@.map_values(|t: &StatementKind| *t),
            first_some(sv, read_j_into_f(im@, ii, vb)) == first_some(sv.skip(j as int), read_j_into_f(im@, ii, vb)),
        decreases ss@.len() - j,
    {
        proof {
            assert(sv.skip(j as int)[0] == sv[j as int]);
            assert(sv[j as int] == *ss@[j as int]);
            assert(sv.skip(j as int).skip(1) =~= sv.skip(j + 1));
        }
        match read_j_into_of(ss[j], im, ii, vb) {
            Some(x) => {
                return Some(x);
            },
            None => {},
        }
        j = j + 1;
    }
    None
}

/// Matches a row-wise broadcast nest: `a[i * n + j] += b[j]`.
pub fn analyze_broadcast_loops(body: &Body, outer: &SimpleLoop, inner: &SimpleLoop) -> (r: Option<BroadcastPlan>)
    requires
        body.targets_valid(),
        body.all_terminated(),
        loop_ok(*body, outer.body@),
        loop_ok(*body, inner.body@),
        outer.header < body.num_blocks(),
        inner.header < body.num_blocks(),
    ensures
        match r {
            None => broadcast_plan(*body, *outer, *inner) is None,
            Some(p) => broadcast_plan(*body, *outer, *inner) matches Some(v) && p.outer_entry_bb == v.0
                && p.outer_exit_bb == v.1 && p.a_local == v.2 && p.b_local == v.3 && resolved_as(
                p.m_op,
                v.4,
                alias_map(*body, outer.body@),
            ) && resolved_as(p.n_op, v.5, alias_map(*body, outer.body@)) && p.fty == v.6,
        },
{
    if outer.header == inner.header || !contains_usize(&outer.body, inner.header) {
        return None;
    }
    let oshape = match detect_range_loop_shape(body, outer) {
        Some(s) => s,
        None => {
            return None;
        },
    };
    let ishape = match detect_range_loop_shape(body, inner) {
        Some(s) => s,
        None => {
            return None;
        },
    };
    let om = &oshape.alias_root;
    let im = &ishape.alias_root;
    let oi = oshape.i_root;
    let ii = ishape.i_root;
    let ss = loop_stmts(body, inner, true);
    proof {
        assert(ss@.map_values(|t: &StatementKind| *t) =~= body_stmts(*body, inner.body@, inner.header));
    }
    let (t_mul, n_raw) = match first_mul_by_i(&ss, om, oi) {
        Some(x) => x,
        None => {
            return None;
        },
    };
    let t_idx = match first_add_j(&ss, im, ii, t_mul) {
        Some(x) => x,
        None => {
            return None;
        },
    };
    let (a_raw, vb) = match first_add_into(&ss, im, t_idx) {
        Some(x) => x,
        None => {
            return None;
        },
    };
    let b = match first_read_j_into(&ss, im, ii, vb) {
        Some(x) => x,
        None => {
            return None;
        },
    };
    let a = LoopShape::resolve(om, a_raw);
    let f = match ref_slice_float_ty(local_ty_of(body, a), true) {
        Some(f) => f,
        None => {
            return None;
        },
    };
    if ref_slice_float_ty(local_ty_of(body, b), false) != Some(f) || a == b {
        return None;
    }
    let e = match unique_entry_pred(body, outer, outer.header) {
        Some(e) => e,
        None => {
            return None;
        },
    };
    let m_raw = match last_range_end_outside(body, outer) {
        Some(o) => o,
        None => {
            return None;
        },
    };
    Some(
        BroadcastPlan {
            outer_entry_bb: e,
            outer_exit_bb: oshape.exit_bb,
            a_local: a,
            b_local: b,
            m_op: resolve_operand(m_raw, om),
            n_op: resolve_operand(n_raw, om),
            fty: f,
        },
    )
}

// ── Transpose ─────────────────────────────────────────────────────────

/// `t = j * m` (or `m * j`) into a bare local, `j` a bare local that is the
/// inner induction variable: (t, m).
pub open spec fn mul_by_j(s: StatementKind, im: Map<usize, usize>, ii: usize) -> Option<(usize, Operand)> {
    match s {
        StatementKind::Assign(place, Rvalue::BinaryOp(op, lhs, rhs)) => if place.projection@.len() == 0 && (op
            == BinOp::Mul || op == BinOp::MulUnchecked) {
            if bare_local(lhs) matches Some(l) && is_iv(im, ii, l) {
                Some((place.local, rhs))
            } else if bare_local(rhs) matches Some(l) && is_iv(im, ii, l) {
                Some((place.local, lhs))
            } else {
                None
            }
        } else {
            None
        },
        _ => None,
    }
}

pub open spec fn mul_by_j_f(im: Map<usize, usize>, ii: usize) -> spec_fn(StatementKind) -> Option<(usize, Operand)> {
    |s: StatementKind| mul_by_j(s, im, ii)
}

/// `idx = t + i` (or `i + t`) into a bare local, `t` (an alias of) `t_mul`
/// and `i` the outer induction variable: idx.
pub open spec fn add_i(s: StatementKind, im: Map<usize, usize>, om: Map<usize, usize>, oi: usize, t_mul: usize) -> Option<usize> {
    match s {
        StatementKind::Assign(place, Rvalue::BinaryOp(op, lhs, rhs)) => if place.projection@.len() == 0 && (op
            == BinOp::Add || op == BinOp::AddUnchecked) {
            let ord = |mo: Operand, io: Operand|
                bare_local(mo) matches Some(ml) && alias_walk(im, ml, 16) == alias_walk(im, t_mul, 16) && (bare_local(
                    io,
                ) matches Some(il) && is_iv(om, oi, il));
            if ord(lhs, rhs) || ord(rhs, lhs) {
                Some(place.local)
            } else {
                None
            }
        } else {
            None
        },
        _ => None,
    }
}

pub open spec fn add_i_f(im: Map<usize, usize>, om: Map<usize, usize>, oi: usize, t_mul: usize) -> spec_fn(StatementKind) -> Option<usize> {
    |s: StatementKind| add_i(s, im, om, oi, t_mul)
}

/// `(*b)[idx] = v` with `idx` (an alias of) `t_idx` and `v` (an alias of)
/// `va`: b resolved through the outer aliases.
pub open spec fn store_at(s: StatementKind, im: Map<usize, usize>, om: Map<usize, usize>, t_idx: usize, va: usize) -> Option<usize> {
    match s {
        StatementKind::Assign(place, Rvalue::Use(o)) => if place.projection@.len() >= 2 && place.projection@[0]
            == ProjectionElem::Deref && (place.projection@[1] matches ProjectionElem::Index(idx) && alias_walk(
            im,
            idx,
            16,
        ) == alias_walk(im, t_idx, 16)) && (op_place(o) matches Some(p) && p.projection@.len() == 0 && alias_walk(
            im,
            p.local,
            16,
        ) == alias_walk(im, va, 16)) {
            Some(alias_walk(om, place.local, 16))
        } else {
            None
        },
        _ => None,
    }
}

pub open spec fn store_at_f(im: Map<usize, usize>, om: Map<usize, usize>, t_idx: usize, va: usize) -> spec_fn(StatementKind) -> Option<usize> {
    |s: StatementKind| store_at(s, im, om, t_idx, va)
}

/// The plan of a transpose nest, with `m` and `n` as the body holds them:
/// (outer entry, outer exit, b, a, m, n, float type): the read index
/// `i * n + j` as for a matrix-vector product, the write index `j * m + i`
/// (the first product by `j`, then the first sum with `i`), the first read
/// `va = a[i*n+j]`, the first store `b[j*m+i] = va`, b a float slice of
/// some type and a one of the same type other than b, and one edge into
/// the outer header from outside.
pub open spec fn transpose_plan(body: Body, outer: SimpleLoop, inner: SimpleLoop) -> Option<
    (usize, usize, usize, usize, Operand, Operand, FloatTy),
> {
    if outer.header == inner.header || !outer.body@.contains(inner.header) {
        None
    } else {
        match (range_loop_shape(body, outer.header, outer.body@), range_loop_shape(body, inner.header, inner.body@)) {
            (Some((_oe, oexit, oi)), Some((_ie, _iexit, ii))) => {
                let om = alias_map(body, outer.body@);
                let im = alias_map(body, inner.body@);
                let ss = body_stmts(body, inner.body@, inner.header);
                match first_some(ss, mul_by_i_f(om, oi)) {
                    None => None,
                    Some((t_mul_r, n_raw)) => match first_some(ss, add_j_f(im, ii, t_mul_r)) {
                        None => None,
                        Some(t_idx_r) => match first_some(ss, mul_by_j_f(im, ii)) {
                            None => None,
                            Some((t_mul_w, m_raw)) => match first_some(ss, add_i_f(im, om, oi, t_mul_w)) {
                                None => None,
                                Some(t_idx_w) => match first_some(ss, read_at_idx_f(im, t_idx_r)) {
                                    None => None,
                                    Some((va, a)) => match first_some(ss, store_at_f(im, om, t_idx_w, va)) {
                                        None => None,
                                        Some(b) => match ref_slice_float(local_ty(body, b), true) {
                                            None => None,
                                            Some(f) => if ref_slice_float(local_ty(body, a), false) != Some(f) || b == a {
                                                None
                                            } else {
                                                let preds = entry_preds(body, outer.header, outer.body@, body.num_blocks());
                                                if preds.len() != 1 {
                                                    None
                                                } else {
                                                    Some((preds[0], oexit, b, a, m_raw, n_raw, f))
                                                }
                                            },
                                        },
                                    },
                                },
                            },
                        },
                    },
                }
            },
            _ => None,
        }
    }
}

/// A transpose nest to hand to a helper.
#[derive(Debug)]
pub struct TransposePlan {
    pub outer_entry_bb: usize,
    pub outer_exit_bb: usize,
    pub b_local: usize,
    pub a_local: usize,
    pub m_op: Operand,
    pub n_op: Operand,
    pub fty: FloatTy,
}

fn mul_by_j_of<'a>(s: &'a StatementKind, im: &BTreeMap<usize, usize>, ii: usize) -> (r: Option<(usize, &'a Operand)>)
    ensures
        match r {
            None => mul_by_j(*s, im@, ii) is None,
            Some((t, o)) => mul_by_j(*s, im@, ii) == Some((t, *o)),
        },
{
    match s {
        StatementKind::Assign(place, Rvalue::BinaryOp(op, lhs, rhs)) => {
            if place.projection.len() != 0 || !(*op == BinOp::Mul || *op == BinOp::MulUnchecked) {
                return None;
            }
            match bare_local_exec(lhs) {
                Some(l) => {
                    if is_iv_exec(im, ii, l) {
                        return Some((place.local, rhs));
                    }
                },
                None => {},
            }
            match bare_local_exec(rhs) {
                Some(l) => {
                    if is_iv_exec(im, ii, l) {
                        return Some((place.local, lhs));
                    }
                },
                None => {},
            }
            None
        },
        _ => None,
    }
}

fn first_mul_by_j<'a>(ss: &Vec<&'a StatementKind>, im: &BTreeMap<usize, usize>, ii: usize) -> (r: Option<(usize, &'a Operand)>)
    ensures
        match r {
            None => first_some(ss@.map_values(|t: &StatementKind| *t), mul_by_j_f(im@, ii)) is None,
            Some((t, o)) => first_some(ss@.map_values(|t: &StatementKind| *t), mul_by_j_f(im@, ii)) == Some((t, *o)),
        },
{
    let ghost sv = ss@.map_values(|t: &StatementKind| *t);
    let mut j: usize = 0;
    assert(sv.skip(0) =~= sv);
    while j < ss.len()
        invariant
            j <= ss@.len(),
            sv == ss@.map_values(|t: &StatementKind| *t),
            first_some(sv, mul_by_j_f(im@, ii)) == first_some(sv.skip(j as int), mul_by_j_f(im@, ii)),
        decreases ss@.len() - j,
    {
        proof {
            assert(sv.skip(j as int)[0] == sv[j as int]);
            assert(sv[j as int] == *ss@[j as int]);
            assert(sv.skip(j as int).skip(1) =~= sv.skip(j + 1));
        }
        match mul_by_j_of(ss[j], im, ii) {
            Some(x) => {
                return Some(x);
            },
            None => {},
        }
        j = j + 1;
    }
    None
}

fn add_i_of(s: &StatementKind, im: &BTreeMap<usize, usize>, om: &BTreeMap<usize, usize>, oi: usize, t_mul: usize) -> (r: Option<usize>)
    ensures
        r == add_i(*s, im@, om@, oi, t_mul),
{
    match s {
        StatementKind::Assign(place, Rvalue::BinaryOp(op, lhs, rhs)) => {
            if place.projection.len() != 0 || !(*op == BinOp::Add || *op == BinOp::AddUnchecked) {
                return None;
            }
            let tm = LoopShape::resolve(im, t_mul);
            let l1 = bare_local_exec(lhs);
            let l2 = bare_local_exec(rhs);
            let first = match (l1, l2) {
                (Some(ml), Some(il)) => LoopShape::resolve(im, ml) == tm && is_iv_exec(om, oi, il),
                _ => false,
            };
            let second = match (l2, l1) {
                (Some(ml), Some(il)) => LoopShape::resolve(im, ml) == tm && is_iv_exec(om, oi, il),
                _ => false,
            };
            if first || second {
                Some(place.local)
            } else {
                None
            }
        },
        _ => None,
    }
}

fn first_add_i(ss: &Vec<&StatementKind>, im: &BTreeMap<usize, usize>, om: &BTreeMap<usize, usize>, oi: usize, t_mul: usize) -> (r: Option<usize>)
    ensures
        r == first_some(ss@.map_values(|t: &StatementKind| *t), add_i_f(im@, om@, oi, t_mul)),
{
    let ghost sv = ss@.map_values(|t: &StatementKind| *t);
    let mut j: usize = 0;
    assert(sv.skip(0) =~= sv);
    while j < ss.len()
        invariant
            j <= ss@.len(),
            sv == ss@.map_values(|t: &StatementKind| *t),
            first_some(sv, add_i_f(im@, om@, oi, t_mul)) == first_some(sv.skip(j as int), add_i_f(im@, om@, oi, t_mul)),
        decreases ss@.len() - j,
    {
        proof {
            assert(sv.skip(j as int)[0] == sv[j as int]);
            assert(sv[j as int] == *ss@[j as int]);
            assert(sv.skip(j as int).skip(1) =~= sv.skip(j + 1));
        }
        match add_i_of(ss[j], im, om, oi, t_mul) {
            Some(x) => {
                return Some(x);
            },
            None => {},
        }
        j = j + 1;
    }
    None
}

fn store_at_of(s: &StatementKind, im: &BTreeMap<usize, usize>, om: &BTreeMap<usize, usize>, t_idx: usize, va: usize) -> (r: Option<usize>)
    ensures
        r == store_at(*s, im@, om@, t_idx, va),
{
    match s {
        StatementKind::Assign(place, Rvalue::Use(o)) => {
            if place.projection.len() < 2 || place.projection[0] != ProjectionElem::Deref {
                return None;
            }
            let idx_ok = match place.projection[1] {
                ProjectionElem::Index(idx) => LoopShape::resolve(im, idx) == LoopShape::resolve(im, t_idx),
                _ => false,
            };
            if !idx_ok {
                return None;
            }
            match o {
                Operand::Copy(p) | Operand::Move(p) => {
                    if p.projection.len() == 0 && LoopShape::resolve(im, p.local) == LoopShape::resolve(im, va) {
                        Some(LoopShape::resolve(om, place.local))
                    } else {
                        None
                    }
                },
                Operand::Constant(_) => None,
            }
        },
        _ => None,
    }
}

fn first_store_at(ss: &Vec<&StatementKind>, im: &BTreeMap<usize, usize>, om: &BTreeMap<usize, usize>, t_idx: usize, va: usize) -> (r: Option<usize>)
    ensures
        r == first_some(ss@.map_values(|t: &StatementKind| *t), store_at_f(im@, om@, t_idx, va)),
{
    let ghost sv = ss@.map_values(|t: &StatementKind| *t);
    let mut j: usize = 0;
    assert(sv.skip(0) =~= sv);
    while j < ss.len()
        invariant
            j <= ss@.len(),
            sv == ss@.map_values(|t: &StatementKind| *t),
            first_some(sv, store_at_f(im@, om@, t_idx, va)) == first_some(sv.skip(j as int), store_at_f(im@, om@, t_idx, va)),
        decreases ss@.len() - j,
    {
        proof {
            assert(sv.skip(j as int)[0] == sv[j as int]);
            assert(sv[j as int] == *ss@[j as int]);
            assert(sv.skip(j as int).skip(1) =~= sv.skip(j + 1));
        }
        match store_at_of(ss[j], im, om, t_idx, va) {
            Some(x) => {
                return Some(x);
            },
            None => {},
        }
        j = j + 1;
    }
    None
}

/// Matches a transpose nest: `b[j * m + i] = a[i * n + j]`.
pub fn analyze_transpose_loops(body: &Body, outer: &SimpleLoop, inner: &SimpleLoop) -> (r: Option<TransposePlan>)
    requires
        body.targets_valid(),
        body.all_terminated(),
        loop_ok(*body, outer.body@),
        loop_ok(*body, inner.body@),
        outer.header < body.num_blocks(),
        inner.header < body.num_blocks(),
    ensures
        match r {
            None => transpose_plan(*body, *outer, *inner) is None,
            Some(p) => transpose_plan(*body, *outer, *inner) matches Some(v) && p.outer_entry_bb == v.0
                && p.outer_exit_bb == v.1 && p.b_local == v.2 && p.a_local == v.3 && resolved_as(
                p.m_op,
                v.4,
                alias_map(*body, outer.body@),
            ) && resolved_as(p.n_op, v.5, alias_map(*body, outer.body@)) && p.fty == v.6,
        },
{
    if outer.header == inner.header || !contains_usize(&outer.body, inner.header) {
        return None;
    }
    let oshape = match detect_range_loop_shape(body, outer) {
        Some(s) => s,
        None => {
            return None;
        },
    };
    let ishape = match detect_range_loop_shape(body, inner) {
        Some(s) => s,
        None => {
            return None;
        },
    };
    let om = &oshape.alias_root;
    let im = &ishape.alias_root;
    let oi = oshape.i_root;
    let ii = ishape.i_root;
    let ss = loop_stmts(body, inner, true);
    proof {
        assert(ss@.map_values(|t: &StatementKind| *t) =~= body_stmts(*body, inner.body@, inner.header));
    }
    let (t_mul_r, n_raw) = match first_mul_by_i(&ss, om, oi) {
        Some(x) => x,
        None => {
            return None;
        },
    };
    let t_idx_r = match first_add_j(&ss, im, ii, t_mul_r) {
        Some(x) => x,
        None => {
            return None;
        },
    };
    let (t_mul_w, m_raw) = match first_mul_by_j(&ss, im, ii) {
        Some(x) => x,
        None => {
            return None;
        },
    };
    let t_idx_w = match first_add_i(&ss, im, om, oi, t_mul_w) {
        Some(x) => x,
        None => {
            return None;
        },
    };
    let (va, a) = match first_read_at_idx(&ss, im, t_idx_r) {
        Some(x) => x,
        None => {
            return None;
        },
    };
    let b = match first_store_at(&ss, im, om, t_idx_w, va) {
        Some(x) => x,
        None => {
            return None;
        },
    };
    let f = match ref_slice_float_ty(local_ty_of(body, b), true) {
        Some(f) => f,
        None => {
            return None;
        },
    };
    if ref_slice_float_ty(local_ty_of(body, a), false) != Some(f) || b == a {
        return None;
    }
    let e = match unique_entry_pred(body, outer, outer.header) {
        Some(e) => e,
        None => {
            return None;
        },
    };
    Some(
        TransposePlan {
            outer_entry_bb: e,
            outer_exit_bb: oshape.exit_bb,
            b_local: b,
            a_local: a,
            m_op: resolve_operand(m_raw, om),
            n_op: resolve_operand(n_raw, om),
            fty: f,
        },
    )
}

} // verus!
