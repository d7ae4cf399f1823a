//! Dot products over two nested range loops: the matrix-vector product
//! `for i in 0..m { let mut acc = 0.0; for j in 0..n { acc += a[i*n+j] * x[j] } y[i] = acc }`
//! and the 1-D convolution
//! `for i in 0..m { let mut acc = 0.0; for k in 0..ks { acc += x[i+k] * w[k] } y[i] = acc }`.
use vstd::prelude::*;
use std::collections::BTreeMap;
use crate::mir::{Body, StatementKind, TerminatorKind, Operand, Rvalue, BinOp, Place, ProjectionElem, AggregateKind, LocalTy, local_ty, local_ty_of};
use crate::idioms::{ScalarTy, FloatTy};
use crate::detect::{SimpleLoop, loop_ok, stmts_of, term_of, contains_usize};
use crate::shape::{
    alias_walk, alias_map, range_loop_shape, detect_range_loop_shape, LoopShape, bare_local, entry_preds,
    unique_entry_pred, last_target_for, last_target_for_exec, lemma_entry_preds_bounded,
};
use crate::axpy::{body_stmts, op_place, ref_slice_float, ref_slice_float_ty, bare_local_exec};
use crate::apply_loops::{loop_stmts, lemma_prefix_step};
use crate::chains::{const_bits, eval_const_bits};
use crate::iter_methods::{same_operand, copy_operand, copy_place};
use crate::text::{ends_with_text, ends_with_str};

verus! {

/// The first statement of `ss` on which `f` gives something, and what.
pub open spec fn first_some<T>(ss: Seq<StatementKind>, f: spec_fn(StatementKind) -> Option<T>) -> Option<T>
    decreases ss.len(),
{
    if ss.len() == 0 {
        None
    } else {
        match f(ss[0]) {
            Some(x) => Some(x),
            None => first_some(ss.skip(1), f),
        }
    }
}

/// The last statement of `ss` on which `f` gives something, and what.
pub open spec fn last_some<T>(ss: Seq<StatementKind>, f: spec_fn(StatementKind) -> Option<T>) -> Option<T>
    decreases ss.len(),
{
    if ss.len() == 0 {
        None
    } else {
        match f(ss.last()) {
            Some(x) => Some(x),
            None => last_some(ss.drop_last(), f),
        }
    }
}

/// `l`, resolved twice through the aliases, is the induction variable.
pub open spec fn is_iv(m: Map<usize, usize>, i_root: usize, l: usize) -> bool {
    alias_walk(m, alias_walk(m, l, 16), 16) == i_root
}

/// `t = i * n` (or `n * i`) into a bare local, `i` a bare local that is the
/// outer induction variable: (t, n).
pub open spec fn mul_by_i(s: StatementKind, om: Map<usize, usize>, oi: usize) -> Option<(usize, Operand)> {
    match s {
        StatementKind::Assign(place, Rvalue::BinaryOp(op, lhs, rhs)) => if place.projection@.len() == 0 && (op
            == BinOp::Mul || op == BinOp::MulUnchecked) {
            if bare_local(lhs) matches Some(l) && is_iv(om, oi, l) {
                Some((place.local, rhs))
            } else if bare_local(rhs) matches Some(l) && is_iv(om, oi, l) {
                Some((place.local, lhs))
            } else {
                None
            }
        } else {
            None
        },
        _ => None,
    }
}

/// `idx = t + j` (or `j + t`) into a bare local, `t` (an alias of) `t_mul`
/// and `j` the inner induction variable: idx.
pub open spec fn add_j(s: StatementKind, im: Map<usize, usize>, ii: usize, t_mul: usize) -> Option<usize> {
    match s {
        StatementKind::Assign(place, Rvalue::BinaryOp(op, lhs, rhs)) => if place.projection@.len() == 0 && (op
            == BinOp::Add || op == BinOp::AddUnchecked) {
            let ord = |mo: Operand, jo: Operand|
                bare_local(mo) matches Some(ml) && alias_walk(im, ml, 16) == alias_walk(im, t_mul, 16) && (bare_local(
                    jo,
                ) matches Some(jl) && is_iv(im, ii, jl));
            if ord(lhs, rhs) || ord(rhs, lhs) {
                Some(place.local)
            } else {
                None
            }
        } else {
            None
        },
        _ => None,
    }
}

/// A read `v = (*p)[idx]` into a bare local with `idx` (an alias of)
/// `t_idx`: (v, p resolved).
pub open spec fn read_at_idx(s: StatementKind, im: Map<usize, usize>, t_idx: usize) -> Option<(usize, usize)> {
    match s {
        StatementKind::Assign(place, Rvalue::Use(o)) => if place.projection@.len() == 0 {
            match op_place(o) {
                Some(p) => if p.projection@.len() >= 2 && p.projection@[0] == ProjectionElem::Deref && (
                p.projection@[1] matches ProjectionElem::Index(idx) && alias_walk(im, idx, 16) == alias_walk(
                    im,
                    t_idx,
                    16,
                )) {
                    Some((place.local, alias_walk(im, p.local, 16)))
                } else {
                    None
                },
                None => None,
            }
        } else {
            None
        },
        _ => None,
    }
}

/// A read `v = (*p)[j]` into a bare local, `j` the inner induction variable
/// and `p` (resolved) not `a`: (v, p resolved).
pub open spec fn read_at_j(s: StatementKind, im: Map<usize, usize>, ii: usize, a: usize) -> Option<(usize, usize)> {
    match s {
        StatementKind::Assign(place, Rvalue::Use(o)) => if place.projection@.len() == 0 {
            match op_place(o) {
                Some(p) => if p.projection@.len() >= 2 && p.projection@[0] == ProjectionElem::Deref && (
                p.projection@[1] matches ProjectionElem::Index(idx) && is_iv(im, ii, alias_walk(im, idx, 16)))
                    && alias_walk(im, p.local, 16) != a {
                    Some((place.local, alias_walk(im, p.local, 16)))
                } else {
                    None
                },
                None => None,
            }
        } else {
            None
        },
        _ => None,
    }
}

/// `t = va * vx` (either order, up to aliases) into a bare local: t.
pub open spec fn product_of(s: StatementKind, im: Map<usize, usize>, va: usize, vx: usize) -> Option<usize> {
    match s {
        StatementKind::Assign(place, Rvalue::BinaryOp(op, lhs, rhs)) => if place.projection@.len() == 0 && (op
            == BinOp::Mul || op == BinOp::MulUnchecked) {
            let pair = |x: Operand, y: Operand|
                bare_local(x) matches Some(lx) && (bare_local(y) matches Some(ly) && alias_walk(im, lx, 16)
                    == alias_walk(im, va, 16) && alias_walk(im, ly, 16) == alias_walk(im, vx, 16));
            if pair(lhs, rhs) || pair(rhs, lhs) {
                Some(place.local)
            } else {
                None
            }
        } else {
            None
        },
        _ => None,
    }
}

/// `acc = acc + t` (either order) with the accumulator resolved through the
/// outer aliases and `t` through the inner ones.
pub open spec fn acc_update(s: StatementKind, om: Map<usize, usize>, im: Map<usize, usize>, acc: usize, t_prod: usize) -> Option<()> {
    match s {
        StatementKind::Assign(place, Rvalue::BinaryOp(op, lhs, rhs)) => if place.projection@.len() == 0 && alias_walk(
            om,
            place.local,
            16,
        ) == alias_walk(om, acc, 16) && (op == BinOp::Add || op == BinOp::AddUnchecked) {
            let ord = |x: Operand, y: Operand|
                bare_local(x) matches Some(la) && (bare_local(y) matches Some(lb) && alias_walk(om, la, 16)
                    == alias_walk(om, acc, 16) && alias_walk(im, lb, 16) == alias_walk(im, t_prod, 16));
            if ord(lhs, rhs) || ord(rhs, lhs) {
                Some(())
            } else {
                None
            }
        } else {
            None
        },
        _ => None,
    }
}

/// `(*y)[i] = acc` with `i` the outer induction variable: y resolved.
pub open spec fn store_acc(s: StatementKind, om: Map<usize, usize>, oi: usize, acc: usize) -> Option<usize> {
    match s {
        StatementKind::Assign(place, Rvalue::Use(o)) => if place.projection@.len() >= 2 && place.projection@[0]
            == ProjectionElem::Deref && (place.projection@[1] matches ProjectionElem::Index(idx) && is_iv(
            om,
            oi,
            alias_walk(om, idx, 16),
        )) && (op_place(o) matches Some(p) && p.projection@.len() == 0 && alias_walk(om, p.local, 16) == alias_walk(
            om,
            acc,
            16,
        )) {
            Some(alias_walk(om, place.local, 16))
        } else {
            None
        },
        _ => None,
    }
}

/// `acc = 0.0` into a bare local of type `f64`: acc.
pub open spec fn zero_f64(body: Body, s: StatementKind) -> Option<usize> {
    match s {
        StatementKind::Assign(place, Rvalue::Use(Operand::Constant(c))) => if place.projection@.len() == 0
            && const_bits(c) == Some(0u128) && local_ty(body, place.local) == LocalTy::Scalar(ScalarTy::F64) {
            Some(place.local)
        } else {
            None
        },
        _ => None,
    }
}

/// `r = Range { start, end }` (an ADT whose path ends in `Range`, two
/// fields): end.
pub open spec fn range_end(s: StatementKind) -> Option<Operand> {
    match s {
        StatementKind::Assign(_, Rvalue::Aggregate(AggregateKind::Adt { path, .. }, fields)) => if ends_with_text(
            path@,
            "Range"@,
        ) && fields@.len() == 2 {
            Some(fields@[1])
        } else {
            None
        },
        _ => None,
    }
}

pub open spec fn zero_f64_f(body: Body) -> spec_fn(StatementKind) -> Option<usize> {
    |s: StatementKind| zero_f64(body, s)
}

pub open spec fn mul_by_i_f(om: Map<usize, usize>, oi: usize) -> spec_fn(StatementKind) -> Option<(usize, Operand)> {
    |s: StatementKind| mul_by_i(s, om, oi)
}

pub open spec fn add_j_f(im: Map<usize, usize>, ii: usize, t_mul: usize) -> spec_fn(StatementKind) -> Option<usize> {
    |s: StatementKind| add_j(s, im, ii, t_mul)
}

pub open spec fn read_at_idx_f(im: Map<usize, usize>, t_idx: usize) -> spec_fn(StatementKind) -> Option<(usize, usize)> {
    |s: StatementKind| read_at_idx(s, im, t_idx)
}

pub open spec fn read_at_j_f(im: Map<usize, usize>, ii: usize, a: usize) -> spec_fn(StatementKind) -> Option<(usize, usize)> {
    |s: StatementKind| read_at_j(s, im, ii, a)
}

pub open spec fn product_of_f(im: Map<usize, usize>, va: usize, vx: usize) -> spec_fn(StatementKind) -> Option<usize> {
    |s: StatementKind| product_of(s, im, va, vx)
}

pub open spec fn acc_update_f(om: Map<usize, usize>, im: Map<usize, usize>, acc: usize, t_prod: usize) -> spec_fn(StatementKind) -> Option<()> {
    |s: StatementKind| acc_update(s, om, im, acc, t_prod)
}

pub open spec fn store_acc_f(om: Map<usize, usize>, oi: usize, acc: usize) -> spec_fn(StatementKind) -> Option<usize> {
    |s: StatementKind| store_acc(s, om, oi, acc)
}

pub open spec fn range_end_f() -> spec_fn(StatementKind) -> Option<Operand> {
    |s: StatementKind| range_end(s)
}

/// The statements of the outer loop's blocks that are neither the outer
/// header nor in the inner loop, in order.
pub open spec fn outer_only_stmts(body: Body, outer: Seq<usize>, inner: Seq<usize>, header: usize) -> Seq<StatementKind>
    decreases outer.len(),
{
    if outer.len() == 0 {
        Seq::empty()
    } else {
        outer_only_stmts(body, outer.drop_last(), inner, header) + if inner.contains(outer.last()) || outer.last()
            == header {
            Seq::empty()
        } else {
            stmts_of(body, outer.last() as int)
        }
    }
}

/// The block of the `1` arm of the switch after the outer header's call.
pub open spec fn outer_some_arm(body: Body, header: usize) -> Option<usize> {
    match term_of(body, header as int) {
        Some(TerminatorKind::Call { target: Some(post), .. }) => match term_of(body, post as int) {
            Some(TerminatorKind::SwitchInt { targets, .. }) => last_target_for(targets@, 1),
            _ => None,
        },
        _ => None,
    }
}

/// `r` is operand `o` with a bare local replaced by a copy of its root
/// (through the aliases `m`); any other operand is kept.
pub open spec fn resolved_as(r: Operand, o: Operand, m: Map<usize, usize>) -> bool {
    match bare_local(o) {
        Some(l) => r matches Operand::Copy(q) && q.local == alias_walk(m, l, 16) && q.projection@.len() == 0,
        None => same_operand(r, o),
    }
}

/// A matrix-vector product to hand to a helper.
#[derive(Debug)]
pub struct MatvecPlan {
    pub outer_entry_bb: usize,
    pub outer_exit_bb: usize,
    pub y_local: usize,
    pub a_local: usize,
    pub x_local: usize,
    /// The outer range's end `m`.
    pub m_op: Operand,
    /// The inner range's end `n`, the multiplier in `i * n + j`.
    pub n_op: Operand,
    pub fty: FloatTy,
}

/// The plan of a matrix-vector product, with the operands for `m` and `n`
/// as the body holds them: (outer entry, outer exit, y, a, x, m, n, float
/// type). The inner loop's header lies in the outer loop and differs from
/// its header; both loops have the range shape; the `1` arm of the outer
/// switch zeroes an `f64` accumulator (the last such statement); among the
/// inner loop's statements (header left out), in order: the first `t = i *
/// n`, the first `idx = t + j`, the first read `va = a[idx]`, the first
/// read `vx = x[j]` from another slice, the first product `va * vx`, and an
/// update `acc += product`; among the outer loop's other statements the
/// first `y[i] = acc`; y a `&mut [f64]`, a and x float slices of its type,
/// all three different; one edge enters the outer header from outside, one
/// enters that block from outside, and there the last `Range` gives `m`.
pub open spec fn matvec_plan(body: Body, outer: SimpleLoop, inner: SimpleLoop) -> Option<
    (usize, usize, usize, usize, usize, Operand, Operand, FloatTy),
> {
    if outer.header == inner.header || !outer.body@.contains(inner.header) {
        None
    } else {
        match (range_loop_shape(body, outer.header, outer.body@), range_loop_shape(body, inner.header, inner.body@)) {
            (Some((_oe, oexit, oi)), Some((_ie, _iexit, ii))) => {
                let om = alias_map(body, outer.body@);
                let im = alias_map(body, inner.body@);
                let ss = body_stmts(body, inner.body@, inner.header);
                match outer_some_arm(body, outer.header) {
                    None => None,
                    Some(arm) => match last_some(stmts_of(body, arm as int), zero_f64_f(body)) {
                        None => None,
                        Some(acc) => match first_some(ss, mul_by_i_f(om, oi)) {
                            None => None,
                            Some((t_mul, n_raw)) => match first_some(ss, add_j_f(im, ii, t_mul)) {
                                None => None,
                                Some(t_idx) => match first_some(ss, read_at_idx_f(im, t_idx)) {
                                    None => None,
                                    Some((va, a)) => match first_some(ss, read_at_j_f(im, ii, a)) {
                                        None => None,
                                        Some((vx, x)) => match first_some(
                                            ss,
                                            product_of_f(im, va, vx),
                                        ) {
                                            None => None,
                                            Some(t_prod) => if first_some(
                                                ss,
                                                acc_update_f(om, im, acc, t_prod),
                                            ) is None {
                                                None
                                            } else {
                                                match first_some(
                                                    outer_only_stmts(body, outer.body@, inner.body@, outer.header),
                                                    store_acc_f(om, oi, acc),
                                                ) {
                                                    None => None,
                                                    Some(y) => matvec_tail(body, outer, om, oexit, y, a, x, n_raw),
                                                }
                                            },
                                        },
                                    },
                                },
                            },
                        },
                    },
                }
            },
            _ => None,
        }
    }
}

/// The last checks of a matrix-vector product: the slices' types and
/// distinctness, the outer entry and the block before it, and `m`.
pub open spec fn matvec_tail(
    body: Body,
    outer: SimpleLoop,
    om: Map<usize, usize>,
    oexit: usize,
    y: usize,
    a: usize,
    x: usize,
    n_raw: Operand,
) -> Option<(usize, usize, usize, usize, usize, Operand, Operand, FloatTy)> {
    if ref_slice_float(local_ty(body, y), true) != Some(FloatTy::F64) || ref_slice_float(local_ty(body, a), false)
        != Some(FloatTy::F64) || ref_slice_float(local_ty(body, x), false) != Some(FloatTy::F64) || y == a || y == x
        || a == x {
        None
    } else {
        let preds = entry_preds(body, outer.header, outer.body@, body.num_blocks());
        if preds.len() != 1 {
            None
        } else {
            let e = preds[0];
            let pre = entry_preds(body, e, outer.body@, body.num_blocks());
            if pre.len() != 1 {
                None
            } else {
                match last_some(stmts_of(body, pre[0] as int), range_end_f()) {
                    None => None,
                    Some(m_raw) => Some((e, oexit, y, a, x, m_raw, n_raw, FloatTy::F64)),
                }
            }
        }
    }
}

// ── Exec forms of the steps ───────────────────────────────────────────

pub(crate) fn is_iv_exec(m: &BTreeMap<usize, usize>, i_root: usize, l: usize) -> (r: bool)
    ensures
        r == is_iv(m@, i_root, l),
{
    LoopShape::resolve(m, LoopShape::resolve(m, l)) == i_root
}

pub(crate) fn mul_by_i_of<'a>(s: &'a StatementKind, om: &BTreeMap<usize, usize>, oi: usize) -> (r: Option<(usize, &'a Operand)>)
    ensures
        match r {
            None => mul_by_i(*s, om@, oi) is None,
            Some((t, o)) => mul_by_i(*s, om@, oi) == Some((t, *o)),
        },
{
    match s {
        StatementKind::Assign(place, Rvalue::BinaryOp(op, lhs, rhs)) => {
            if place.projection.len() != 0 || !(*op == BinOp::Mul || *op == BinOp::MulUnchecked) {
                return None;
            }
            match bare_local_exec(lhs) {
                Some(l) => {
                    if is_iv_exec(om, oi, l) {
                        return Some((place.local, rhs));
                    }
                },
                None => {},
            }
            match bare_local_exec(rhs) {
                Some(l) => {
                    if is_iv_exec(om, oi, l) {
                        return Some((place.local, lhs));
                    }
                },
                None => {},
            }
            None
        },
        _ => None,
    }
}

pub(crate) fn first_mul_by_i<'a>(ss: &Vec<&'a StatementKind>, om: &BTreeMap<usize, usize>, oi: usize) -> (r: Option<(usize, &'a Operand)>)
    ensures
        match r {
            None => first_some(ss@.map_values(|t: &StatementKind| *t), mul_by_i_f(om@, oi)) is None,
            Some((t, o)) => first_some(ss@.map_values(|t: &StatementKind| *t), mul_by_i_f(om@, oi)) == Some((t, *o)),
        },
{
    let ghost sv = ss@.map_values(|t: &StatementKind| *t);
    let mut j: usize = 0;
    assert(sv.skip(0) =~= sv);
    while j < ss.len()
        invariant
            j <= ss@.len(),
            sv == ss@.map_values(|t: &StatementKind| *t),
            first_some(sv, mul_by_i_f(om@, oi)) == first_some(sv.skip(j as int), mul_by_i_f(om@, oi)),
        decreases ss@.len() - j,
    {
        proof {
            assert(sv.skip(j as int)[0] == sv[j as int]);
            assert(sv[j as int] == *ss@[j as int]);
            assert(sv.skip(j as int).skip(1) =~= sv.skip(j + 1));
        }
        match mul_by_i_of(ss[j], om, oi) {
            Some(x) => {
                return Some(x);
            },
            None => {},
        }
        j = j + 1;
    }
    None
}

pub(crate) fn add_j_of(s: &StatementKind, im: &BTreeMap<usize, usize>, ii: usize, t_mul: usize) -> (r: Option<usize>)
    ensures
        r == add_j(*s, im@, ii, t_mul),
{
    match s {
        StatementKind::Assign(place, Rvalue::BinaryOp(op, lhs, rhs)) => {
            if place.projection.len() != 0 || !(*op == BinOp::Add || *op == BinOp::AddUnchecked) {
                return None;
            }
            let tm = LoopShape::resolve(im, t_mul);
            let l1 = bare_local_exec(lhs);
            let l2 = bare_local_exec(rhs);
            let first = match (l1, l2) {
                (Some(ml), Some(jl)) => LoopShape::resolve(im, ml) == tm && is_iv_exec(im, ii, jl),
                _ => false,
            };
            let second = match (l2, l1) {
                (Some(ml), Some(jl)) => LoopShape::resolve(im, ml) == tm && is_iv_exec(im, ii, jl),
                _ => false,
            };
            if first || second {
                Some(place.local)
            } else {
                None
            }
        },
        _ => None,
    }
}

pub(crate) fn first_add_j(ss: &Vec<&StatementKind>, im: &BTreeMap<usize, usize>, ii: usize, t_mul: usize) -> (r: Option<usize>)
    ensures
        r == first_some(ss@.map_values(|t: &StatementKind| *t), add_j_f(im@, ii, t_mul)),
{
    let ghost sv = ss@.map_values(|t: &StatementKind| *t);
    let mut j: usize = 0;
    assert(sv.skip(0) =~= sv);
    while j < ss.len()
        invariant
            j <= ss@.len(),
            sv == ss@.map_values(|t: &StatementKind| *t),
            first_some(sv, add_j_f(im@, ii, t_mul)) == first_some(sv.skip(j as int), add_j_f(im@, ii, t_mul)),
        decreases ss@.len() - j,
    {
        proof {
            assert(sv.skip(j as int)[0] == sv[j as int]);
            assert(sv[j as int] == *ss@[j as int]);
            assert(sv.skip(j as int).skip(1) =~= sv.skip(j + 1));
        }
        match add_j_of(ss[j], im, ii, t_mul) {
            Some(x) => {
                return Some(x);
            },
            None => {},
        }
        j = j + 1;
    }
    None
}

pub(crate) fn read_at_idx_of(s: &StatementKind, im: &BTreeMap<usize, usize>, t_idx: usize) -> (r: Option<(usize, usize)>)
    ensures
        r == read_at_idx(*s, im@, t_idx),
{
    match s {
        StatementKind::Assign(place, Rvalue::Use(Operand::Copy(p))) | StatementKind::Assign(
            place,
            Rvalue::Use(Operand::Move(p)),
        ) => {
            if place.projection.len() != 0 || p.projection.len() < 2 || p.projection[0] != ProjectionElem::Deref {
                return None;
            }
            match p.projection[1] {
                ProjectionElem::Index(idx) => {
                    if LoopShape::resolve(im, idx) == LoopShape::resolve(im, t_idx) {
                        Some((place.local, LoopShape::resolve(im, p.local)))
                    } else {
                        None
                    }
                },
                _ => None,
            }
        },
        _ => None,
    }
}

pub(crate) fn first_read_at_idx(ss: &Vec<&StatementKind>, im: &BTreeMap<usize, usize>, t_idx: usize) -> (r: Option<(usize, usize)>)
    ensures
        r == first_some(ss@.map_values(|t: &StatementKind| *t), read_at_idx_f(im@, t_idx)),
{
    let ghost sv = ss@.map_values(|t: &StatementKind| *t);
    let mut j: usize = 0;
    assert(sv.skip(0) =~= sv);
    while j < ss.len()
        invariant
            j <= ss@.len(),
            sv == ss@.map_values(|t: &StatementKind| *t),
            first_some(sv, read_at_idx_f(im@, t_idx)) == first_some(sv.skip(j as int), read_at_idx_f(im@, t_idx)),
        decreases ss@.len() - j,
    {
        proof {
            assert(sv.skip(j as int)[0] == sv[j as int]);
            assert(sv[j as int] == *ss@[j as int]);
            assert(sv.skip(j as int).skip(1) =~= sv.skip(j + 1));
        }
        match read_at_idx_of(ss[j], im, t_idx) {
            Some(x) => {
                return Some(x);
            },
            None => {},
        }
        j = j + 1;
    }
    None
}

pub(crate) fn read_at_j_of(s: &StatementKind, im: &BTreeMap<usize, usize>, ii: usize, a: usize) -> (r: Option<(usize, usize)>)
    ensures
        r == read_at_j(*s, im@, ii, a),
{
    match s {
        StatementKind::Assign(place, Rvalue::Use(Operand::Copy(p))) | StatementKind::Assign(
            place,
            Rvalue::Use(Operand::Move(p)),
        ) => {
            if place.projection.len() != 0 || p.projection.len() < 2 || p.projection[0] != ProjectionElem::Deref {
                return None;
            }
            match p.projection[1] {
                ProjectionElem::Index(idx) => {
                    let src = LoopShape::resolve(im, p.local);
                    if is_iv_exec(im, ii, LoopShape::resolve(im, idx)) && src != a {
                        Some((place.local, src))
                    } else {
                        None
                    }
                },
                _ => None,
            }
        },
        _ => None,
    }
}

pub(crate) fn first_read_at_j(ss: &Vec<&StatementKind>, im: &BTreeMap<usize, usize>, ii: usize, a: usize) -> (r: Option<(usize, usize)>)
    ensures
        r == first_some(ss@.map_values(|t: &StatementKind| *t), read_at_j_f(im@, ii, a)),
{
    let ghost sv = ss@.map_values(|t: &StatementKind| *t);
    let mut j: usize = 0;
    assert(sv.skip(0) =~= sv);
    while j < ss.len()
        invariant
            j <= ss@.len(),
            sv == ss@.map_values(|t: &StatementKind| *t),
            first_some(sv, read_at_j_f(im@, ii, a)) == first_some(sv.skip(j as int), read_at_j_f(im@, ii, a)),
        decreases ss@.len() - j,
    {
        proof {
            assert(sv.skip(j as int)[0] == sv[j as int]);
            assert(sv[j as int] == *ss@[j as int]);
            assert(sv.skip(j as int).skip(1) =~= sv.skip(j + 1));
        }
        match read_at_j_of(ss[j], im, ii, a) {
            Some(x) => {
                return Some(x);
            },
            None => {},
        }
        j = j + 1;
    }
    None
}

pub(crate) fn product_of_exec(s: &StatementKind, im: &BTreeMap<usize, usize>, va: usize, vx: usize) -> (r: Option<usize>)
    ensures
        r == product_of(*s, im@, va, vx),
{
    match s {
        StatementKind::Assign(place, Rvalue::BinaryOp(op, lhs, rhs)) => {
            if place.projection.len() != 0 || !(*op == BinOp::Mul || *op == BinOp::MulUnchecked) {
                return None;
            }
            let rva = LoopShape::resolve(im, va);
            let rvx = LoopShape::resolve(im, vx);
            let l1 = bare_local_exec(lhs);
            let l2 = bare_local_exec(rhs);
            let first = match (l1, l2) {
                (Some(lx), Some(ly)) => LoopShape::resolve(im, lx) == rva && LoopShape::resolve(im, ly) == rvx,
                _ => false,
            };
            let second = match (l2, l1) {
                (Some(lx), Some(ly)) => LoopShape::resolve(im, lx) == rva && LoopShape::resolve(im, ly) == rvx,
                _ => false,
            };
            if first || second {
                Some(place.local)
            } else {
                None
            }
        },
        _ => None,
    }
}

pub(crate) fn first_product_of(ss: &Vec<&StatementKind>, im: &BTreeMap<usize, usize>, va: usize, vx: usize) -> (r: Option<usize>)
    ensures
        r == first_some(ss@.map_values(|t: &StatementKind| *t), product_of_f(im@, va, vx)),
{
    let ghost sv = ss@.map_values(|t: &StatementKind| *t);
    let mut j: usize = 0;
    assert(sv.skip(0) =~= sv);
    while j < ss.len()
        invariant
            j <= ss@.len(),
            sv == ss@.map_values(|t: &StatementKind| *t),
            first_some(sv, product_of_f(im@, va, vx)) == first_some(sv.skip(j as int), product_of_f(im@, va, vx)),
        decreases ss@.len() - j,
    {
        proof {
            assert(sv.skip(j as int)[0] == sv[j as int]);
            assert(sv[j as int] == *ss@[j as int]);
            assert(sv.skip(j as int).skip(1) =~= sv.skip(j + 1));
        }
        match product_of_exec(ss[j], im, va, vx) {
            Some(x) => {
                return Some(x);
            },
            None => {},
        }
        j = j + 1;
    }
    None
}

pub(crate) fn acc_update_of(
    s: &StatementKind,
    om: &BTreeMap<usize, usize>,
    im: &BTreeMap<usize, usize>,
    acc: usize,
    t_prod: usize,
) -> (r: Option<()>)
    ensures
        r == acc_update(*s, om@, im@, acc, t_prod),
{
    match s {
        StatementKind::Assign(place, Rvalue::BinaryOp(op, lhs, rhs)) => {
            let racc = LoopShape::resolve(om, acc);
            if place.projection.len() != 0 || LoopShape::resolve(om, place.local) != racc || !(*op == BinOp::Add || *op
                == BinOp::AddUnchecked) {
                return None;
            }
            let rt = LoopShape::resolve(im, t_prod);
            let l1 = bare_local_exec(lhs);
            let l2 = bare_local_exec(rhs);
            let first = match (l1, l2) {
                (Some(la), Some(lb)) => LoopShape::resolve(om, la) == racc && LoopShape::resolve(im, lb) == rt,
                _ => false,
            };
            let second = match (l2, l1) {
                (Some(la), Some(lb)) => LoopShape::resolve(om, la) == racc && LoopShape::resolve(im, lb) == rt,
                _ => false,
            };
            if first || second {
                Some(())
            } else {
                None
            }
        },
        _ => None,
    }
}

pub(crate) fn first_acc_update(
    ss: &Vec<&StatementKind>,
    om: &BTreeMap<usize, usize>,
    im: &BTreeMap<usize, usize>,
    acc: usize,
    t_prod: usize,
) -> (r: Option<()>)
    ensures
        r == first_some(ss@.map_values(|t: &StatementKind| *t), acc_update_f(om@, im@, acc, t_prod)),
{
    let ghost sv = ss@.map_values(|t: &StatementKind| *t);
    let mut j: usize = 0;
    assert(sv.skip(0) =~= sv);
    while j < ss.len()
        invariant
            j <= ss@.len(),
            sv == ss@.map_values(|t: &StatementKind| *t),
            first_some(sv, acc_update_f(om@, im@, acc, t_prod)) == first_some(
                sv.skip(j as int),
                acc_update_f(om@, im@, acc, t_prod),
            ),
        decreases ss@.len() - j,
    {
        proof {
            assert(sv.skip(j as int)[0] == sv[j as int]);
            assert(sv[j as int] == *ss@[j as int]);
            assert(sv.skip(j as int).skip(1) =~= sv.skip(j + 1));
        }
        match acc_update_of(ss[j], om, im, acc, t_prod) {
            Some(x) => {
                return Some(x);
            },
            None => {},
        }
        j = j + 1;
    }
    None
}

pub(crate) fn store_acc_of(s: &StatementKind, om: &BTreeMap<usize, usize>, oi: usize, acc: usize) -> (r: Option<usize>)
    ensures
        r == store_acc(*s, om@, oi, acc),
{
    match s {
        StatementKind::Assign(place, Rvalue::Use(o)) => {
            if place.projection.len() < 2 || place.projection[0] != ProjectionElem::Deref {
                return None;
            }
            let idx_ok = match place.projection[1] {
                ProjectionElem::Index(idx) => is_iv_exec(om, oi, LoopShape::resolve(om, idx)),
                _ => false,
            };
            if !idx_ok {
                return None;
            }
            match o {
                Operand::Copy(p) | Operand::Move(p) => {
                    if p.projection.len() == 0 && LoopShape::resolve(om, p.local) == LoopShape::resolve(om, acc) {
                        Some(LoopShape::resolve(om, place.local))
                    } else {
                        None
                    }
                },
                Operand::Constant(_) => None,
            }
        },
        _ => None,
    }
}

pub(crate) fn zero_f64_of(body: &Body, s: &StatementKind) -> (r: Option<usize>)
    ensures
        r == zero_f64(*body, *s),
{
    match s {
        StatementKind::Assign(place, Rvalue::Use(Operand::Constant(c))) => {
            if place.projection.len() == 0 && eval_const_bits(c) == Some(0u128) && local_ty_of(body, place.local)
                == LocalTy::Scalar(ScalarTy::F64) {
                Some(place.local)
            } else {
                None
            }
        },
        _ => None,
    }
}

pub(crate) fn last_zero_f64(body: &Body, ss: &Vec<StatementKind>) -> (r: Option<usize>)
    ensures
        r == last_some(ss@, zero_f64_f(*body)),
{
    let mut j: usize = ss.len();
    assert(ss@.take(j as int) =~= ss@);
    while j > 0
        invariant
            j <= ss@.len(),
            last_some(ss@, zero_f64_f(*body)) == last_some(ss@.take(j as int), zero_f64_f(*body)),
        decreases j,
    {
        proof {
            lemma_prefix_step(ss@, j - 1);
        }
        match zero_f64_of(body, &ss[j - 1]) {
            Some(x) => {
                return Some(x);
            },
            None => {},
        }
        j = j - 1;
    }
    None
}

pub(crate) fn range_end_of(s: &StatementKind) -> (r: Option<&Operand>)
    ensures
        match r {
            None => range_end(*s) is None,
            Some(o) => range_end(*s) == Some(*o),
        },
{
    match s {
        StatementKind::Assign(_, Rvalue::Aggregate(AggregateKind::Adt { path, .. }, fields)) => {
            if ends_with_str(path.as_str(), "Range") && fields.len() == 2 {
                Some(&fields[1])
            } else {
                None
            }
        },
        _ => None,
    }
}

pub(crate) fn last_range_end(ss: &Vec<StatementKind>) -> (r: Option<&Operand>)
    ensures
        match r {
            None => last_some(ss@, range_end_f()) is None,
            Some(o) => last_some(ss@, range_end_f()) == Some(*o),
        },
{
    let mut j: usize = ss.len();
    assert(ss@.take(j as int) =~= ss@);
    while j > 0
        invariant
            j <= ss@.len(),
            last_some(ss@, range_end_f()) == last_some(ss@.take(j as int), range_end_f()),
        decreases j,
    {
        proof {
            lemma_prefix_step(ss@, j - 1);
        }
        match range_end_of(&ss[j - 1]) {
            Some(x) => {
                return Some(x);
            },
            None => {},
        }
        j = j - 1;
    }
    None
}

pub(crate) fn resolve_operand(o: &Operand, m: &BTreeMap<usize, usize>) -> (r: Operand)
    ensures
        resolved_as(r, *o, m@),
{
    match bare_local_exec(o) {
        Some(l) => Operand::Copy(Place { local: LoopShape::resolve(m, l), projection: Vec::new() }),
        None => copy_operand(o),
    }
}

pub(crate) fn outer_only_refs<'a>(body: &'a Body, outer: &SimpleLoop, inner: &SimpleLoop) -> (r: Vec<&'a StatementKind>)
    requires
        loop_ok(*body, outer.body@),
    ensures
        r@.map_values(|t: &StatementKind| *t) == outer_only_stmts(*body, outer.body@, inner.body@, outer.header),
{
    let mut r: Vec<&'a StatementKind> = Vec::new();
    let mut k: usize = 0;
    while k < outer.body.len()
        invariant
            k <= outer.body@.len(),
            loop_ok(*body, outer.body@),
            r@.len() == outer_only_stmts(*body, outer.body@.take(k as int), inner.body@, outer.header).len(),
            forall|q: int|
                0 <= q < r@.len() ==> *r@[q] == outer_only_stmts(*body, outer.body@.take(k as int), inner.body@, outer.header)[q],
        decreases outer.body@.len() - k,
    {
        let bb = outer.body[k];
        let ghost prev = outer_only_stmts(*body, outer.body@.take(k as int), inner.body@, outer.header);
        proof {
            assert(outer.body@.take(k + 1).drop_last() =~= outer.body@.take(k as int));
        }
        if !contains_usize(&inner.body, bb) && bb != outer.header {
            let stmts = &body.basic_blocks[bb].statements;
            let ghost start = r@.len();
            let ghost rb = r@;
            let mut i: usize = 0;
            while i < stmts.len()
                invariant
                    i <= stmts@.len(),
                    r@.len() == start + i,
                    forall|q: int| 0 <= q < start ==> r@[q] == rb[q],
                    forall|q: int| 0 <= q < i ==> *r@[start + q] == stmts@[q],
                decreases stmts@.len() - i,
            {
                r.push(&stmts[i]);
                i = i + 1;
            }
            proof {
                assert(outer_only_stmts(*body, outer.body@.take(k + 1), inner.body@, outer.header) =~= prev + stmts@);
                assert forall|q: int| 0 <= q < r@.len() implies *r@[q] == (prev + stmts@)[q] by {
                    if q < start {
                        assert(r@[q] == rb[q]);
                    } else {
                        assert(*r@[start + (q - start)] == stmts@[q - start]);
                    }
                }
            }
        } else {
            proof {
                assert(outer_only_stmts(*body, outer.body@.take(k + 1), inner.body@, outer.header) =~= prev);
            }
        }
        k = k + 1;
    }
    proof {
        assert(outer.body@.take(k as int) =~= outer.body@);
        assert(r@.map_values(|t: &StatementKind| *t) =~= outer_only_stmts(*body, outer.body@, inner.body@, outer.header));
    }
    r
}

pub(crate) fn first_store_acc(ss: &Vec<&StatementKind>, om: &BTreeMap<usize, usize>, oi: usize, acc: usize) -> (r: Option<usize>)
    ensures
        r == first_some(ss@.map_values(|t: &StatementKind| *t), store_acc_f(om@, oi, acc)),
{
    let ghost sv = ss@.map_values(|t: &StatementKind| *t);
    let mut j: usize = 0;
    assert(sv.skip(0) =~= sv);
    while j < ss.len()
        invariant
            j <= ss@.len(),
            sv == ss@.map_values(|t: &StatementKind| *t),
            first_some(sv, store_acc_f(om@, oi, acc)) == first_some(sv.skip(j as int), store_acc_f(om@, oi, acc)),
        decreases ss@.len() - j,
    {
        proof {
            assert(sv.skip(j as int)[0] == sv[j as int]);
            assert(sv[j as int] == *ss@[j as int]);
            assert(sv.skip(j as int).skip(1) =~= sv.skip(j + 1));
        }
        match store_acc_of(ss[j], om, oi, acc) {
            Some(x) => {
                return Some(x);
            },
            None => {},
        }
        j = j + 1;
    }
    None
}

pub(crate) fn outer_some_arm_of(body: &Body, header: usize) -> (r: Option<usize>)
    requires
        header < body.num_blocks(),
        body.targets_valid(),
    ensures
        r == outer_some_arm(*body, header),
{
    proof {
        assert(body.basic_blocks@[header as int].terminator is Some ==> crate::mir::terminator_targets_ok(
            body.basic_blocks@[header as int].terminator->0,
            body.num_blocks(),
        ));
    }
    match &body.basic_blocks[header].terminator {
        Some(TerminatorKind::Call { target: Some(post), .. }) => match &body.basic_blocks[*post].terminator {
            Some(TerminatorKind::SwitchInt { targets, .. }) => last_target_for_exec(targets, 1),
            _ => None,
        },
        _ => None,
    }
}

/// Matches a matrix-vector product over an outer range loop and an inner
/// one: `y[i] = sum_j a[i * n + j] * x[j]`.
pub fn analyze_matvec_loops(body: &Body, outer: &SimpleLoop, inner: &SimpleLoop) -> (r: Option<MatvecPlan>)
    requires
        body.targets_valid(),
        body.all_terminated(),
        loop_ok(*body, outer.body@),
        loop_ok(*body, inner.body@),
        outer.header < body.num_blocks(),
        inner.header < body.num_blocks(),
    ensures
        match r {
            None => matvec_plan(*body, *outer, *inner) is None,
            Some(p) => matvec_plan(*body, *outer, *inner) matches Some(v) && p.outer_entry_bb == v.0
                && p.outer_exit_bb == v.1 && p.y_local == v.2 && p.a_local == v.3 && p.x_local == v.4
                && resolved_as(p.m_op, v.5, alias_map(*body, outer.body@)) && resolved_as(
                p.n_op,
                v.6,
                alias_map(*body, outer.body@),
            ) && p.fty == v.7,
        },
{
    if outer.header == inner.header || !contains_usize(&outer.body, inner.header) {
        return None;
    }
    let oshape = match detect_range_loop_shape(body, outer) {
        Some(s) => s,
        None => {
            return None;
        },
    };
    let ishape = match detect_range_loop_shape(body, inner) {
        Some(s) => s,
        None => {
            return None;
        },
    };
    let om = &oshape.alias_root;
    let im = &ishape.alias_root;
    let oi = oshape.i_root;
    let ii = ishape.i_root;
    let arm = match outer_some_arm_of(body, outer.header) {
        Some(a) => a,
        None => {
            return None;
        },
    };
    proof {
        assert(body.basic_blocks@[outer.header as int].terminator is Some);
        assert(crate::mir::terminator_targets_ok(body.basic_blocks@[outer.header as int].terminator->0, body.num_blocks()));
        let post = body.basic_blocks@[outer.header as int].terminator->0->Call_target->0;
        assert(body.basic_blocks@[post as int].terminator is Some);
        assert(crate::mir::terminator_targets_ok(body.basic_blocks@[post as int].terminator->0, body.num_blocks()));
        crate::shape::lemma_last_target_in(body.basic_blocks@[post as int].terminator->0->SwitchInt_targets@, 1, body.num_blocks());
    }
    let acc = match last_zero_f64(body, &body.basic_blocks[arm].statements) {
        Some(a) => a,
        None => {
            return None;
        },
    };
    let ss = loop_stmts(body, inner, true);
    proof {
        assert(ss@.map_values(|t: &StatementKind| *t) =~= body_stmts(*body, inner.body@, inner.header));
    }
    let (t_mul, n_raw) = match first_mul_by_i(&ss, om, oi) {
        Some(x) => x,
        None => {
            return None;
        },
    };
    let t_idx = match first_add_j(&ss, im, ii, t_mul) {
        Some(x) => x,
        None => {
            return None;
        },
    };
    let (va, a) = match first_read_at_idx(&ss, im, t_idx) {
        Some(x) => x,
        None => {
            return None;
        },
    };
    let (vx, x) = match first_read_at_j(&ss, im, ii, a) {
        Some(p) => p,
        None => {
            return None;
        },
    };
    let t_prod = match first_product_of(&ss, im, va, vx) {
        Some(t) => t,
        None => {
            return None;
        },
    };
    if first_acc_update(&ss, om, im, acc, t_prod).is_none() {
        return None;
    }
    let outer_ss = outer_only_refs(body, outer, inner);
    let y = match first_store_acc(&outer_ss, om, oi, acc) {
        Some(y) => y,
        None => {
            return None;
        },
    };
    if ref_slice_float_ty(local_ty_of(body, y), true) != Some(FloatTy::F64) || ref_slice_float_ty(local_ty_of(body, a), false)
        != Some(FloatTy::F64) || ref_slice_float_ty(local_ty_of(body, x), false) != Some(FloatTy::F64) || y == a || y
        == x || a == x {
        return None;
    }
    let e = match unique_entry_pred(body, outer, outer.header) {
        Some(e) => e,
        None => {
            return None;
        },
    };
    proof {
        lemma_entry_preds_bounded(*body, outer.header, outer.body@, body.num_blocks());
    }
    let pre = match unique_entry_pred(body, outer, e) {
        Some(p) => p,
        None => {
            return None;
        },
    };
    proof {
        lemma_entry_preds_bounded(*body, e, outer.body@, body.num_blocks());
    }
    let m_raw = match last_range_end(&body.basic_blocks[pre].statements) {
        Some(o) => o,
        None => {
            return None;
        },
    };
    Some(
        MatvecPlan {
            outer_entry_bb: e,
            outer_exit_bb: oshape.exit_bb,
            y_local: y,
            a_local: a,
            x_local: x,
            m_op: resolve_operand(m_raw, om),
            n_op: resolve_operand(n_raw, om),
            fty: FloatTy::F64,
        },
    )
}

// ── 1-D convolution ───────────────────────────────────────────────────

/// `idx = i + k` (or `k + i`) into a bare local, `i` the outer induction
/// variable and `k` the inner one: idx.
pub open spec fn add_i_k(s: StatementKind, om: Map<usize, usize>, oi: usize, im: Map<usize, usize>, ii: usize) -> Option<usize> {
    match s {
        StatementKind::Assign(place, Rvalue::BinaryOp(op, lhs, rhs)) => if place.projection@.len() == 0 && (op
            == BinOp::Add || op == BinOp::AddUnchecked) {
            let ord = |io: Operand, ko: Operand|
                bare_local(io) matches Some(il) && is_iv(om, oi, il) && (bare_local(ko) matches Some(kl) && is_iv(
                    im,
                    ii,
                    kl,
                ));
            if ord(lhs, rhs) || ord(rhs, lhs) {
                Some(place.local)
            } else {
                None
            }
        } else {
            None
        },
        _ => None,
    }
}

pub open spec fn add_i_k_f(om: Map<usize, usize>, oi: usize, im: Map<usize, usize>, ii: usize) -> spec_fn(StatementKind) -> Option<usize> {
    |s: StatementKind| add_i_k(s, om, oi, im, ii)
}

/// The statements of the blocks, in index order, that lie in the outer
/// loop and not in the inner one, from block `b` on.
pub open spec fn outer_blocks_stmts(body: Body, outer: Seq<usize>, inner: Seq<usize>, b: nat) -> Seq<StatementKind>
    decreases b,
{
    if b == 0 {
        Seq::empty()
    } else {
        outer_blocks_stmts(body, outer, inner, (b - 1) as nat) + if outer.contains((b - 1) as usize) && !inner.contains(
            (b - 1) as usize,
        ) {
            stmts_of(body, b - 1)
        } else {
            Seq::empty()
        }
    }
}

/// The plan of a 1-D convolution, with the kernel size's operand as the
/// body holds it: (outer entry, outer exit, y, x, w, kernel size, float
/// type). As for a matrix-vector product, with `idx = i + k` in place of
/// `i * n + j`, the reads `x[idx]` and (from another slice) `w[k]`, and the
/// kernel size the end of the last `Range` built in the outer loop outside
/// the inner one.
pub open spec fn conv1d_plan(body: Body, outer: SimpleLoop, inner: SimpleLoop) -> Option<
    (usize, usize, usize, usize, usize, Operand, FloatTy),
> {
    if outer.header == inner.header || !outer.body@.contains(inner.header) {
        None
    } else {
        match (range_loop_shape(body, outer.header, outer.body@), range_loop_shape(body, inner.header, inner.body@)) {
            (Some((_oe, oexit, oi)), Some((_ie, _iexit, ii))) => {
                let om = alias_map(body, outer.body@);
                let im = alias_map(body, inner.body@);
                let ss = body_stmts(body, inner.body@, inner.header);
                match outer_some_arm(body, outer.header) {
                    None => None,
                    Some(arm) => match last_some(stmts_of(body, arm as int), zero_f64_f(body)) {
                        None => None,
                        Some(acc) => match first_some(ss, add_i_k_f(om, oi, im, ii)) {
                            None => None,
                            Some(t_idx) => match first_some(ss, read_at_idx_f(im, t_idx)) {
                                None => None,
                                Some((vx, x)) => match first_some(ss, read_at_j_f(im, ii, x)) {
                                    None => None,
                                    Some((vw, w)) => match first_some(ss, product_of_f(im, vx, vw)) {
                                        None => None,
                                        Some(t_prod) => if first_some(ss, acc_update_f(om, im, acc, t_prod)) is None {
                                            None
                                        } else {
                                            match first_some(
                                                outer_only_stmts(body, outer.body@, inner.body@, outer.header),
                                                store_acc_f(om, oi, acc),
                                            ) {
                                                None => None,
                                                Some(y) => if ref_slice_float(local_ty(body, y), true) != Some(FloatTy::F64)
                                                    || ref_slice_float(local_ty(body, x), false) != Some(FloatTy::F64)
                                                    || ref_slice_float(local_ty(body, w), false) != Some(FloatTy::F64)
                                                    || y == x || y == w || x == w {
                                                    None
                                                } else {
                                                    let preds = entry_preds(body, outer.header, outer.body@, body.num_blocks());
                                                    if preds.len() != 1 {
                                                        None
                                                    } else {
                                                        match last_some(
                                                            outer_blocks_stmts(body, outer.body@, inner.body@, body.num_blocks()),
                                                            range_end_f(),
                                                        ) {
                                                            None => None,
                                                            Some(ks) => Some((preds[0], oexit, y, x, w, ks, FloatTy::F64)),
                                                        }
                                                    }
                                                },
                                            }
                                        },
                                    },
                                },
                            },
                        },
                    },
                }
            },
            _ => None,
        }
    }
}

/// A 1-D convolution to hand to a helper.
#[derive(Debug)]
pub struct Conv1dPlan {
    pub outer_entry_bb: usize,
    pub outer_exit_bb: usize,
    pub y_local: usize,
    pub x_local: usize,
    pub w_local: usize,
    /// The input's length is taken from `x` when the helper is called: a
    /// copy of `x`.
    pub n_op: Operand,
    /// The kernel size.
    pub ks_op: Operand,
    pub fty: FloatTy,
}

fn add_i_k_of(s: &StatementKind, om: &BTreeMap<usize, usize>, oi: usize, im: &BTreeMap<usize, usize>, ii: usize) -> (r: Option<usize>)
    ensures
        r == add_i_k(*s, om@, oi, im@, ii),
{
    match s {
        StatementKind::Assign(place, Rvalue::BinaryOp(op, lhs, rhs)) => {
            if place.projection.len() != 0 || !(*op == BinOp::Add || *op == BinOp::AddUnchecked) {
                return None;
            }
            let l1 = bare_local_exec(lhs);
            let l2 = bare_local_exec(rhs);
            let first = match (l1, l2) {
                (Some(il), Some(kl)) => is_iv_exec(om, oi, il) && is_iv_exec(im, ii, kl),
                _ => false,
            };
            let second = match (l2, l1) {
                (Some(il), Some(kl)) => is_iv_exec(om, oi, il) && is_iv_exec(im, ii, kl),
                _ => false,
            };
            if first || second {
                Some(place.local)
            } else {
                None
            }
        },
        _ => None,
    }
}

fn first_add_i_k(ss: &Vec<&StatementKind>, om: &BTreeMap<usize, usize>, oi: usize, im: &BTreeMap<usize, usize>, ii: usize) -> (r: Option<usize>)
    ensures
        r == first_some(ss@.map_values(|t: &StatementKind| *t), add_i_k_f(om@, oi, im@, ii)),
{
    let ghost sv = ss@.map_values(|t: &StatementKind| *t);
    let mut j: usize = 0;
    assert(sv.skip(0) =~= sv);
    while j < ss.len()
        invariant
            j <= ss@.len(),
            sv == ss@.map_values(|t: &StatementKind| *t),
            first_some(sv, add_i_k_f(om@, oi, im@, ii)) == first_some(sv.skip(j as int), add_i_k_f(om@, oi, im@, ii)),
        decreases ss@.len() - j,
    {
        proof {
            assert(sv.skip(j as int)[0] == sv[j as int]);
            assert(sv[j as int] == *ss@[j as int]);
            assert(sv.skip(j as int).skip(1) =~= sv.skip(j + 1));
        }
        match add_i_k_of(ss[j], om, oi, im, ii) {
            Some(x) => {
                return Some(x);
            },
            None => {},
        }
        j = j + 1;
    }
    None
}

fn last_range_end_in_outer<'a>(body: &'a Body, outer: &SimpleLoop, inner: &SimpleLoop) -> (r: Option<&'a Operand>)
    ensures
        match r {
            None => last_some(outer_blocks_stmts(*body, outer.body@, inner.body@, body.num_blocks()), range_end_f()) is None,
            Some(o) => last_some(outer_blocks_stmts(*body, outer.body@, inner.body@, body.num_blocks()), range_end_f())
                == Some(*o),
        },
{
    let mut b: usize = body.basic_blocks.len();
    while b > 0
        invariant
            b <= body.num_blocks(),
            last_some(outer_blocks_stmts(*body, outer.body@, inner.body@, body.num_blocks()), range_end_f()) == last_some(
                outer_blocks_stmts(*body, outer.body@, inner.body@, b as nat),
                range_end_f(),
            ),
        decreases b,
    {
        let bb = b - 1;
        let ghost prev = outer_blocks_stmts(*body, outer.body@, inner.body@, bb as nat);
        if contains_usize(&outer.body, bb) && !contains_usize(&inner.body, bb) {
            let stmts = &body.basic_blocks[bb].statements;
            let mut j: usize = stmts.len();
            proof {
                assert(outer_blocks_stmts(*body, outer.body@, inner.body@, b as nat) =~= prev + stmts@);
                assert(stmts@.take(j as int) =~= stmts@);
            }
            while j > 0
                invariant
                    j <= stmts@.len(),
                    stmts@ == stmts_of(*body, bb as int),
                    last_some(outer_blocks_stmts(*body, outer.body@, inner.body@, body.num_blocks()), range_end_f())
                        == last_some(prev + stmts@.take(j as int), range_end_f()),
                decreases j,
            {
                proof {
                    assert((prev + stmts@.take(j as int)).drop_last() =~= prev + stmts@.take(j - 1));
                    assert((prev + stmts@.take(j as int)).last() == stmts@[j - 1]);
                }
                match range_end_of(&stmts[j - 1]) {
                    Some(o) => {
                        return Some(o);
                    },
                    None => {},
                }
                j = j - 1;
            }
            proof {
                assert(prev + stmts@.take(0) =~= prev);
            }
        } else {
            proof {
                assert(outer_blocks_stmts(*body, outer.body@, inner.body@, b as nat) =~= prev);
            }
        }
        b = b - 1;
    }
    None
}

/// Matches a 1-D convolution over an outer range loop and an inner one:
/// `y[i] = sum_k x[i + k] * w[k]`.
pub fn analyze_conv1d_loops(body: &Body, outer: &SimpleLoop, inner: &SimpleLoop) -> (r: Option<Conv1dPlan>)
    requires
        body.targets_valid(),
        body.all_terminated(),
        loop_ok(*body, outer.body@),
        loop_ok(*body, inner.body@),
        outer.header < body.num_blocks(),
        inner.header < body.num_blocks(),
    ensures
        match r {
            None => conv1d_plan(*body, *outer, *inner) is None,
            Some(p) => conv1d_plan(*body, *outer, *inner) matches Some(v) && p.outer_entry_bb == v.0
                && p.outer_exit_bb == v.1 && p.y_local == v.2 && p.x_local == v.3 && p.w_local == v.4
                && resolved_as(p.ks_op, v.5, alias_map(*body, outer.body@)) && (p.n_op matches Operand::Copy(q)
                && q.local == v.3 && q.projection@.len() == 0) && p.fty == v.6,
        },
{
    if outer.header == inner.header || !contains_usize(&outer.body, inner.header) {
        return None;
    }
    let oshape = match detect_range_loop_shape(body, outer) {
        Some(s) => s,
        None => {
            return None;
        },
    };
    let ishape = match detect_range_loop_shape(body, inner) {
        Some(s) => s,
        None => {
            return None;
        },
    };
    let om = &oshape.alias_root;
    let im = &ishape.alias_root;
    let oi = oshape.i_root;
    let ii = ishape.i_root;
    let arm = match outer_some_arm_of(body, outer.header) {
        Some(a) => a,
        None => {
            return None;
        },
    };
    proof {
        assert(body.basic_blocks@[outer.header as int].terminator is Some);
        assert(crate::mir::terminator_targets_ok(body.basic_blocks@[outer.header as int].terminator->0, body.num_blocks()));
        let post = body.basic_blocks@[outer.header as int].terminator->0->Call_target->0;
        assert(body.basic_blocks@[post as int].terminator is Some);
        assert(crate::mir::terminator_targets_ok(body.basic_blocks@[post as int].terminator->0, body.num_blocks()));
        crate::shape::lemma_last_target_in(body.basic_blocks@[post as int].terminator->0->SwitchInt_targets@, 1, body.num_blocks());
    }
    let acc = match last_zero_f64(body, &body.basic_blocks[arm].statements) {
        Some(a) => a,
        None => {
            return None;
        },
    };
    let ss = loop_stmts(body, inner, true);
    proof {
        assert(ss@.map_values(|t: &StatementKind| *t) =~= body_stmts(*body, inner.body@, inner.header));
    }
    let t_idx = match first_add_i_k(&ss, om, oi, im, ii) {
        Some(x) => x,
        None => {
            return None;
        },
    };
    let (vx, x) = match first_read_at_idx(&ss, im, t_idx) {
        Some(p) => p,
        None => {
            return None;
        },
    };
    let (vw, w) = match first_read_at_j(&ss, im, ii, x) {
        Some(p) => p,
        None => {
            return None;
        },
    };
    let t_prod = match first_product_of(&ss, im, vx, vw) {
        Some(t) => t,
        None => {
            return None;
        },
    };
    if first_acc_update(&ss, om, im, acc, t_prod).is_none() {
        return None;
    }
    let outer_ss = outer_only_refs(body, outer, inner);
    let y = match first_store_acc(&outer_ss, om, oi, acc) {
        Some(y) => y,
        None => {
            return None;
        },
    };
    if ref_slice_float_ty(local_ty_of(body, y), true) != Some(FloatTy::F64) || ref_slice_float_ty(local_ty_of(body, x), false)
        != Some(FloatTy::F64) || ref_slice_float_ty(local_ty_of(body, w), false) != Some(FloatTy::F64) || y == x || y
        == w || x == w {
        return None;
    }
    let e = match unique_entry_pred(body, outer, outer.header) {
        Some(e) => e,
        None => {
            return None;
        },
    };
    let ks_raw = match last_range_end_in_outer(body, outer, inner) {
        Some(o) => o,
        None => {
            return None;
        },
    };
    Some(
        Conv1dPlan {
            outer_entry_bb: e,
            outer_exit_bb: oshape.exit_bb,
            y_local: y,
            x_local: x,
            w_local: w,
            n_op: Operand::Copy(Place { local: x, projection: Vec::new() }),
            ks_op: resolve_operand(ks_raw, om),
            fty: FloatTy::F64,
        },
    )
}

} // verus!
