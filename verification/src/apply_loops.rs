//! Element-wise loops over a range that write one float slice from values
//! read at the same index: `y[i] *= alpha` (scale), `y[i] = x[i].f()` for a
//! unary float method (unary apply) and `y[i] = a[i].f(b[i])` for a binary
//! one (binary apply).
use vstd::prelude::*;
use std::collections::BTreeMap;
use crate::mir::{Body, StatementKind, TerminatorKind, Operand, Rvalue, BinOp, Const, LocalTy, local_ty, local_ty_of};
use crate::idioms::{ScalarTy, FloatTy, is_unary_apply_method, is_binary_apply_method, unary_helper_name, binary_helper_name};
use crate::detect::{SimpleLoop, loop_ok, stmts_of, term_of};
use crate::shape::{alias_walk, alias_map, range_loop_shape, detect_range_loop_shape, LoopShape, bare_local};
use crate::axpy::{
    i_indexed, op_place, self_indexed, body_stmts, ref_slice_float, ref_slice_float_ty, i_indexed_exec,
    self_indexed_exec, bare_local_exec,
};
use crate::text::{last_segment, last_path_segment, ends_with_text, ends_with_str};
use crate::chains::{const_bits, eval_const_bits};

verus! {

/// The statements of all the loop's blocks, in order.
pub open spec fn all_stmts(body: Body, blocks: Seq<usize>) -> Seq<StatementKind>
    decreases blocks.len(),
{
    if blocks.len() == 0 {
        Seq::empty()
    } else {
        all_stmts(body, blocks.drop_last()) + stmts_of(body, blocks.last() as int)
    }
}

/// The statements of the loop's blocks, in order, leaving out the header's
/// when `skip_header` holds.
pub(crate) fn loop_stmts<'a>(body: &'a Body, lp: &SimpleLoop, skip_header: bool) -> (r: Vec<&'a StatementKind>)
    requires
        loop_ok(*body, lp.body@),
    ensures
        skip_header ==> r@.len() == body_stmts(*body, lp.body@, lp.header).len(),
        skip_header ==> forall|i: int| 0 <= i < r@.len() ==> *r@[i] == body_stmts(*body, lp.body@, lp.header)[i],
        !skip_header ==> r@.len() == all_stmts(*body, lp.body@).len(),
        !skip_header ==> forall|i: int| 0 <= i < r@.len() ==> *r@[i] == all_stmts(*body, lp.body@)[i],
{
    let mut r: Vec<&'a StatementKind> = Vec::new();
    let mut k: usize = 0;
    while k < lp.body.len()
        invariant
            k <= lp.body@.len(),
            loop_ok(*body, lp.body@),
            skip_header ==> r@.len() == body_stmts(*body, lp.body@.take(k as int), lp.header).len(),
            skip_header ==> forall|i: int|
                0 <= i < r@.len() ==> *r@[i] == body_stmts(*body, lp.body@.take(k as int), lp.header)[i],
            !skip_header ==> r@.len() == all_stmts(*body, lp.body@.take(k as int)).len(),
            !skip_header ==> forall|i: int| 0 <= i < r@.len() ==> *r@[i] == all_stmts(*body, lp.body@.take(k as int))[i],
        decreases lp.body@.len() - k,
    {
        let bb = lp.body[k];
        proof {
            assert(lp.body@.take(k + 1).drop_last() =~= lp.body@.take(k as int));
        }
        if !(skip_header && bb == lp.header) {
            let stmts = &body.basic_blocks[bb].statements;
            let ghost start = r@.len();
            let ghost before = r@;
            let mut i: usize = 0;
            while i < stmts.len()
                invariant
                    i <= stmts@.len(),
                    r@.len() == start + i,
                    forall|j: int| 0 <= j < start ==> r@[j] == before[j],
                    forall|j: int| 0 <= j < i ==> *r@[start + j] == stmts@[j],
                decreases stmts@.len() - i,
            {
                r.push(&stmts[i]);
                i = i + 1;
            }
            proof {
                let prev = if skip_header {
                    body_stmts(*body, lp.body@.take(k as int), lp.header)
                } else {
                    all_stmts(*body, lp.body@.take(k as int))
                };
                if skip_header {
                    assert(body_stmts(*body, lp.body@.take(k + 1), lp.header) =~= prev + stmts@);
                } else {
                    assert(all_stmts(*body, lp.body@.take(k + 1)) =~= prev + stmts@);
                }
                assert forall|j: int| 0 <= j < r@.len() implies *r@[j] == (prev + stmts@)[j] by {
                    if j < start {
                        assert(r@[j] == before[j]);
                    } else {
                        assert(*r@[start + (j - start)] == stmts@[j - start]);
                    }
                }
            }
        } else {
            proof {
                assert(body_stmts(*body, lp.body@.take(k + 1), lp.header) =~= body_stmts(
                    *body,
                    lp.body@.take(k as int),
                    lp.header,
                ));
            }
        }
        k = k + 1;
    }
    proof {
        assert(lp.body@.take(k as int) =~= lp.body@);
    }
    r
}

// ── Scale ─────────────────────────────────────────────────────────────

/// The factor of a write of `(*y)[i]`: `y[i] * a` or `a * y[i]` for a bare
/// local `a` (the self-read is looked for on the left first).
pub open spec fn scale_factor(y: usize, rv: Rvalue, m: Map<usize, usize>, i_root: usize) -> Option<usize> {
    match rv {
        Rvalue::BinaryOp(op, lhs, rhs) => if op == BinOp::Mul || op == BinOp::MulUnchecked {
            if self_indexed(lhs, y, m, i_root) {
                bare_local(rhs)
            } else if self_indexed(rhs, y, m, i_root) {
                bare_local(lhs)
            } else {
                None
            }
        } else {
            None
        },
        _ => None,
    }
}

/// The writes through the index among the statements, and the last of them
/// that scales its own element: (count, (y, a)).
pub open spec fn scale_scan(ss: Seq<StatementKind>, m: Map<usize, usize>, i_root: usize) -> (nat, Option<(usize, usize)>)
    decreases ss.len(),
{
    if ss.len() == 0 {
        (0, None)
    } else {
        let p = scale_scan(ss.drop_last(), m, i_root);
        match ss.last() {
            StatementKind::Assign(place, rv) => if i_indexed(place.projection@, m, i_root) {
                (
                    p.0 + 1,
                    match scale_factor(place.local, rv, m, i_root) {
                        Some(a) => Some((place.local, a)),
                        None => p.1,
                    },
                )
            } else {
                p
            },
            _ => p,
        }
    }
}

/// A `y[i] *= alpha` loop to hand to a helper.
#[derive(Clone, Copy, Debug)]
pub struct ScalePlan {
    pub entry_bb: usize,
    pub exit_bb: usize,
    pub dst_local: usize,
    pub alpha_local: usize,
    pub fty: FloatTy,
}

/// The plan of a scale loop: the range loop's shape; exactly one write
/// through the index, which multiplies its own element by a bare local;
/// then (after resolving aliases) the destination a `&mut [f64]` and the
/// factor an `f64`.
pub open spec fn scale_plan(body: Body, header: usize, blocks: Seq<usize>) -> Option<ScalePlan> {
    match range_loop_shape(body, header, blocks) {
        None => None,
        Some((entry, exit, i_root)) => {
            let m = alias_map(body, blocks);
            let sc = scale_scan(body_stmts(body, blocks, header), m, i_root);
            if sc.0 != 1 {
                None
            } else {
                match sc.1 {
                    None => None,
                    Some((d, a)) => {
                        let dst = alias_walk(m, d, 16);
                        let alpha = alias_walk(m, a, 16);
                        match ref_slice_float(local_ty(body, dst), true) {
                            None => None,
                            Some(f) => if local_ty(body, alpha) == LocalTy::Scalar(ScalarTy::F64) {
                                Some(ScalePlan { entry_bb: entry, exit_bb: exit, dst_local: dst, alpha_local: alpha, fty: f })
                            } else {
                                None
                            },
                        }
                    },
                }
            }
        },
    }
}

fn scale_factor_exec(y: usize, rv: &Rvalue, m: &BTreeMap<usize, usize>, i_root: usize) -> (r: Option<usize>)
    ensures
        r == scale_factor(y, *rv, m@, i_root),
{
    match rv {
        Rvalue::BinaryOp(op, lhs, rhs) => {
            if !(*op == BinOp::Mul || *op == BinOp::MulUnchecked) {
                return None;
            }
            if self_indexed_exec(lhs, y, m, i_root) {
                bare_local_exec(rhs)
            } else if self_indexed_exec(rhs, y, m, i_root) {
                bare_local_exec(lhs)
            } else {
                None
            }
        },
        _ => None,
    }
}

pub(crate) proof fn lemma_prefix_step<T>(s: Seq<T>, i: int)
    requires
        0 <= i < s.len(),
    ensures
        s.take(i + 1).drop_last() == s.take(i),
        s.take(i + 1).last() == s[i],
{
    assert(s.take(i + 1).drop_last() =~= s.take(i));
}

/// Matches a scale loop, `y[i] *= alpha` over a range.
pub fn analyze_scale_loop(body: &Body, lp: &SimpleLoop) -> (r: Option<ScalePlan>)
    requires
        body.targets_valid(),
        body.all_terminated(),
        loop_ok(*body, lp.body@),
        lp.header < body.num_blocks(),
    ensures
        r == scale_plan(*body, lp.header, lp.body@),
{
    let shape = match detect_range_loop_shape(body, lp) {
        Some(s) => s,
        None => {
            return None;
        },
    };
    let m = &shape.alias_root;
    let i_root = shape.i_root;
    let stmts = loop_stmts(body, lp, true);
    let ghost ss = body_stmts(*body, lp.body@, lp.header);
    let mut indexed_writes: usize = 0;
    let mut chosen: Option<(usize, usize)> = None;
    let mut k: usize = 0;
    while k < stmts.len()
        invariant
            k <= stmts@.len(),
            stmts@.len() == ss.len(),
            forall|i: int| 0 <= i < stmts@.len() ==> *stmts@[i] == ss[i],
            indexed_writes <= k,
            indexed_writes == scale_scan(ss.take(k as int), m@, i_root).0,
            chosen == scale_scan(ss.take(k as int), m@, i_root).1,
        decreases stmts@.len() - k,
    {
        proof {
            lemma_prefix_step(ss, k as int);
        }
        match stmts[k] {
            StatementKind::Assign(place, rvalue) => {
                if i_indexed_exec(&place.projection, m, i_root) {
                    indexed_writes = indexed_writes + 1;
                    match scale_factor_exec(place.local, rvalue, m, i_root) {
                        Some(a) => {
                            chosen = Some((place.local, a));
                        },
                        None => {},
                    }
                }
            },
            _ => {},
        }
        k = k + 1;
    }
    proof {
        assert(ss.take(k as int) =~= ss);
    }
    if indexed_writes != 1 {
        return None;
    }
    let (d, a) = match chosen {
        Some(p) => p,
        None => {
            return None;
        },
    };
    let dst_local = LoopShape::resolve(m, d);
    let alpha_local = LoopShape::resolve(m, a);
    let fty = match ref_slice_float_ty(local_ty_of(body, dst_local), true) {
        Some(f) => f,
        None => {
            return None;
        },
    };
    if local_ty_of(body, alpha_local) != LocalTy::Scalar(ScalarTy::F64) {
        return None;
    }
    Some(ScalePlan { entry_bb: shape.entry_bb, exit_bb: shape.exit_bb, dst_local, alpha_local, fty })
}

// ── Apply ─────────────────────────────────────────────────────────────

/// The writes through the index among the statements, and the last of them
/// that stores a bare local: (count, (y, v)).
pub open spec fn result_scan(ss: Seq<StatementKind>, m: Map<usize, usize>, i_root: usize) -> (nat, Option<(usize, usize)>)
    decreases ss.len(),
{
    if ss.len() == 0 {
        (0, None)
    } else {
        let p = result_scan(ss.drop_last(), m, i_root);
        match ss.last() {
            StatementKind::Assign(place, rv) => if i_indexed(place.projection@, m, i_root) {
                (
                    p.0 + 1,
                    match rv {
                        Rvalue::Use(o) => match bare_local(o) {
                            Some(v) => Some((place.local, v)),
                            None => p.1,
                        },
                        _ => p.1,
                    },
                )
            } else {
                p
            },
            _ => p,
        }
    }
}

/// The terminator is a call whose destination is (an alias of) `target`.
pub open spec fn calls_into(t: Option<TerminatorKind>, m: Map<usize, usize>, target: usize) -> bool {
    t matches Some(TerminatorKind::Call { destination, .. }) && destination.projection@.len() == 0 && alias_walk(
        m,
        destination.local,
        16,
    ) == alias_walk(m, target, 16)
}

/// The first of the blocks, other than the header, whose call produces
/// (an alias of) `target`.
pub open spec fn producer(body: Body, blocks: Seq<usize>, header: usize, m: Map<usize, usize>, target: usize) -> Option<usize>
    decreases blocks.len(),
{
    if blocks.len() == 0 {
        None
    } else if blocks[0] != header && calls_into(term_of(body, blocks[0] as int), m, target) {
        Some(blocks[0])
    } else {
        producer(body, blocks.skip(1), header, m, target)
    }
}

/// A statement `v = (*x)[i]` with `v` (an alias of) `arg`: the slice `x`,
/// resolved.
pub open spec fn read_into(s: StatementKind, m: Map<usize, usize>, i_root: usize, arg: usize) -> Option<usize> {
    match s {
        StatementKind::Assign(place, Rvalue::Use(o)) => if place.projection@.len() == 0 && alias_walk(
            m,
            place.local,
            16,
        ) == alias_walk(m, arg, 16) {
            match op_place(o) {
                Some(p) => if i_indexed(p.projection@, m, i_root) {
                    Some(alias_walk(m, p.local, 16))
                } else {
                    None
                },
                None => None,
            }
        } else {
            None
        },
        _ => None,
    }
}

/// The first such read among the statements.
pub open spec fn first_read_into(ss: Seq<StatementKind>, m: Map<usize, usize>, i_root: usize, arg: usize) -> Option<usize>
    decreases ss.len(),
{
    if ss.len() == 0 {
        None
    } else {
        match read_into(ss[0], m, i_root, arg) {
            Some(x) => Some(x),
            None => first_read_into(ss.skip(1), m, i_root, arg),
        }
    }
}

/// The last such read among the statements.
pub open spec fn last_read_into(ss: Seq<StatementKind>, m: Map<usize, usize>, i_root: usize, arg: usize) -> Option<usize>
    decreases ss.len(),
{
    if ss.len() == 0 {
        None
    } else {
        match read_into(ss.last(), m, i_root, arg) {
            Some(x) => Some(x),
            None => last_read_into(ss.drop_last(), m, i_root, arg),
        }
    }
}

/// The slice an argument comes from: read directly at the index, or a bare
/// local filled by such a read (the first one when `first`, else the
/// last).
pub open spec fn arg_source(o: Operand, all: Seq<StatementKind>, m: Map<usize, usize>, i_root: usize, first: bool) -> Option<usize> {
    match op_place(o) {
        None => None,
        Some(p) => if i_indexed(p.projection@, m, i_root) {
            Some(alias_walk(m, p.local, 16))
        } else if p.projection@.len() != 0 {
            None
        } else if first {
            first_read_into(all, m, i_root, p.local)
        } else {
            last_read_into(all, m, i_root, p.local)
        },
    }
}

fn result_scan_exec(stmts: &Vec<&StatementKind>, m: &BTreeMap<usize, usize>, i_root: usize) -> (r: (usize, Option<(usize, usize)>))
    ensures
        r.0 == result_scan(stmts@.map_values(|s: &StatementKind| *s), m@, i_root).0,
        r.1 == result_scan(stmts@.map_values(|s: &StatementKind| *s), m@, i_root).1,
{
    let ghost ss = stmts@.map_values(|s: &StatementKind| *s);
    let mut n: usize = 0;
    let mut chosen: Option<(usize, usize)> = None;
    let mut k: usize = 0;
    while k < stmts.len()
        invariant
            k <= stmts@.len(),
            ss == stmts@.map_values(|s: &StatementKind| *s),
            n <= k,
            n == result_scan(ss.take(k as int), m@, i_root).0,
            chosen == result_scan(ss.take(k as int), m@, i_root).1,
        decreases stmts@.len() - k,
    {
        proof {
            lemma_prefix_step(ss, k as int);
        }
        match stmts[k] {
            StatementKind::Assign(place, rvalue) => {
                if i_indexed_exec(&place.projection, m, i_root) {
                    n = n + 1;
                    match rvalue {
                        Rvalue::Use(o) => match bare_local_exec(o) {
                            Some(v) => {
                                chosen = Some((place.local, v));
                            },
                            None => {},
                        },
                        _ => {},
                    }
                }
            },
            _ => {},
        }
        k = k + 1;
    }
    proof {
        assert(ss.take(k as int) =~= ss);
    }
    (n, chosen)
}

fn producer_exec(body: &Body, lp: &SimpleLoop, m: &BTreeMap<usize, usize>, target: usize) -> (r: Option<usize>)
    requires
        loop_ok(*body, lp.body@),
    ensures
        r == producer(*body, lp.body@, lp.header, m@, target),
        r matches Some(b) ==> b < body.num_blocks(),
{
    let t = LoopShape::resolve(m, target);
    let mut j: usize = 0;
    assert(lp.body@.skip(0) =~= lp.body@);
    while j < lp.body.len()
        invariant
            j <= lp.body@.len(),
            loop_ok(*body, lp.body@),
            t == alias_walk(m@, target, 16),
            producer(*body, lp.body@, lp.header, m@, target) == producer(*body, lp.body@.skip(j as int), lp.header, m@, target),
        decreases lp.body@.len() - j,
    {
        proof {
            assert(lp.body@.skip(j as int)[0] == lp.body@[j as int]);
            assert(lp.body@.skip(j as int).skip(1) =~= lp.body@.skip(j + 1));
        }
        let bb = lp.body[j];
        if bb != lp.header {
            match &body.basic_blocks[bb].terminator {
                Some(TerminatorKind::Call { destination, .. }) => {
                    if destination.projection.len() == 0 && LoopShape::resolve(m, destination.local) == t {
                        return Some(bb);
                    }
                },
                _ => {},
            }
        }
        j = j + 1;
    }
    None
}

fn read_into_exec(s: &StatementKind, m: &BTreeMap<usize, usize>, i_root: usize, arg: usize) -> (r: Option<usize>)
    ensures
        r == read_into(*s, m@, i_root, arg),
{
    match s {
        StatementKind::Assign(place, Rvalue::Use(o)) => {
            if place.projection.len() != 0 || LoopShape::resolve(m, place.local) != LoopShape::resolve(m, arg) {
                return None;
            }
            match o {
                Operand::Copy(p) | Operand::Move(p) => {
                    if i_indexed_exec(&p.projection, m, i_root) {
                        Some(LoopShape::resolve(m, p.local))
                    } else {
                        None
                    }
                },
                Operand::Constant(_) => None,
            }
        },
        _ => None,
    }
}

fn arg_source_exec(o: &Operand, all: &Vec<&StatementKind>, m: &BTreeMap<usize, usize>, i_root: usize, first: bool) -> (r: Option<usize>)
    ensures
        r == arg_source(*o, all@.map_values(|s: &StatementKind| *s), m@, i_root, first),
{
    let ghost ss = all@.map_values(|s: &StatementKind| *s);
    let p = match o {
        Operand::Copy(p) | Operand::Move(p) => p,
        Operand::Constant(_) => {
            return None;
        },
    };
    if i_indexed_exec(&p.projection, m, i_root) {
        return Some(LoopShape::resolve(m, p.local));
    }
    if p.projection.len() != 0 {
        return None;
    }
    let arg = p.local;
    if first {
        let mut j: usize = 0;
        assert(ss.skip(0) =~= ss);
        while j < all.len()
            invariant
                j <= all@.len(),
                ss == all@.map_values(|s: &StatementKind| *s),
                first_read_into(ss, m@, i_root, arg) == first_read_into(ss.skip(j as int), m@, i_root, arg),
                arg_source(*o, ss, m@, i_root, first) == first_read_into(ss, m@, i_root, arg),
            decreases all@.len() - j,
        {
            proof {
                assert(ss[j as int] == *all@[j as int]);
                assert(ss.skip(j as int)[0] == ss[j as int]);
                assert(ss.skip(j as int).skip(1) =~= ss.skip(j + 1));
            }
            match read_into_exec(all[j], m, i_root, arg) {
                Some(x) => {
                    return Some(x);
                },
                None => {},
            }
            j = j + 1;
        }
        None
    } else {
        let mut j: usize = all.len();
        assert(ss.take(j as int) =~= ss);
        while j > 0
            invariant
                j <= all@.len(),
                ss == all@.map_values(|s: &StatementKind| *s),
                last_read_into(ss, m@, i_root, arg) == last_read_into(ss.take(j as int), m@, i_root, arg),
                arg_source(*o, ss, m@, i_root, first) == last_read_into(ss, m@, i_root, arg),
            decreases j,
        {
            proof {
                assert(ss[j - 1] == *all@[j - 1]);
                lemma_prefix_step(ss, j - 1);
            }
            match read_into_exec(all[j - 1], m, i_root, arg) {
                Some(x) => {
                    return Some(x);
                },
                None => {},
            }
            j = j - 1;
        }
        None
    }
}

/// A `y[i] = x[i].f()` loop to hand to a helper.
#[derive(Clone, Debug)]
pub struct UnaryApplyPlan {
    pub entry_bb: usize,
    pub exit_bb: usize,
    pub dst_local: usize,
    pub src_local: usize,
    pub method: String,
    pub fty: FloatTy,
}

impl UnaryApplyPlan {
    pub open spec fn view_tuple(&self) -> (usize, usize, usize, usize, Seq<char>, FloatTy) {
        (self.entry_bb, self.exit_bb, self.dst_local, self.src_local, self.method@, self.fty)
    }
}

/// The plan of a unary apply loop: the range loop's shape; exactly one
/// write through the index, storing a bare local; the first call (outside
/// the header) into that local calls a unary float method that has a
/// helper, with one argument that comes from a slice at the index (through
/// the last read that fills it); then the destination a `&mut [f64]`, the
/// source a float slice of the same type, and the two different.
pub open spec fn unary_apply_plan(body: Body, header: usize, blocks: Seq<usize>) -> Option<
    (usize, usize, usize, usize, Seq<char>, FloatTy),
> {
    match range_loop_shape(body, header, blocks) {
        None => None,
        Some((entry, exit, i_root)) => {
            let m = alias_map(body, blocks);
            let rs = result_scan(body_stmts(body, blocks, header), m, i_root);
            if rs.0 != 1 {
                None
            } else {
                match rs.1 {
                    None => None,
                    Some((d, res)) => match producer(body, blocks, header, m, res) {
                        None => None,
                        Some(pb) => match term_of(body, pb as int) {
                            Some(TerminatorKind::Call { func: Operand::Constant(Const::FnDef { path }), args, .. }) => {
                                let meth = last_segment(path@);
                                if !is_unary_apply_method(meth) || args@.len() != 1 {
                                    None
                                } else {
                                    match arg_source(args@[0], all_stmts(body, blocks), m, i_root, false) {
                                        None => None,
                                        Some(src) => {
                                            let dst = alias_walk(m, d, 16);
                                            match (
                                                ref_slice_float(local_ty(body, dst), true),
                                                ref_slice_float(local_ty(body, src), false),
                                            ) {
                                                (Some(f), Some(g)) => if f == g && dst != src {
                                                    Some((entry, exit, dst, src, meth, f))
                                                } else {
                                                    None
                                                },
                                                _ => None,
                                            }
                                        },
                                    }
                                }
                            },
                            _ => None,
                        },
                    },
                }
            }
        },
    }
}

/// Matches a unary apply loop, `y[i] = x[i].f()` over a range, for a float
/// method `f` that has a helper.
pub fn analyze_unary_apply_loop(body: &Body, lp: &SimpleLoop) -> (r: Option<UnaryApplyPlan>)
    requires
        body.targets_valid(),
        body.all_terminated(),
        loop_ok(*body, lp.body@),
        lp.header < body.num_blocks(),
    ensures
        match r {
            None => unary_apply_plan(*body, lp.header, lp.body@) is None,
            Some(p) => unary_apply_plan(*body, lp.header, lp.body@) == Some(p.view_tuple()),
        },
{
    let shape = match detect_range_loop_shape(body, lp) {
        Some(s) => s,
        None => {
            return None;
        },
    };
    let m = &shape.alias_root;
    let i_root = shape.i_root;
    let stmts = loop_stmts(body, lp, true);
    proof {
        assert(stmts@.map_values(|s: &StatementKind| *s) =~= body_stmts(*body, lp.body@, lp.header));
    }
    let (n, chosen) = result_scan_exec(&stmts, m, i_root);
    if n != 1 {
        return None;
    }
    let (d, res) = match chosen {
        Some(x) => x,
        None => {
            return None;
        },
    };
    let pb = match producer_exec(body, lp, m, res) {
        Some(b) => b,
        None => {
            return None;
        },
    };
    let (path, args) = match &body.basic_blocks[pb].terminator {
        Some(TerminatorKind::Call { func: Operand::Constant(Const::FnDef { path }), args, .. }) => (path, args),
        _ => {
            return None;
        },
    };
    let meth = last_path_segment(path.as_str());
    if unary_helper_name(meth, FloatTy::F64).is_none() || args.len() != 1 {
        return None;
    }
    let all = loop_stmts(body, lp, false);
    proof {
        assert(all@.map_values(|s: &StatementKind| *s) =~= all_stmts(*body, lp.body@));
    }
    let src = match arg_source_exec(&args[0], &all, m, i_root, false) {
        Some(x) => x,
        None => {
            return None;
        },
    };
    let dst = LoopShape::resolve(m, d);
    let f = match ref_slice_float_ty(local_ty_of(body, dst), true) {
        Some(f) => f,
        None => {
            return None;
        },
    };
    let g = match ref_slice_float_ty(local_ty_of(body, src), false) {
        Some(g) => g,
        None => {
            return None;
        },
    };
    if f != g || dst == src {
        return None;
    }
    Some(
        UnaryApplyPlan {
            entry_bb: shape.entry_bb,
            exit_bb: shape.exit_bb,
            dst_local: dst,
            src_local: src,
            method: meth.to_string(),
            fty: f,
        },
    )
}

/// A `y[i] = a[i].f(b[i])` loop to hand to a helper.
#[derive(Clone, Debug)]
pub struct BinaryApplyPlan {
    pub entry_bb: usize,
    pub exit_bb: usize,
    pub dst_local: usize,
    pub a_local: usize,
    pub b_local: usize,
    pub method: String,
    pub fty: FloatTy,
}

impl BinaryApplyPlan {
    pub open spec fn view_tuple(&self) -> (usize, usize, usize, usize, usize, Seq<char>, FloatTy) {
        (self.entry_bb, self.exit_bb, self.dst_local, self.a_local, self.b_local, self.method@, self.fty)
    }
}

/// The plan of a binary apply loop: as for a unary one, with a binary
/// float method of two arguments, each from a slice at the index (through
/// the first read that fills it); the destination a `&mut [f64]`, both
/// sources float slices of its type, and neither the destination.
pub open spec fn binary_apply_plan(body: Body, header: usize, blocks: Seq<usize>) -> Option<
    (usize, usize, usize, usize, usize, Seq<char>, FloatTy),
> {
    match range_loop_shape(body, header, blocks) {
        None => None,
        Some((entry, exit, i_root)) => {
            let m = alias_map(body, blocks);
            let rs = result_scan(body_stmts(body, blocks, header), m, i_root);
            if rs.0 != 1 {
                None
            } else {
                match rs.1 {
                    None => None,
                    Some((d, res)) => match producer(body, blocks, header, m, res) {
                        None => None,
                        Some(pb) => match term_of(body, pb as int) {
                            Some(TerminatorKind::Call { func: Operand::Constant(Const::FnDef { path }), args, .. }) => {
                                let meth = last_segment(path@);
                                if !is_binary_apply_method(meth) || args@.len() != 2 {
                                    None
                                } else {
                                    let all = all_stmts(body, blocks);
                                    match (
                                        arg_source(args@[0], all, m, i_root, true),
                                        arg_source(args@[1], all, m, i_root, true),
                                    ) {
                                        (Some(a), Some(b)) => {
                                            let dst = alias_walk(m, d, 16);
                                            match (
                                                ref_slice_float(local_ty(body, dst), true),
                                                ref_slice_float(local_ty(body, a), false),
                                                ref_slice_float(local_ty(body, b), false),
                                            ) {
                                                (Some(f), Some(fa), Some(fb)) => if f == fa && f == fb && dst != a && dst
                                                    != b {
                                                    Some((entry, exit, dst, a, b, meth, f))
                                                } else {
                                                    None
                                                },
                                                _ => None,
                                            }
                                        },
                                        _ => None,
                                    }
                                }
                            },
                            _ => None,
                        },
                    },
                }
            }
        },
    }
}

/// Matches a binary apply loop, `y[i] = a[i].f(b[i])` over a range, for a
/// float method `f` that has a helper.
pub fn analyze_binary_apply_loop(body: &Body, lp: &SimpleLoop) -> (r: Option<BinaryApplyPlan>)
    requires
        body.targets_valid(),
        body.all_terminated(),
        loop_ok(*body, lp.body@),
        lp.header < body.num_blocks(),
    ensures
        match r {
            None => binary_apply_plan(*body, lp.header, lp.body@) is None,
            Some(p) => binary_apply_plan(*body, lp.header, lp.body@) == Some(p.view_tuple()),
        },
{
    let shape = match detect_range_loop_shape(body, lp) {
        Some(s) => s,
        None => {
            return None;
        },
    };
    let m = &shape.alias_root;
    let i_root = shape.i_root;
    let stmts = loop_stmts(body, lp, true);
    proof {
        assert(stmts@.map_values(|s: &StatementKind| *s) =~= body_stmts(*body, lp.body@, lp.header));
    }
    let (n, chosen) = result_scan_exec(&stmts, m, i_root);
    if n != 1 {
        return None;
    }
    let (d, res) = match chosen {
        Some(x) => x,
        None => {
            return None;
        },
    };
    let pb = match producer_exec(body, lp, m, res) {
        Some(b) => b,
        None => {
            return None;
        },
    };
    let (path, args) = match &body.basic_blocks[pb].terminator {
        Some(TerminatorKind::Call { func: Operand::Constant(Const::FnDef { path }), args, .. }) => (path, args),
        _ => {
            return None;
        },
    };
    let meth = last_path_segment(path.as_str());
    if binary_helper_name(meth, FloatTy::F64).is_none() || args.len() != 2 {
        return None;
    }
    let all = loop_stmts(body, lp, false);
    proof {
        assert(all@.map_values(|s: &StatementKind| *s) =~= all_stmts(*body, lp.body@));
    }
    let a = match arg_source_exec(&args[0], &all, m, i_root, true) {
        Some(x) => x,
        None => {
            return None;
        },
    };
    let b = match arg_source_exec(&args[1], &all, m, i_root, true) {
        Some(x) => x,
        None => {
            return None;
        },
    };
    let dst = LoopShape::resolve(m, d);
    let f = match ref_slice_float_ty(local_ty_of(body, dst), true) {
        Some(f) => f,
        None => {
            return None;
        },
    };
    let fa = match ref_slice_float_ty(local_ty_of(body, a), false) {
        Some(g) => g,
        None => {
            return None;
        },
    };
    let fb = match ref_slice_float_ty(local_ty_of(body, b), false) {
        Some(g) => g,
        None => {
            return None;
        },
    };
    if f != fa || f != fb || dst == a || dst == b {
        return None;
    }
    Some(
        BinaryApplyPlan {
            entry_bb: shape.entry_bb,
            exit_bb: shape.exit_bb,
            dst_local: dst,
            a_local: a,
            b_local: b,
            method: meth.to_string(),
            fty: f,
        },
    )
}

// ── Abs-diff and fused multiply-add ───────────────────────────────────

/// A statement `r = lhs - rhs` (or `lhs * rhs` when `mul`) into a bare
/// local resolving to `root`, both sides from slices at the index: the two
/// slices.
pub open spec fn binop_sources(
    s: StatementKind,
    m: Map<usize, usize>,
    i_root: usize,
    root: usize,
    all: Seq<StatementKind>,
    mul: bool,
) -> Option<(usize, usize)> {
    match s {
        StatementKind::Assign(place, Rvalue::BinaryOp(op, lhs, rhs)) => if place.projection@.len() == 0 && alias_walk(
            m,
            place.local,
            16,
        ) == root && (if mul {
            op == BinOp::Mul || op == BinOp::MulUnchecked
        } else {
            op == BinOp::Sub || op == BinOp::SubUnchecked
        }) {
            match (arg_source(lhs, all, m, i_root, true), arg_source(rhs, all, m, i_root, true)) {
                (Some(a), Some(b)) => Some((a, b)),
                _ => None,
            }
        } else {
            None
        },
        _ => None,
    }
}

/// The last such statement.
pub open spec fn last_binop_sources(
    ss: Seq<StatementKind>,
    m: Map<usize, usize>,
    i_root: usize,
    root: usize,
    all: Seq<StatementKind>,
    mul: bool,
) -> Option<(usize, usize)>
    decreases ss.len(),
{
    if ss.len() == 0 {
        None
    } else {
        match binop_sources(ss.last(), m, i_root, root, all, mul) {
            Some(x) => Some(x),
            None => last_binop_sources(ss.drop_last(), m, i_root, root, all, mul),
        }
    }
}

fn binop_sources_exec(
    s: &StatementKind,
    m: &BTreeMap<usize, usize>,
    i_root: usize,
    root: usize,
    all: &Vec<&StatementKind>,
    mul: bool,
) -> (r: Option<(usize, usize)>)
    ensures
        r == binop_sources(*s, m@, i_root, root, all@.map_values(|t: &StatementKind| *t), mul),
{
    match s {
        StatementKind::Assign(place, Rvalue::BinaryOp(op, lhs, rhs)) => {
            let op_ok = if mul {
                *op == BinOp::Mul || *op == BinOp::MulUnchecked
            } else {
                *op == BinOp::Sub || *op == BinOp::SubUnchecked
            };
            if place.projection.len() != 0 || LoopShape::resolve(m, place.local) != root || !op_ok {
                return None;
            }
            match (arg_source_exec(lhs, all, m, i_root, true), arg_source_exec(rhs, all, m, i_root, true)) {
                (Some(a), Some(b)) => Some((a, b)),
                _ => None,
            }
        },
        _ => None,
    }
}

fn last_binop_sources_exec(
    ss: &Vec<&StatementKind>,
    m: &BTreeMap<usize, usize>,
    i_root: usize,
    root: usize,
    all: &Vec<&StatementKind>,
    mul: bool,
) -> (r: Option<(usize, usize)>)
    ensures
        r == last_binop_sources(
            ss@.map_values(|t: &StatementKind| *t),
            m@,
            i_root,
            root,
            all@.map_values(|t: &StatementKind| *t),
            mul,
        ),
{
    let ghost sv = ss@.map_values(|t: &StatementKind| *t);
    let ghost av = all@.map_values(|t: &StatementKind| *t);
    let mut j: usize = ss.len();
    assert(sv.take(j as int) =~= sv);
    while j > 0
        invariant
            j <= ss@.len(),
            sv == ss@.map_values(|t: &StatementKind| *t),
            av == all@.map_values(|t: &StatementKind| *t),
            last_binop_sources(sv, m@, i_root, root, av, mul) == last_binop_sources(sv.take(j as int), m@, i_root, root, av, mul),
        decreases j,
    {
        proof {
            lemma_prefix_step(sv, j - 1);
            assert(sv[j - 1] == *ss@[j - 1]);
        }
        match binop_sources_exec(ss[j - 1], m, i_root, root, all, mul) {
            Some(x) => {
                return Some(x);
            },
            None => {},
        }
        j = j - 1;
    }
    None
}

/// A `y[i] = |a[i] - b[i]|` loop to hand to a helper.
#[derive(Clone, Copy, Debug)]
pub struct AbsDiffPlan {
    pub entry_bb: usize,
    pub exit_bb: usize,
    pub dst_local: usize,
    pub a_local: usize,
    pub b_local: usize,
    pub fty: FloatTy,
}

/// The plan of an abs-diff loop: the range loop's shape; exactly one write
/// through the index, storing a bare local; the first call (outside the
/// header) into that local calls a function whose path ends in `::abs`,
/// on one bare local; the last subtraction into (an alias of) that local
/// has both sides from slices at the index; then the destination a
/// `&mut [f64]`, both sources float slices of its type, and neither the
/// destination.
pub open spec fn abs_diff_plan(body: Body, header: usize, blocks: Seq<usize>) -> Option<AbsDiffPlan> {
    match range_loop_shape(body, header, blocks) {
        None => None,
        Some((entry, exit, i_root)) => {
            let m = alias_map(body, blocks);
            let ss = body_stmts(body, blocks, header);
            let rs = result_scan(ss, m, i_root);
            if rs.0 != 1 {
                None
            } else {
                match rs.1 {
                    None => None,
                    Some((d, res)) => match producer(body, blocks, header, m, res) {
                        None => None,
                        Some(pb) => match term_of(body, pb as int) {
                            Some(TerminatorKind::Call { func: Operand::Constant(Const::FnDef { path }), args, .. }) => {
                                if !ends_with_text(path@, "::abs"@) || args@.len() != 1 {
                                    None
                                } else {
                                    match bare_local(args@[0]) {
                                        None => None,
                                        Some(x) => match last_binop_sources(
                                            ss,
                                            m,
                                            i_root,
                                            alias_walk(m, x, 16),
                                            all_stmts(body, blocks),
                                            false,
                                        ) {
                                            None => None,
                                            Some((a, b)) => {
                                                let dst = alias_walk(m, d, 16);
                                                match ref_slice_float(local_ty(body, dst), true) {
                                                    None => None,
                                                    Some(f) => if ref_slice_float(local_ty(body, a), false) == Some(f)
                                                        && ref_slice_float(local_ty(body, b), false) == Some(f) && dst
                                                        != a && dst != b {
                                                        Some(
                                                            AbsDiffPlan {
                                                                entry_bb: entry,
                                                                exit_bb: exit,
                                                                dst_local: dst,
                                                                a_local: a,
                                                                b_local: b,
                                                                fty: f,
                                                            },
                                                        )
                                                    } else {
                                                        None
                                                    },
                                                }
                                            },
                                        },
                                    }
                                }
                            },
                            _ => None,
                        },
                    },
                }
            }
        },
    }
}

/// Matches an abs-diff loop, `y[i] = (a[i] - b[i]).abs()` over a range.
pub fn analyze_abs_diff_loop(body: &Body, lp: &SimpleLoop) -> (r: Option<AbsDiffPlan>)
    requires
        body.targets_valid(),
        body.all_terminated(),
        loop_ok(*body, lp.body@),
        lp.header < body.num_blocks(),
    ensures
        r == abs_diff_plan(*body, lp.header, lp.body@),
{
    let shape = match detect_range_loop_shape(body, lp) {
        Some(s) => s,
        None => {
            return None;
        },
    };
    let m = &shape.alias_root;
    let i_root = shape.i_root;
    let stmts = loop_stmts(body, lp, true);
    proof {
        assert(stmts@.map_values(|s: &StatementKind| *s) =~= body_stmts(*body, lp.body@, lp.header));
    }
    let (n, chosen) = result_scan_exec(&stmts, m, i_root);
    if n != 1 {
        return None;
    }
    let (d, res) = match chosen {
        Some(x) => x,
        None => {
            return None;
        },
    };
    let pb = match producer_exec(body, lp, m, res) {
        Some(b) => b,
        None => {
            return None;
        },
    };
    let (path, args) = match &body.basic_blocks[pb].terminator {
        Some(TerminatorKind::Call { func: Operand::Constant(Const::FnDef { path }), args, .. }) => (path, args),
        _ => {
            return None;
        },
    };
    if !ends_with_str(path.as_str(), "::abs") || args.len() != 1 {
        return None;
    }
    let x = match bare_local_exec(&args[0]) {
        Some(x) => x,
        None => {
            return None;
        },
    };
    let all = loop_stmts(body, lp, false);
    proof {
        assert(all@.map_values(|s: &StatementKind| *s) =~= all_stmts(*body, lp.body@));
    }
    let root = LoopShape::resolve(m, x);
    let (a, b) = match last_binop_sources_exec(&stmts, m, i_root, root, &all, false) {
        Some(p) => p,
        None => {
            return None;
        },
    };
    let dst = LoopShape::resolve(m, d);
    let f = match ref_slice_float_ty(local_ty_of(body, dst), true) {
        Some(f) => f,
        None => {
            return None;
        },
    };
    if ref_slice_float_ty(local_ty_of(body, a), false) != Some(f) || ref_slice_float_ty(local_ty_of(body, b), false)
        != Some(f) || dst == a || dst == b {
        return None;
    }
    Some(AbsDiffPlan { entry_bb: shape.entry_bb, exit_bb: shape.exit_bb, dst_local: dst, a_local: a, b_local: b, fty: f })
}

/// The split of `mul + c` into a bare local and a value from a slice at the
/// index: (the local, the slice).
pub open spec fn fma_split(mul_op: Operand, c_op: Operand, all: Seq<StatementKind>, m: Map<usize, usize>, i_root: usize) -> Option<(usize, usize)> {
    match (bare_local(mul_op), arg_source(c_op, all, m, i_root, true)) {
        (Some(ml), Some(c)) => Some((ml, c)),
        _ => None,
    }
}

/// The split of an addition, trying the product on the left first.
pub open spec fn fma_write(rv: Rvalue, all: Seq<StatementKind>, m: Map<usize, usize>, i_root: usize) -> Option<(usize, usize)> {
    match rv {
        Rvalue::BinaryOp(op, lhs, rhs) => if op == BinOp::Add || op == BinOp::AddUnchecked {
            match fma_split(lhs, rhs, all, m, i_root) {
                Some(x) => Some(x),
                None => fma_split(rhs, lhs, all, m, i_root),
            }
        } else {
            None
        },
        _ => None,
    }
}

/// The writes through the index, and the last that adds a product local to
/// a slice's element: (count, (y, product local, c)).
pub open spec fn fma_scan(ss: Seq<StatementKind>, m: Map<usize, usize>, i_root: usize, all: Seq<StatementKind>) -> (
    nat,
    Option<(usize, usize, usize)>,
)
    decreases ss.len(),
{
    if ss.len() == 0 {
        (0, None)
    } else {
        let p = fma_scan(ss.drop_last(), m, i_root, all);
        match ss.last() {
            StatementKind::Assign(place, rv) => if i_indexed(place.projection@, m, i_root) {
                (
                    p.0 + 1,
                    match fma_write(rv, all, m, i_root) {
                        Some((ml, c)) => Some((place.local, ml, c)),
                        None => p.1,
                    },
                )
            } else {
                p
            },
            _ => p,
        }
    }
}

/// A `y[i] = a[i] * b[i] + c[i]` loop to hand to a helper.
#[derive(Clone, Copy, Debug)]
pub struct FmaWritePlan {
    pub entry_bb: usize,
    pub exit_bb: usize,
    pub dst_local: usize,
    pub a_local: usize,
    pub b_local: usize,
    pub c_local: usize,
    pub fty: FloatTy,
}

/// The plan of a fused multiply-add loop: the range loop's shape; exactly
/// one write through the index, which adds a bare local and a value from a
/// slice `c` at the index; the last product into (an alias of) that local
/// has both factors from slices `a`, `b` at the index; then the
/// destination a `&mut [f64]`, the three sources float slices of its type,
/// and none of them the destination.
pub open spec fn fma_write_plan(body: Body, header: usize, blocks: Seq<usize>) -> Option<FmaWritePlan> {
    match range_loop_shape(body, header, blocks) {
        None => None,
        Some((entry, exit, i_root)) => {
            let m = alias_map(body, blocks);
            let ss = body_stmts(body, blocks, header);
            let all = all_stmts(body, blocks);
            let fs = fma_scan(ss, m, i_root, all);
            if fs.0 != 1 {
                None
            } else {
                match fs.1 {
                    None => None,
                    Some((d, ml, c)) => match last_binop_sources(ss, m, i_root, alias_walk(m, ml, 16), all, true) {
                        None => None,
                        Some((a, b)) => {
                            let dst = alias_walk(m, d, 16);
                            match ref_slice_float(local_ty(body, dst), true) {
                                None => None,
                                Some(f) => if ref_slice_float(local_ty(body, a), false) == Some(f) && ref_slice_float(
                                    local_ty(body, b),
                                    false,
                                ) == Some(f) && ref_slice_float(local_ty(body, c), false) == Some(f) && dst != a && dst
                                    != b && dst != c {
                                    Some(
                                        FmaWritePlan {
                                            entry_bb: entry,
                                            exit_bb: exit,
                                            dst_local: dst,
                                            a_local: a,
                                            b_local: b,
                                            c_local: c,
                                            fty: f,
                                        },
                                    )
                                } else {
                                    None
                                },
                            }
                        },
                    },
                }
            }
        },
    }
}

fn fma_split_exec(
    mul_op: &Operand,
    c_op: &Operand,
    all: &Vec<&StatementKind>,
    m: &BTreeMap<usize, usize>,
    i_root: usize,
) -> (r: Option<(usize, usize)>)
    ensures
        r == fma_split(*mul_op, *c_op, all@.map_values(|t: &StatementKind| *t), m@, i_root),
{
    let ml = match bare_local_exec(mul_op) {
        Some(x) => x,
        None => {
            return None;
        },
    };
    match arg_source_exec(c_op, all, m, i_root, true) {
        Some(c) => Some((ml, c)),
        None => None,
    }
}

/// Matches a fused multiply-add loop, `y[i] = a[i] * b[i] + c[i]` over a
/// range.
pub fn analyze_fma_write_loop(body: &Body, lp: &SimpleLoop) -> (r: Option<FmaWritePlan>)
    requires
        body.targets_valid(),
        body.all_terminated(),
        loop_ok(*body, lp.body@),
        lp.header < body.num_blocks(),
    ensures
        r == fma_write_plan(*body, lp.header, lp.body@),
{
    let shape = match detect_range_loop_shape(body, lp) {
        Some(s) => s,
        None => {
            return None;
        },
    };
    let m = &shape.alias_root;
    let i_root = shape.i_root;
    let stmts = loop_stmts(body, lp, true);
    let all = loop_stmts(body, lp, false);
    let ghost ss = body_stmts(*body, lp.body@, lp.header);
    let ghost av = all_stmts(*body, lp.body@);
    proof {
        assert(stmts@.map_values(|s: &StatementKind| *s) =~= ss);
        assert(all@.map_values(|s: &StatementKind| *s) =~= av);
    }
    let mut n: usize = 0;
    let mut chosen: Option<(usize, usize, usize)> = None;
    let mut k: usize = 0;
    while k < stmts.len()
        invariant
            k <= stmts@.len(),
            stmts@.len() == ss.len(),
            forall|i: int| 0 <= i < stmts@.len() ==> *stmts@[i] == ss[i],
            av == all@.map_values(|s: &StatementKind| *s),
            n <= k,
            n == fma_scan(ss.take(k as int), m@, i_root, av).0,
            chosen == fma_scan(ss.take(k as int), m@, i_root, av).1,
        decreases stmts@.len() - k,
    {
        proof {
            lemma_prefix_step(ss, k as int);
        }
        match stmts[k] {
            StatementKind::Assign(place, rvalue) => {
                if i_indexed_exec(&place.projection, m, i_root) {
                    n = n + 1;
                    match rvalue {
                        Rvalue::BinaryOp(op, lhs, rhs) => {
                            if *op == BinOp::Add || *op == BinOp::AddUnchecked {
                                let split = match fma_split_exec(lhs, rhs, &all, m, i_root) {
                                    Some(x) => Some(x),
                                    None => fma_split_exec(rhs, lhs, &all, m, i_root),
                                };
                                match split {
                                    Some((ml, c)) => {
                                        chosen = Some((place.local, ml, c));
                                    },
                                    None => {},
                                }
                            }
                        },
                        _ => {},
                    }
                }
            },
            _ => {},
        }
        k = k + 1;
    }
    proof {
        assert(ss.take(k as int) =~= ss);
    }
    if n != 1 {
        return None;
    }
    let (d, ml, c) = match chosen {
        Some(x) => x,
        None => {
            return None;
        },
    };
    let root = LoopShape::resolve(m, ml);
    let (a, b) = match last_binop_sources_exec(&stmts, m, i_root, root, &all, true) {
        Some(p) => p,
        None => {
            return None;
        },
    };
    let dst = LoopShape::resolve(m, d);
    let f = match ref_slice_float_ty(local_ty_of(body, dst), true) {
        Some(f) => f,
        None => {
            return None;
        },
    };
    if ref_slice_float_ty(local_ty_of(body, a), false) != Some(f) || ref_slice_float_ty(local_ty_of(body, b), false)
        != Some(f) || ref_slice_float_ty(local_ty_of(body, c), false) != Some(f) || dst == a || dst == b || dst == c {
        return None;
    }
    Some(
        FmaWritePlan {
            entry_bb: shape.entry_bb,
            exit_bb: shape.exit_bb,
            dst_local: dst,
            a_local: a,
            b_local: b,
            c_local: c,
            fty: f,
        },
    )
}

// ── Clamp ─────────────────────────────────────────────────────────────

/// Block `b` assigns the bare local `l`: by a statement, or as the
/// destination of its call.
pub open spec fn block_assigns(body: Body, b: usize, l: usize) -> bool {
    ||| exists|j: int|
        0 <= j < stmts_of(body, b as int).len() && (#[trigger] stmts_of(body, b as int)[j] matches StatementKind::Assign(
            pl,
            _,
        ) && pl.projection@.len() == 0 && pl.local == l)
    ||| term_of(body, b as int) matches Some(TerminatorKind::Call { destination, .. })
        && destination.projection@.len() == 0 && destination.local == l
}

/// Some block of the loop assigns `l`.
pub open spec fn assigned_in_loop(body: Body, blocks: Seq<usize>, l: usize) -> bool {
    exists|k: int| 0 <= k < blocks.len() && #[trigger] block_assigns(body, blocks[k], l)
}

fn assigned_in_loop_exec(body: &Body, lp: &SimpleLoop, l: usize) -> (r: bool)
    requires
        loop_ok(*body, lp.body@),
    ensures
        r == assigned_in_loop(*body, lp.body@, l),
{
    let mut k: usize = 0;
    while k < lp.body.len()
        invariant
            k <= lp.body@.len(),
            loop_ok(*body, lp.body@),
            forall|q: int| 0 <= q < k ==> !#[trigger] block_assigns(*body, lp.body@[q], l),
        decreases lp.body@.len() - k,
    {
        let bb = lp.body[k];
        let stmts = &body.basic_blocks[bb].statements;
        let mut j: usize = 0;
        while j < stmts.len()
            invariant
                j <= stmts@.len(),
                k < lp.body@.len(),
                bb == lp.body@[k as int],
                stmts@ == stmts_of(*body, bb as int),
                forall|q: int|
                    0 <= q < j ==> !(#[trigger] stmts_of(*body, bb as int)[q] matches StatementKind::Assign(pl, _)
                        && pl.projection@.len() == 0 && pl.local == l),
            decreases stmts@.len() - j,
        {
            match &stmts[j] {
                StatementKind::Assign(pl, _) => {
                    if pl.projection.len() == 0 && pl.local == l {
                        assert(stmts_of(*body, bb as int)[j as int] matches StatementKind::Assign(pl, _)
                            && pl.projection@.len() == 0 && pl.local == l);
                        assert(block_assigns(*body, lp.body@[k as int], l));
                        return true;
                    }
                },
                _ => {},
            }
            j = j + 1;
        }
        match &body.basic_blocks[bb].terminator {
            Some(TerminatorKind::Call { destination, .. }) => {
                if destination.projection.len() == 0 && destination.local == l {
                    assert(block_assigns(*body, lp.body@[k as int], l));
                    return true;
                }
            },
            _ => {},
        }
        k = k + 1;
    }
    false
}

/// A `y[i] = x[i].clamp(lo, hi)` loop to hand to a helper.
#[derive(Clone, Copy, Debug)]
pub struct ClampPlan {
    pub entry_bb: usize,
    pub exit_bb: usize,
    pub dst_local: usize,
    pub src_local: usize,
    pub lo_local: usize,
    pub hi_local: usize,
    pub fty: FloatTy,
}

/// The plan of a clamp loop: the range loop's shape; exactly one write
/// through the index, storing a bare local; the first call (outside the
/// header) into that local calls a function whose path ends in `::clamp`,
/// with three arguments: a value from a slice at the index (through the
/// first read that fills it) and two bare locals `lo`, `hi` (resolved) that
/// no block of the loop assigns; then the destination a `&mut [f64]`, the
/// source a float slice of its type and not the destination, and `lo` and
/// `hi` of type `f64`.
pub open spec fn clamp_plan(body: Body, header: usize, blocks: Seq<usize>) -> Option<ClampPlan> {
    match range_loop_shape(body, header, blocks) {
        None => None,
        Some((entry, exit, i_root)) => {
            let m = alias_map(body, blocks);
            let rs = result_scan(body_stmts(body, blocks, header), m, i_root);
            if rs.0 != 1 {
                None
            } else {
                match rs.1 {
                    None => None,
                    Some((d, res)) => match producer(body, blocks, header, m, res) {
                        None => None,
                        Some(pb) => match term_of(body, pb as int) {
                            Some(TerminatorKind::Call { func: Operand::Constant(Const::FnDef { path }), args, .. }) => {
                                if !ends_with_text(path@, "::clamp"@) || args@.len() != 3 {
                                    None
                                } else {
                                    match (
                                        arg_source(args@[0], all_stmts(body, blocks), m, i_root, true),
                                        bare_local(args@[1]),
                                        bare_local(args@[2]),
                                    ) {
                                        (Some(src), Some(lo_raw), Some(hi_raw)) => {
                                            let lo = alias_walk(m, lo_raw, 16);
                                            let hi = alias_walk(m, hi_raw, 16);
                                            let dst = alias_walk(m, d, 16);
                                            if assigned_in_loop(body, blocks, lo) || assigned_in_loop(body, blocks, hi) {
                                                None
                                            } else {
                                                match ref_slice_float(local_ty(body, dst), true) {
                                                    None => None,
                                                    Some(f) => if ref_slice_float(local_ty(body, src), false) == Some(f)
                                                        && local_ty(body, lo) == LocalTy::Scalar(ScalarTy::F64)
                                                        && local_ty(body, hi) == LocalTy::Scalar(ScalarTy::F64) && dst
                                                        != src {
                                                        Some(
                                                            ClampPlan {
                                                                entry_bb: entry,
                                                                exit_bb: exit,
                                                                dst_local: dst,
                                                                src_local: src,
                                                                lo_local: lo,
                                                                hi_local: hi,
                                                                fty: f,
                                                            },
                                                        )
                                                    } else {
                                                        None
                                                    },
                                                }
                                            }
                                        },
                                        _ => None,
                                    }
                                }
                            },
                            _ => None,
                        },
                    },
                }
            }
        },
    }
}

/// Matches a clamp loop, `y[i] = x[i].clamp(lo, hi)` over a range, with
/// bounds that the loop does not change.
pub fn analyze_clamp_loop(body: &Body, lp: &SimpleLoop) -> (r: Option<ClampPlan>)
    requires
        body.targets_valid(),
        body.all_terminated(),
        loop_ok(*body, lp.body@),
        lp.header < body.num_blocks(),
    ensures
        r == clamp_plan(*body, lp.header, lp.body@),
{
    let shape = match detect_range_loop_shape(body, lp) {
        Some(s) => s,
        None => {
            return None;
        },
    };
    let m = &shape.alias_root;
    let i_root = shape.i_root;
    let stmts = loop_stmts(body, lp, true);
    proof {
        assert(stmts@.map_values(|s: &StatementKind| *s) =~= body_stmts(*body, lp.body@, lp.header));
    }
    let (n, chosen) = result_scan_exec(&stmts, m, i_root);
    if n != 1 {
        return None;
    }
    let (d, res) = match chosen {
        Some(x) => x,
        None => {
            return None;
        },
    };
    let pb = match producer_exec(body, lp, m, res) {
        Some(b) => b,
        None => {
            return None;
        },
    };
    let (path, args) = match &body.basic_blocks[pb].terminator {
        Some(TerminatorKind::Call { func: Operand::Constant(Const::FnDef { path }), args, .. }) => (path, args),
        _ => {
            return None;
        },
    };
    if !ends_with_str(path.as_str(), "::clamp") || args.len() != 3 {
        return None;
    }
    let all = loop_stmts(body, lp, false);
    proof {
        assert(all@.map_values(|s: &StatementKind| *s) =~= all_stmts(*body, lp.body@));
    }
    let src = arg_source_exec(&args[0], &all, m, i_root, true);
    let lo_raw = bare_local_exec(&args[1]);
    let hi_raw = bare_local_exec(&args[2]);
    let (src, lo, hi) = match (src, lo_raw, hi_raw) {
        (Some(s), Some(l), Some(h)) => (s, LoopShape::resolve(m, l), LoopShape::resolve(m, h)),
        _ => {
            return None;
        },
    };
    if assigned_in_loop_exec(body, lp, lo) || assigned_in_loop_exec(body, lp, hi) {
        return None;
    }
    let dst = LoopShape::resolve(m, d);
    let f = match ref_slice_float_ty(local_ty_of(body, dst), true) {
        Some(f) => f,
        None => {
            return None;
        },
    };
    if ref_slice_float_ty(local_ty_of(body, src), false) != Some(f) || local_ty_of(body, lo) != LocalTy::Scalar(
        ScalarTy::F64,
    ) || local_ty_of(body, hi) != LocalTy::Scalar(ScalarTy::F64) || dst == src {
        return None;
    }
    Some(
        ClampPlan {
            entry_bb: shape.entry_bb,
            exit_bb: shape.exit_bb,
            dst_local: dst,
            src_local: src,
            lo_local: lo,
            hi_local: hi,
            fty: f,
        },
    )
}

// ── Element-wise write ────────────────────────────────────────────────

/// What the statements hold for the element-wise match: the number of
/// writes through the index, the last of them (destination, right-hand
/// side), and the indexed reads into bare locals (into, slice).
pub open spec fn elemwise_scan(ss: Seq<StatementKind>, m: Map<usize, usize>, i_root: usize) -> (
    nat,
    Option<(usize, Rvalue)>,
    Seq<(usize, usize)>,
)
    decreases ss.len(),
{
    if ss.len() == 0 {
        (0, None, Seq::empty())
    } else {
        let p = elemwise_scan(ss.drop_last(), m, i_root);
        match ss.last() {
            StatementKind::Assign(place, rv) => if i_indexed(place.projection@, m, i_root) {
                (p.0 + 1, Some((place.local, rv)), p.2)
            } else if place.projection@.len() == 0 {
                match rv {
                    Rvalue::Use(o) => match op_place(o) {
                        Some(q) => if i_indexed(q.projection@, m, i_root) {
                            (p.0, p.1, p.2.push((place.local, q.local)))
                        } else {
                            p
                        },
                        None => p,
                    },
                    _ => p,
                }
            } else {
                p
            },
            _ => p,
        }
    }
}

/// The slice of the first read into (an alias of) `l`, resolved.
pub open spec fn read_src(reads: Seq<(usize, usize)>, m: Map<usize, usize>, l: usize) -> Option<usize>
    decreases reads.len(),
{
    if reads.len() == 0 {
        None
    } else if alias_walk(m, reads[0].0, 16) == alias_walk(m, l, 16) {
        Some(alias_walk(m, reads[0].1, 16))
    } else {
        read_src(reads.skip(1), m, l)
    }
}

/// The slice an operand comes from: read at the index directly, or a bare
/// local filled by a read.
pub open spec fn operand_src(o: Operand, reads: Seq<(usize, usize)>, m: Map<usize, usize>, i_root: usize) -> Option<usize> {
    match op_place(o) {
        None => None,
        Some(p) => if i_indexed(p.projection@, m, i_root) {
            Some(alias_walk(m, p.local, 16))
        } else if p.projection@.len() == 0 {
            read_src(reads, m, p.local)
        } else {
            None
        },
    }
}

/// What an element-wise loop writes.
#[derive(Clone, Copy, Debug, PartialEq, Eq, Structural)]
pub enum ElemwiseShape {
    /// `dst[i] = c` for a constant; `bits` are its raw bits as an `f64`.
    FillConst { bits: u64 },
    /// `dst[i] = s` for a float local that the loop does not assign.
    FillRuntime { src: usize },
    /// `dst[i] = src[i]`.
    Copy { src: usize },
    /// `dst[i] = a[i] + b[i]`.
    ZipAdd { a: usize, b: usize },
    /// `dst[i] = a[i] * b[i]`.
    ZipMul { a: usize, b: usize },
    /// `dst[i] = a[i] / b[i]`.
    ZipDiv { a: usize, b: usize },
}

/// An element-wise loop to hand to a helper.
#[derive(Clone, Copy, Debug)]
pub struct ElemwisePlan {
    pub entry_bb: usize,
    pub exit_bb: usize,
    pub dst_local: usize,
    pub shape: ElemwiseShape,
    pub fty: FloatTy,
}

/// The shape of the single write's right-hand side (before the type checks
/// of its sources): a constant of at most 64 bits, a source slice's
/// element, a float local that the loop leaves alone, or a sum, product or
/// quotient of two source elements neither of which is the (unresolved)
/// destination.
pub open spec fn elemwise_shape_of(
    body: Body,
    blocks: Seq<usize>,
    d: usize,
    rv: Rvalue,
    reads: Seq<(usize, usize)>,
    m: Map<usize, usize>,
    i_root: usize,
) -> Option<ElemwiseShape> {
    match rv {
        Rvalue::Use(Operand::Constant(c)) => match const_bits(c) {
            Some(bits) => if bits <= u64::MAX {
                Some(ElemwiseShape::FillConst { bits: bits as u64 })
            } else {
                None
            },
            None => None,
        },
        Rvalue::Use(o) => match operand_src(o, reads, m, i_root) {
            Some(src) => Some(ElemwiseShape::Copy { src }),
            None => match bare_local(o) {
                Some(sl) => {
                    let r = alias_walk(m, sl, 16);
                    if local_ty(body, r) != LocalTy::Scalar(ScalarTy::F64) || assigned_in_loop(body, blocks, r) {
                        None
                    } else {
                        Some(ElemwiseShape::FillRuntime { src: r })
                    }
                },
                None => None,
            },
        },
        Rvalue::BinaryOp(op, lhs, rhs) => match (operand_src(lhs, reads, m, i_root), operand_src(rhs, reads, m, i_root)) {
            (Some(a), Some(b)) => if a == d || b == d {
                None
            } else if op == BinOp::Add || op == BinOp::AddUnchecked {
                Some(ElemwiseShape::ZipAdd { a, b })
            } else if op == BinOp::Mul || op == BinOp::MulUnchecked {
                Some(ElemwiseShape::ZipMul { a, b })
            } else if op == BinOp::Div {
                Some(ElemwiseShape::ZipDiv { a, b })
            } else {
                None
            },
            _ => None,
        },
        _ => None,
    }
}

/// The sources of a shape pass the type checks: float slices of the
/// destination's type, none of them the (resolved) destination.
pub open spec fn elemwise_sources_ok(body: Body, dst: usize, sh: ElemwiseShape, f: FloatTy) -> bool {
    match sh {
        ElemwiseShape::Copy { src } => ref_slice_float(local_ty(body, src), false) == Some(f) && dst != src,
        ElemwiseShape::ZipAdd { a, b } => ref_slice_float(local_ty(body, a), false) == Some(f) && ref_slice_float(
            local_ty(body, b),
            false,
        ) == Some(f) && dst != a && dst != b,
        ElemwiseShape::ZipMul { a, b } => ref_slice_float(local_ty(body, a), false) == Some(f) && ref_slice_float(
            local_ty(body, b),
            false,
        ) == Some(f) && dst != a && dst != b,
        ElemwiseShape::ZipDiv { a, b } => ref_slice_float(local_ty(body, a), false) == Some(f) && ref_slice_float(
            local_ty(body, b),
            false,
        ) == Some(f) && dst != a && dst != b,
        _ => true,
    }
}

/// The plan of an element-wise loop: the range loop's shape; exactly one
/// write through the index, the destination (resolved) a `&mut [f64]`;
/// the write's shape; and its sources' types.
pub open spec fn elemwise_plan(body: Body, header: usize, blocks: Seq<usize>) -> Option<ElemwisePlan> {
    match range_loop_shape(body, header, blocks) {
        None => None,
        Some((entry, exit, i_root)) => {
            let m = alias_map(body, blocks);
            let sc = elemwise_scan(body_stmts(body, blocks, header), m, i_root);
            if sc.0 != 1 {
                None
            } else {
                match sc.1 {
                    None => None,
                    Some((d, rv)) => {
                        let dst = alias_walk(m, d, 16);
                        match ref_slice_float(local_ty(body, dst), true) {
                            None => None,
                            Some(f) => match elemwise_shape_of(body, blocks, d, rv, sc.2, m, i_root) {
                                None => None,
                                Some(sh) => if elemwise_sources_ok(body, dst, sh, f) {
                                    Some(ElemwisePlan { entry_bb: entry, exit_bb: exit, dst_local: dst, shape: sh, fty: f })
                                } else {
                                    None
                                },
                            },
                        }
                    },
                }
            }
        },
    }
}

fn read_src_exec(reads: &Vec<(usize, usize)>, m: &BTreeMap<usize, usize>, l: usize) -> (r: Option<usize>)
    ensures
        r == read_src(reads@, m@, l),
{
    let root = LoopShape::resolve(m, l);
    let mut j: usize = 0;
    assert(reads@.skip(0) =~= reads@);
    while j < reads.len()
        invariant
            j <= reads@.len(),
            root == alias_walk(m@, l, 16),
            read_src(reads@, m@, l) == read_src(reads@.skip(j as int), m@, l),
        decreases reads@.len() - j,
    {
        proof {
            assert(reads@.skip(j as int)[0] == reads@[j as int]);
            assert(reads@.skip(j as int).skip(1) =~= reads@.skip(j + 1));
        }
        if reads[j].0 == l || LoopShape::resolve(m, reads[j].0) == root {
            return Some(LoopShape::resolve(m, reads[j].1));
        }
        j = j + 1;
    }
    None
}

fn operand_src_exec(o: &Operand, reads: &Vec<(usize, usize)>, m: &BTreeMap<usize, usize>, i_root: usize) -> (r: Option<usize>)
    ensures
        r == operand_src(*o, reads@, m@, i_root),
{
    match o {
        Operand::Copy(p) | Operand::Move(p) => {
            if i_indexed_exec(&p.projection, m, i_root) {
                Some(LoopShape::resolve(m, p.local))
            } else if p.projection.len() == 0 {
                read_src_exec(reads, m, p.local)
            } else {
                None
            }
        },
        Operand::Constant(_) => None,
    }
}

fn elemwise_sources_ok_exec(body: &Body, dst: usize, sh: ElemwiseShape, f: FloatTy) -> (r: bool)
    ensures
        r == elemwise_sources_ok(*body, dst, sh, f),
{
    match sh {
        ElemwiseShape::Copy { src } => ref_slice_float_ty(local_ty_of(body, src), false) == Some(f) && dst != src,
        ElemwiseShape::ZipAdd { a, b } | ElemwiseShape::ZipMul { a, b } | ElemwiseShape::ZipDiv { a, b } => {
            ref_slice_float_ty(local_ty_of(body, a), false) == Some(f) && ref_slice_float_ty(local_ty_of(body, b), false)
                == Some(f) && dst != a && dst != b
        },
        _ => true,
    }
}

/// Matches an element-wise write loop over a range: a fill with a
/// constant or a loop-invariant float, a copy, or a sum, product or
/// quotient of two slices.
pub fn analyze_elemwise_write_loop(body: &Body, lp: &SimpleLoop) -> (r: Option<ElemwisePlan>)
    requires
        body.targets_valid(),
        body.all_terminated(),
        loop_ok(*body, lp.body@),
        lp.header < body.num_blocks(),
    ensures
        r == elemwise_plan(*body, lp.header, lp.body@),
{
    let shape = match detect_range_loop_shape(body, lp) {
        Some(s) => s,
        None => {
            return None;
        },
    };
    let m = &shape.alias_root;
    let i_root = shape.i_root;
    let stmts = loop_stmts(body, lp, true);
    let ghost ss = body_stmts(*body, lp.body@, lp.header);
    let mut n: usize = 0;
    let mut found: Option<(usize, &Rvalue)> = None;
    let mut reads: Vec<(usize, usize)> = Vec::new();
    let mut k: usize = 0;
    while k < stmts.len()
        invariant
            k <= stmts@.len(),
            stmts@.len() == ss.len(),
            forall|i: int| 0 <= i < stmts@.len() ==> *stmts@[i] == ss[i],
            n <= k,
            ({
                let sc = elemwise_scan(ss.take(k as int), m@, i_root);
                &&& n == sc.0
                &&& match found {
                    None => sc.1 is None,
                    Some((d, rv)) => sc.1 == Some((d, *rv)),
                }
                &&& reads@ == sc.2
            }),
        decreases stmts@.len() - k,
    {
        proof {
            lemma_prefix_step(ss, k as int);
        }
        match stmts[k] {
            StatementKind::Assign(place, rvalue) => {
                if i_indexed_exec(&place.projection, m, i_root) {
                    n = n + 1;
                    found = Some((place.local, rvalue));
                } else if place.projection.len() == 0 {
                    match rvalue {
                        Rvalue::Use(Operand::Copy(q)) | Rvalue::Use(Operand::Move(q)) => {
                            if i_indexed_exec(&q.projection, m, i_root) {
                                reads.push((place.local, q.local));
                            }
                        },
                        _ => {},
                    }
                }
            },
            _ => {},
        }
        k = k + 1;
    }
    proof {
        assert(ss.take(k as int) =~= ss);
    }
    if n != 1 {
        return None;
    }
    let (d, rv) = match found {
        Some(x) => x,
        None => {
            return None;
        },
    };
    let dst = LoopShape::resolve(m, d);
    let f = match ref_slice_float_ty(local_ty_of(body, dst), true) {
        Some(f) => f,
        None => {
            return None;
        },
    };
    let sh = match rv {
        Rvalue::Use(Operand::Constant(c)) => {
            let bits = match eval_const_bits(c) {
                Some(b) => b,
                None => {
                    return None;
                },
            };
            if bits > u64::MAX as u128 {
                return None;
            }
            ElemwiseShape::FillConst { bits: bits as u64 }
        },
        Rvalue::Use(o) => match operand_src_exec(o, &reads, m, i_root) {
            Some(src) => ElemwiseShape::Copy { src },
            None => match bare_local_exec(o) {
                Some(sl) => {
                    let r = LoopShape::resolve(m, sl);
                    if local_ty_of(body, r) != LocalTy::Scalar(ScalarTy::F64) || assigned_in_loop_exec(body, lp, r) {
                        return None;
                    }
                    ElemwiseShape::FillRuntime { src: r }
                },
                None => {
                    return None;
                },
            },
        },
        Rvalue::BinaryOp(op, lhs, rhs) => {
            let (a, b) = match (operand_src_exec(lhs, &reads, m, i_root), operand_src_exec(rhs, &reads, m, i_root)) {
                (Some(a), Some(b)) => (a, b),
                _ => {
                    return None;
                },
            };
            if a == d || b == d {
                return None;
            }
            if *op == BinOp::Add || *op == BinOp::AddUnchecked {
                ElemwiseShape::ZipAdd { a, b }
            } else if *op == BinOp::Mul || *op == BinOp::MulUnchecked {
                ElemwiseShape::ZipMul { a, b }
            } else if *op == BinOp::Div {
                ElemwiseShape::ZipDiv { a, b }
            } else {
                return None;
            }
        },
        _ => {
            return None;
        },
    };
    if !elemwise_sources_ok_exec(body, dst, sh, f) {
        return None;
    }
    Some(ElemwisePlan { entry_bb: shape.entry_bb, exit_bb: shape.exit_bb, dst_local: dst, shape: sh, fty: f })
}

// ── Two-term axpy ─────────────────────────────────────────────────────

/// The addition of two bare locals that a write through the index stores:
/// (y, t1, t2), the last such write.
pub open spec fn sum_write_scan(ss: Seq<StatementKind>, m: Map<usize, usize>, i_root: usize) -> (nat, Option<(usize, usize, usize)>)
    decreases ss.len(),
{
    if ss.len() == 0 {
        (0, None)
    } else {
        let p = sum_write_scan(ss.drop_last(), m, i_root);
        match ss.last() {
            StatementKind::Assign(place, rv) => if i_indexed(place.projection@, m, i_root) {
                (
                    p.0 + 1,
                    match rv {
                        Rvalue::BinaryOp(op, l, r) => if op == BinOp::Add || op == BinOp::AddUnchecked {
                            match (bare_local(l), bare_local(r)) {
                                (Some(a), Some(b)) => Some((place.local, a, b)),
                                _ => p.1,
                            }
                        } else {
                            p.1
                        },
                        _ => p.1,
                    },
                )
            } else {
                p
            },
            _ => p,
        }
    }
}

/// A statement `t = s * x` (or `x * s`) into a bare local resolving to
/// `root`, with `s` a bare local and `x` from a slice at the index: (s
/// resolved, x); the scalar is looked for on the left first.
pub open spec fn mul_split_of(s: StatementKind, m: Map<usize, usize>, i_root: usize, root: usize, all: Seq<StatementKind>) -> Option<(usize, usize)> {
    match s {
        StatementKind::Assign(place, Rvalue::BinaryOp(op, l, r)) => if place.projection@.len() == 0 && alias_walk(
            m,
            place.local,
            16,
        ) == root && (op == BinOp::Mul || op == BinOp::MulUnchecked) {
            match fma_split(l, r, all, m, i_root) {
                Some((sv, x)) => Some((alias_walk(m, sv, 16), x)),
                None => match fma_split(r, l, all, m, i_root) {
                    Some((sv, x)) => Some((alias_walk(m, sv, 16), x)),
                    None => None,
                },
            }
        } else {
            None
        },
        _ => None,
    }
}

/// The first such statement.
pub open spec fn first_mul_split(ss: Seq<StatementKind>, m: Map<usize, usize>, i_root: usize, root: usize, all: Seq<StatementKind>) -> Option<(usize, usize)>
    decreases ss.len(),
{
    if ss.len() == 0 {
        None
    } else {
        match mul_split_of(ss[0], m, i_root, root, all) {
            Some(x) => Some(x),
            None => first_mul_split(ss.skip(1), m, i_root, root, all),
        }
    }
}

/// A `y[i] = alpha * x[i] + beta * z[i]` loop to hand to a helper.
#[derive(Clone, Copy, Debug)]
pub struct MultiAxpyPlan {
    pub entry_bb: usize,
    pub exit_bb: usize,
    pub dst_local: usize,
    pub x_local: usize,
    pub alpha_local: usize,
    pub z_local: usize,
    pub beta_local: usize,
    pub fty: FloatTy,
}

/// The plan of a two-term axpy loop: the range loop's shape; exactly one
/// write through the index, of the sum of two bare locals `t1`, `t2`; the
/// first products into (aliases of) them, each of a scalar local and a
/// slice element; then the destination a `&mut [f64]`, `x` and `z` float
/// slices of its type, `alpha` and `beta` of type `f64`, neither slice the
/// destination, and `x` not `z`.
pub open spec fn multi_axpy_plan(body: Body, header: usize, blocks: Seq<usize>) -> Option<MultiAxpyPlan> {
    match range_loop_shape(body, header, blocks) {
        None => None,
        Some((entry, exit, i_root)) => {
            let m = alias_map(body, blocks);
            let ss = body_stmts(body, blocks, header);
            let all = all_stmts(body, blocks);
            let sc = sum_write_scan(ss, m, i_root);
            if sc.0 != 1 {
                None
            } else {
                match sc.1 {
                    None => None,
                    Some((d, t1, t2)) => match (
                        first_mul_split(ss, m, i_root, alias_walk(m, t1, 16), all),
                        first_mul_split(ss, m, i_root, alias_walk(m, t2, 16), all),
                    ) {
                        (Some((alpha, x)), Some((beta, z))) => {
                            let dst = alias_walk(m, d, 16);
                            match ref_slice_float(local_ty(body, dst), true) {
                                None => None,
                                Some(f) => if ref_slice_float(local_ty(body, x), false) == Some(f) && ref_slice_float(
                                    local_ty(body, z),
                                    false,
                                ) == Some(f) && local_ty(body, alpha) == LocalTy::Scalar(ScalarTy::F64) && local_ty(
                                    body,
                                    beta,
                                ) == LocalTy::Scalar(ScalarTy::F64) && dst != x && dst != z && x != z {
                                    Some(
                                        MultiAxpyPlan {
                                            entry_bb: entry,
                                            exit_bb: exit,
                                            dst_local: dst,
                                            x_local: x,
                                            alpha_local: alpha,
                                            z_local: z,
                                            beta_local: beta,
                                            fty: f,
                                        },
                                    )
                                } else {
                                    None
                                },
                            }
                        },
                        _ => None,
                    },
                }
            }
        },
    }
}

fn mul_split_of_exec(
    s: &StatementKind,
    m: &BTreeMap<usize, usize>,
    i_root: usize,
    root: usize,
    all: &Vec<&StatementKind>,
) -> (r: Option<(usize, usize)>)
    ensures
        r == mul_split_of(*s, m@, i_root, root, all@.map_values(|t: &StatementKind| *t)),
{
    match s {
        StatementKind::Assign(place, Rvalue::BinaryOp(op, l, r)) => {
            if place.projection.len() != 0 || LoopShape::resolve(m, place.local) != root || !(*op == BinOp::Mul || *op
                == BinOp::MulUnchecked) {
                return None;
            }
            match fma_split_exec(l, r, all, m, i_root) {
                Some((sv, x)) => Some((LoopShape::resolve(m, sv), x)),
                None => match fma_split_exec(r, l, all, m, i_root) {
                    Some((sv, x)) => Some((LoopShape::resolve(m, sv), x)),
                    None => None,
                },
            }
        },
        _ => None,
    }
}

fn first_mul_split_exec(
    ss: &Vec<&StatementKind>,
    m: &BTreeMap<usize, usize>,
    i_root: usize,
    root: usize,
    all: &Vec<&StatementKind>,
) -> (r: Option<(usize, usize)>)
    ensures
        r == first_mul_split(ss@.map_values(|t: &StatementKind| *t), m@, i_root, root, all@.map_values(|t: &StatementKind| *t)),
{
    let ghost sv = ss@.map_values(|t: &StatementKind| *t);
    let ghost av = all@.map_values(|t: &StatementKind| *t);
    let mut j: usize = 0;
    assert(sv.skip(0) =~= sv);
    while j < ss.len()
        invariant
            j <= ss@.len(),
            sv == ss@.map_values(|t: &StatementKind| *t),
            av == all@.map_values(|t: &StatementKind| *t),
            first_mul_split(sv, m@, i_root, root, av) == first_mul_split(sv.skip(j as int), m@, i_root, root, av),
        decreases ss@.len() - j,
    {
        proof {
            assert(sv.skip(j as int)[0] == sv[j as int]);
            assert(sv[j as int] == *ss@[j as int]);
            assert(sv.skip(j as int).skip(1) =~= sv.skip(j + 1));
        }
        match mul_split_of_exec(ss[j], m, i_root, root, all) {
            Some(x) => {
                return Some(x);
            },
            None => {},
        }
        j = j + 1;
    }
    None
}

/// Matches a two-term axpy loop, `y[i] = alpha * x[i] + beta * z[i]` over
/// a range.
pub fn analyze_multi_axpy_loop(body: &Body, lp: &SimpleLoop) -> (r: Option<MultiAxpyPlan>)
    requires
        body.targets_valid(),
        body.all_terminated(),
        loop_ok(*body, lp.body@),
        lp.header < body.num_blocks(),
    ensures
        r == multi_axpy_plan(*body, lp.header, lp.body@),
{
    let shape = match detect_range_loop_shape(body, lp) {
        Some(s) => s,
        None => {
            return None;
        },
    };
    let m = &shape.alias_root;
    let i_root = shape.i_root;
    let stmts = loop_stmts(body, lp, true);
    let all = loop_stmts(body, lp, false);
    let ghost ss = body_stmts(*body, lp.body@, lp.header);
    proof {
        assert(stmts@.map_values(|s: &StatementKind| *s) =~= ss);
        assert(all@.map_values(|s: &StatementKind| *s) =~= all_stmts(*body, lp.body@));
    }
    let mut n: usize = 0;
    let mut chosen: Option<(usize, usize, usize)> = None;
    let mut k: usize = 0;
    while k < stmts.len()
        invariant
            k <= stmts@.len(),
            stmts@.len() == ss.len(),
            forall|i: int| 0 <= i < stmts@.len() ==> *stmts@[i] == ss[i],
            n <= k,
            n == sum_write_scan(ss.take(k as int), m@, i_root).0,
            chosen == sum_write_scan(ss.take(k as int), m@, i_root).1,
        decreases stmts@.len() - k,
    {
        proof {
            lemma_prefix_step(ss, k as int);
        }
        match stmts[k] {
            StatementKind::Assign(place, rvalue) => {
                if i_indexed_exec(&place.projection, m, i_root) {
                    n = n + 1;
                    match rvalue {
                        Rvalue::BinaryOp(op, l, r) => {
                            if *op == BinOp::Add || *op == BinOp::AddUnchecked {
                                match (bare_local_exec(l), bare_local_exec(r)) {
                                    (Some(a), Some(b)) => {
                                        chosen = Some((place.local, a, b));
                                    },
                                    _ => {},
                                }
                            }
                        },
                        _ => {},
                    }
                }
            },
            _ => {},
        }
        k = k + 1;
    }
    proof {
        assert(ss.take(k as int) =~= ss);
    }
    if n != 1 {
        return None;
    }
    let (d, t1, t2) = match chosen {
        Some(x) => x,
        None => {
            return None;
        },
    };
    let first = first_mul_split_exec(&stmts, m, i_root, LoopShape::resolve(m, t1), &all);
    let second = first_mul_split_exec(&stmts, m, i_root, LoopShape::resolve(m, t2), &all);
    let (alpha, x, beta, z) = match (first, second) {
        (Some((alpha, x)), Some((beta, z))) => (alpha, x, beta, z),
        _ => {
            return None;
        },
    };
    let dst = LoopShape::resolve(m, d);
    let f = match ref_slice_float_ty(local_ty_of(body, dst), true) {
        Some(f) => f,
        None => {
            return None;
        },
    };
    if ref_slice_float_ty(local_ty_of(body, x), false) != Some(f) || ref_slice_float_ty(local_ty_of(body, z), false)
        != Some(f) || local_ty_of(body, alpha) != LocalTy::Scalar(ScalarTy::F64) || local_ty_of(body, beta)
        != LocalTy::Scalar(ScalarTy::F64) || dst == x || dst == z || x == z {
        return None;
    }
    Some(
        MultiAxpyPlan {
            entry_bb: shape.entry_bb,
            exit_bb: shape.exit_bb,
            dst_local: dst,
            x_local: x,
            alpha_local: alpha,
            z_local: z,
            beta_local: beta,
            fty: f,
        },
    )
}

} // verus!
