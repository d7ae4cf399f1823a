//! Loops over a range that combine two float slices element by element:
//! `y[i] = a[i] - b[i]` (zip-sub write) and `y[i] += (a[i] - b[i])^2`
//! (zip diff-square add). The statements are collected first (indexed
//! reads, subtractions, squares, writes) and then tied together.
use vstd::prelude::*;
use std::collections::BTreeMap;
use crate::mir::{Body, StatementKind, Operand, Rvalue, BinOp, LocalTy, local_ty, local_ty_of};
use crate::idioms::FloatTy;
use crate::detect::{SimpleLoop, loop_ok};
use crate::shape::{alias_walk, alias_map, range_loop_shape, detect_range_loop_shape, LoopShape, bare_local};
use crate::axpy::{
    i_indexed, op_place, self_indexed, body_stmts, ref_slice_float, ref_slice_float_ty, i_indexed_exec,
    self_indexed_exec, bare_local_exec,
};
use crate::apply_loops::{loop_stmts, lemma_prefix_step};

verus! {

/// Both operands are bare locals.
pub open spec fn both_bare(l: Operand, r: Operand) -> Option<(usize, usize)> {
    match (bare_local(l), bare_local(r)) {
        (Some(a), Some(b)) => Some((a, b)),
        _ => None,
    }
}

pub open spec fn is_sub_op(op: BinOp) -> bool {
    op == BinOp::Sub || op == BinOp::SubUnchecked
}

/// A read `v = (*x)[i]` into a bare local: (v, x).
pub open spec fn plain_read(place_local: usize, rv: Rvalue, m: Map<usize, usize>, i_root: usize) -> Option<(usize, usize)> {
    match rv {
        Rvalue::Use(op) => match op_place(op) {
            Some(q) => if i_indexed(q.projection@, m, i_root) {
                Some((place_local, q.local))
            } else {
                None
            },
            None => None,
        },
        _ => None,
    }
}

fn both_bare_exec(l: &Operand, r: &Operand) -> (res: Option<(usize, usize)>)
    ensures
        res == both_bare(*l, *r),
{
    match (bare_local_exec(l), bare_local_exec(r)) {
        (Some(a), Some(b)) => Some((a, b)),
        _ => None,
    }
}

fn plain_read_exec(place_local: usize, rv: &Rvalue, m: &BTreeMap<usize, usize>, i_root: usize) -> (r: Option<(usize, usize)>)
    ensures
        r == plain_read(place_local, *rv, m@, i_root),
{
    match rv {
        Rvalue::Use(Operand::Copy(q)) | Rvalue::Use(Operand::Move(q)) => {
            if i_indexed_exec(&q.projection, m, i_root) {
                Some((place_local, q.local))
            } else {
                None
            }
        },
        _ => None,
    }
}

// ── Zip-sub write ─────────────────────────────────────────────────────

/// What the statements hold for the zip-sub match: the number of writes
/// through the index; their destinations; per write, the bare local it
/// stores (or none for `a - b` written inline); the subtractions of two
/// bare locals (inline ones included): (into, a, b); the indexed reads:
/// (into, slice).
pub open spec fn zip_sub_scan(ss: Seq<StatementKind>, m: Map<usize, usize>, i_root: usize) -> (
    nat,
    Seq<usize>,
    Seq<(usize, Option<usize>)>,
    Seq<(usize, usize, usize)>,
    Seq<(usize, usize)>,
)
    decreases ss.len(),
{
    if ss.len() == 0 {
        (0, Seq::empty(), Seq::empty(), Seq::empty(), Seq::empty())
    } else {
        let p = zip_sub_scan(ss.drop_last(), m, i_root);
        match ss.last() {
            StatementKind::Assign(place, rv) => if i_indexed(place.projection@, m, i_root) {
                let d = place.local;
                match rv {
                    Rvalue::Use(op) => match bare_local(op) {
                        Some(v) => (p.0 + 1, p.1.push(d), p.2.push((d, Some(v))), p.3, p.4),
                        None => (p.0 + 1, p.1.push(d), p.2, p.3, p.4),
                    },
                    Rvalue::BinaryOp(op, l, r) => if is_sub_op(op) {
                        match both_bare(l, r) {
                            Some((a, b)) => (p.0 + 1, p.1.push(d), p.2.push((d, None)), p.3.push((d, a, b)), p.4),
                            None => (p.0 + 1, p.1.push(d), p.2, p.3, p.4),
                        }
                    } else {
                        (p.0 + 1, p.1.push(d), p.2, p.3, p.4)
                    },
                    _ => (p.0 + 1, p.1.push(d), p.2, p.3, p.4),
                }
            } else if place.projection@.len() == 0 {
                match plain_read(place.local, rv, m, i_root) {
                    Some(rd) => (p.0, p.1, p.2, p.3, p.4.push(rd)),
                    None => match rv {
                        Rvalue::BinaryOp(op, l, r) => if is_sub_op(op) {
                            match both_bare(l, r) {
                                Some((a, b)) => (p.0, p.1, p.2, p.3.push((place.local, a, b)), p.4),
                                None => p,
                            }
                        } else {
                            p
                        },
                        _ => p,
                    },
                }
            } else {
                p
            },
            _ => p,
        }
    }
}

/// The first write kind recorded for `d`.
pub open spec fn first_kind(kinds: Seq<(usize, Option<usize>)>, d: usize) -> Option<Option<usize>>
    decreases kinds.len(),
{
    if kinds.len() == 0 {
        None
    } else if kinds[0].0 == d {
        Some(kinds[0].1)
    } else {
        first_kind(kinds.skip(1), d)
    }
}

/// The operands of the first subtraction into `t`.
pub open spec fn first_sub(subs: Seq<(usize, usize, usize)>, t: usize) -> Option<(usize, usize)>
    decreases subs.len(),
{
    if subs.len() == 0 {
        None
    } else if subs[0].0 == t {
        Some((subs[0].1, subs[0].2))
    } else {
        first_sub(subs.skip(1), t)
    }
}

/// The slice of the first read into `x`, or `x` itself.
pub open spec fn lookup_read(reads: Seq<(usize, usize)>, x: usize) -> usize
    decreases reads.len(),
{
    if reads.len() == 0 {
        x
    } else if reads[0].0 == x {
        reads[0].1
    } else {
        lookup_read(reads.skip(1), x)
    }
}

/// A `y[i] = a[i] - b[i]` loop to hand to a helper.
#[derive(Clone, Copy, Debug)]
pub struct ZipSubWritePlan {
    pub entry_bb: usize,
    pub exit_bb: usize,
    pub dst_local: usize,
    pub a_local: usize,
    pub b_local: usize,
    pub fty: FloatTy,
}

/// The plan of a zip-sub write loop: the range loop's shape; exactly one
/// write through the index, of a bare local or of `a - b` inline; the
/// first subtraction into that local (or into the destination, inline)
/// with its operands traced back through their first indexed reads; then
/// (resolved) the destination a `&mut [f64]`, both sources float slices of
/// its type, and neither the destination.
pub open spec fn zip_sub_write_plan(body: Body, header: usize, blocks: Seq<usize>) -> Option<ZipSubWritePlan> {
    match range_loop_shape(body, header, blocks) {
        None => None,
        Some((entry, exit, i_root)) => {
            let m = alias_map(body, blocks);
            let sc = zip_sub_scan(body_stmts(body, blocks, header), m, i_root);
            if sc.0 != 1 || sc.1.len() != 1 {
                None
            } else {
                let d = sc.1[0];
                match first_kind(sc.2, d) {
                    None => None,
                    Some(k) => {
                        let tag = match k {
                            Some(v) => v,
                            None => d,
                        };
                        match first_sub(sc.3, tag) {
                            None => None,
                            Some((la, lb)) => {
                                let a = alias_walk(m, lookup_read(sc.4, la), 16);
                                let b = alias_walk(m, lookup_read(sc.4, lb), 16);
                                let dst = alias_walk(m, d, 16);
                                match (
                                    ref_slice_float(local_ty(body, dst), true),
                                    ref_slice_float(local_ty(body, a), false),
                                    ref_slice_float(local_ty(body, b), false),
                                ) {
                                    (Some(f), Some(fa), Some(fb)) => if f == fa && f == fb && dst != a && dst != b {
                                        Some(
                                            ZipSubWritePlan {
                                                entry_bb: entry,
                                                exit_bb: exit,
                                                dst_local: dst,
                                                a_local: a,
                                                b_local: b,
                                                fty: f,
                                            },
                                        )
                                    } else {
                                        None
                                    },
                                    _ => None,
                                }
                            },
                        }
                    },
                }
            }
        },
    }
}

fn first_kind_exec(kinds: &Vec<(usize, Option<usize>)>, d: usize) -> (r: Option<Option<usize>>)
    ensures
        r == first_kind(kinds@, d),
{
    let mut j: usize = 0;
    assert(kinds@.skip(0) =~= kinds@);
    while j < kinds.len()
        invariant
            j <= kinds@.len(),
            first_kind(kinds@, d) == first_kind(kinds@.skip(j as int), d),
        decreases kinds@.len() - j,
    {
        proof {
            assert(kinds@.skip(j as int)[0] == kinds@[j as int]);
            assert(kinds@.skip(j as int).skip(1) =~= kinds@.skip(j + 1));
        }
        if kinds[j].0 == d {
            return Some(kinds[j].1);
        }
        j = j + 1;
    }
    None
}

fn first_sub_exec(subs: &Vec<(usize, usize, usize)>, t: usize) -> (r: Option<(usize, usize)>)
    ensures
        r == first_sub(subs@, t),
{
    let mut j: usize = 0;
    assert(subs@.skip(0) =~= subs@);
    while j < subs.len()
        invariant
            j <= subs@.len(),
            first_sub(subs@, t) == first_sub(subs@.skip(j as int), t),
        decreases subs@.len() - j,
    {
        proof {
            assert(subs@.skip(j as int)[0] == subs@[j as int]);
            assert(subs@.skip(j as int).skip(1) =~= subs@.skip(j + 1));
        }
        if subs[j].0 == t {
            return Some((subs[j].1, subs[j].2));
        }
        j = j + 1;
    }
    None
}

fn lookup_read_exec(reads: &Vec<(usize, usize)>, x: usize) -> (r: usize)
    ensures
        r == lookup_read(reads@, x),
{
    let mut j: usize = 0;
    assert(reads@.skip(0) =~= reads@);
    while j < reads.len()
        invariant
            j <= reads@.len(),
            lookup_read(reads@, x) == lookup_read(reads@.skip(j as int), x),
        decreases reads@.len() - j,
    {
        proof {
            assert(reads@.skip(j as int)[0] == reads@[j as int]);
            assert(reads@.skip(j as int).skip(1) =~= reads@.skip(j + 1));
        }
        if reads[j].0 == x {
            return reads[j].1;
        }
        j = j + 1;
    }
    x
}

/// Matches a zip-sub write loop, `y[i] = a[i] - b[i]` over a range.
pub fn analyze_zip_sub_write_loop(body: &Body, lp: &SimpleLoop) -> (r: Option<ZipSubWritePlan>)
    requires
        body.targets_valid(),
        body.all_terminated(),
        loop_ok(*body, lp.body@),
        lp.header < body.num_blocks(),
    ensures
        r == zip_sub_write_plan(*body, lp.header, lp.body@),
{
    let shape = match detect_range_loop_shape(body, lp) {
        Some(s) => s,
        None => {
            return None;
        },
    };
    let m = &shape.alias_root;
    let i_root = shape.i_root;
    let stmts = loop_stmts(body, lp, true);
    let ghost ss = body_stmts(*body, lp.body@, lp.header);
    let mut n: usize = 0;
    let mut writes: Vec<usize> = Vec::new();
    let mut kinds: Vec<(usize, Option<usize>)> = Vec::new();
    let mut subs: Vec<(usize, usize, usize)> = Vec::new();
    let mut reads: Vec<(usize, usize)> = Vec::new();
    let mut k: usize = 0;
    while k < stmts.len()
        invariant
            k <= stmts@.len(),
            stmts@.len() == ss.len(),
            forall|i: int| 0 <= i < stmts@.len() ==> *stmts@[i] == ss[i],
            n <= k,
            ({
                let sc = zip_sub_scan(ss.take(k as int), m@, i_root);
                &&& n == sc.0
                &&& writes@ == sc.1
                &&& kinds@ == sc.2
                &&& subs@ == sc.3
                &&& reads@ == sc.4
            }),
        decreases stmts@.len() - k,
    {
        proof {
            lemma_prefix_step(ss, k as int);
        }
        match stmts[k] {
            StatementKind::Assign(place, rvalue) => {
                if i_indexed_exec(&place.projection, m, i_root) {
                    let d = place.local;
                    n = n + 1;
                    writes.push(d);
                    match rvalue {
                        Rvalue::Use(op) => match bare_local_exec(op) {
                            Some(v) => {
                                kinds.push((d, Some(v)));
                            },
                            None => {},
                        },
                        Rvalue::BinaryOp(op, l, r) => {
                            if *op == BinOp::Sub || *op == BinOp::SubUnchecked {
                                match both_bare_exec(l, r) {
                                    Some((a, b)) => {
                                        kinds.push((d, None));
                                        subs.push((d, a, b));
                                    },
                                    None => {},
                                }
                            }
                        },
                        _ => {},
                    }
                } else if place.projection.len() == 0 {
                    match plain_read_exec(place.local, rvalue, m, i_root) {
                        Some(rd) => {
                            reads.push(rd);
                        },
                        None => match rvalue {
                            Rvalue::BinaryOp(op, l, r) => {
                                if *op == BinOp::Sub || *op == BinOp::SubUnchecked {
                                    match both_bare_exec(l, r) {
                                        Some((a, b)) => {
                                            subs.push((place.local, a, b));
                                        },
                                        None => {},
                                    }
                                }
                            },
                            _ => {},
                        },
                    }
                }
            },
            _ => {},
        }
        k = k + 1;
    }
    proof {
        assert(ss.take(k as int) =~= ss);
    }
    if n != 1 || writes.len() != 1 {
        return None;
    }
    let d = writes[0];
    let kind = match first_kind_exec(&kinds, d) {
        Some(x) => x,
        None => {
            return None;
        },
    };
    let tag = match kind {
        Some(v) => v,
        None => d,
    };
    let (la, lb) = match first_sub_exec(&subs, tag) {
        Some(x) => x,
        None => {
            return None;
        },
    };
    let a = LoopShape::resolve(m, lookup_read_exec(&reads, la));
    let b = LoopShape::resolve(m, lookup_read_exec(&reads, lb));
    let dst = LoopShape::resolve(m, d);
    let f = match ref_slice_float_ty(local_ty_of(body, dst), true) {
        Some(f) => f,
        None => {
            return None;
        },
    };
    let fa = match ref_slice_float_ty(local_ty_of(body, a), false) {
        Some(g) => g,
        None => {
            return None;
        },
    };
    let fb = match ref_slice_float_ty(local_ty_of(body, b), false) {
        Some(g) => g,
        None => {
            return None;
        },
    };
    if f != fa || f != fb || dst == a || dst == b {
        return None;
    }
    Some(ZipSubWritePlan { entry_bb: shape.entry_bb, exit_bb: shape.exit_bb, dst_local: dst, a_local: a, b_local: b, fty: f })
}

// ── Zip diff-square add ───────────────────────────────────────────────

/// The added local of a write `y[i] = y[i] + s` or `y[i] = s + y[i]`.
pub open spec fn sq_add_of(y: usize, rv: Rvalue, m: Map<usize, usize>, i_root: usize) -> Option<usize> {
    match rv {
        Rvalue::BinaryOp(op, l, r) => if op == BinOp::Add || op == BinOp::AddUnchecked {
            if self_indexed(l, y, m, i_root) {
                bare_local(r)
            } else if self_indexed(r, y, m, i_root) {
                bare_local(l)
            } else {
                None
            }
        } else {
            None
        },
        _ => None,
    }
}

/// What the statements hold for the diff-square match: the number of
/// writes through the index; the accumulations (y, s); the subtractions
/// (into, a, b); the squares `q = d * d` (d on both sides, up to aliases):
/// (q, d); the indexed reads (into, slice).
pub open spec fn diff_sq_scan(ss: Seq<StatementKind>, m: Map<usize, usize>, i_root: usize) -> (
    nat,
    Seq<(usize, usize)>,
    Seq<(usize, usize, usize)>,
    Seq<(usize, usize)>,
    Seq<(usize, usize)>,
)
    decreases ss.len(),
{
    if ss.len() == 0 {
        (0, Seq::empty(), Seq::empty(), Seq::empty(), Seq::empty())
    } else {
        let p = diff_sq_scan(ss.drop_last(), m, i_root);
        match ss.last() {
            StatementKind::Assign(place, rv) => if i_indexed(place.projection@, m, i_root) {
                match sq_add_of(place.local, rv, m, i_root) {
                    Some(q) => (p.0 + 1, p.1.push((place.local, q)), p.2, p.3, p.4),
                    None => (p.0 + 1, p.1, p.2, p.3, p.4),
                }
            } else if place.projection@.len() == 0 {
                match plain_read(place.local, rv, m, i_root) {
                    Some(rd) => (p.0, p.1, p.2, p.3, p.4.push(rd)),
                    None => match rv {
                        Rvalue::BinaryOp(op, l, r) => match both_bare(l, r) {
                            Some((a, b)) => if is_sub_op(op) {
                                (p.0, p.1, p.2.push((place.local, a, b)), p.3, p.4)
                            } else if (op == BinOp::Mul || op == BinOp::MulUnchecked) && alias_walk(m, a, 16)
                                == alias_walk(m, b, 16) {
                                (p.0, p.1, p.2, p.3.push((place.local, a)), p.4)
                            } else {
                                p
                            },
                            None => p,
                        },
                        _ => p,
                    },
                }
            } else {
                p
            },
            _ => p,
        }
    }
}

/// The first square whose result resolves to `root`: its operand, resolved.
pub open spec fn first_square(sqs: Seq<(usize, usize)>, m: Map<usize, usize>, root: usize) -> Option<usize>
    decreases sqs.len(),
{
    if sqs.len() == 0 {
        None
    } else if alias_walk(m, sqs[0].0, 16) == root {
        Some(alias_walk(m, sqs[0].1, 16))
    } else {
        first_square(sqs.skip(1), m, root)
    }
}

/// The operands of the first subtraction whose result resolves to `root`.
pub open spec fn first_sub_into(subs: Seq<(usize, usize, usize)>, m: Map<usize, usize>, root: usize) -> Option<(usize, usize)>
    decreases subs.len(),
{
    if subs.len() == 0 {
        None
    } else if alias_walk(m, subs[0].0, 16) == root {
        Some((subs[0].1, subs[0].2))
    } else {
        first_sub_into(subs.skip(1), m, root)
    }
}

/// The slice of the last read whose destination resolves to `root`.
pub open spec fn last_read_of(reads: Seq<(usize, usize)>, m: Map<usize, usize>, root: usize) -> Option<usize>
    decreases reads.len(),
{
    if reads.len() == 0 {
        None
    } else if alias_walk(m, reads.last().0, 16) == root {
        Some(reads.last().1)
    } else {
        last_read_of(reads.drop_last(), m, root)
    }
}

/// A `y[i] += (a[i] - b[i]) * (a[i] - b[i])` loop to hand to a helper.
#[derive(Clone, Copy, Debug)]
pub struct ZipDiffSqAddPlan {
    pub entry_bb: usize,
    pub exit_bb: usize,
    pub dst_local: usize,
    pub a_local: usize,
    pub b_local: usize,
    pub fty: FloatTy,
}

/// The plan of a diff-square add loop: the range loop's shape; exactly one
/// write through the index, and it adds a bare local `s` to its own
/// element; the first square into (an alias of) `s`, of a local `d`; the
/// first subtraction into (an alias of) `d`, of `va - vb`; the last indexed
/// reads into (aliases of) `va` and `vb`; then (resolved) the destination a
/// `&mut [f64]`, both sources float slices of its type, and neither the
/// destination.
pub open spec fn zip_diff_sq_add_plan(body: Body, header: usize, blocks: Seq<usize>) -> Option<ZipDiffSqAddPlan> {
    match range_loop_shape(body, header, blocks) {
        None => None,
        Some((entry, exit, i_root)) => {
            let m = alias_map(body, blocks);
            let sc = diff_sq_scan(body_stmts(body, blocks, header), m, i_root);
            if sc.0 != 1 || sc.1.len() != 1 {
                None
            } else {
                let (d, sq) = sc.1[0];
                match first_square(sc.3, m, alias_walk(m, sq, 16)) {
                    None => None,
                    Some(diff_root) => match first_sub_into(sc.2, m, diff_root) {
                        None => None,
                        Some((va, vb)) => match (
                            last_read_of(sc.4, m, alias_walk(m, va, 16)),
                            last_read_of(sc.4, m, alias_walk(m, vb, 16)),
                        ) {
                            (Some(ar), Some(br)) => {
                                let a = alias_walk(m, ar, 16);
                                let b = alias_walk(m, br, 16);
                                let dst = alias_walk(m, d, 16);
                                match (
                                    ref_slice_float(local_ty(body, dst), true),
                                    ref_slice_float(local_ty(body, a), false),
                                    ref_slice_float(local_ty(body, b), false),
                                ) {
                                    (Some(f), Some(fa), Some(fb)) => if f == fa && f == fb && dst != a && dst != b {
                                        Some(
                                            ZipDiffSqAddPlan {
                                                entry_bb: entry,
                                                exit_bb: exit,
                                                dst_local: dst,
                                                a_local: a,
                                                b_local: b,
                                                fty: f,
                                            },
                                        )
                                    } else {
                                        None
                                    },
                                    _ => None,
                                }
                            },
                            _ => None,
                        },
                    },
                }
            }
        },
    }
}

fn sq_add_of_exec(y: usize, rv: &Rvalue, m: &BTreeMap<usize, usize>, i_root: usize) -> (r: Option<usize>)
    ensures
        r == sq_add_of(y, *rv, m@, i_root),
{
    match rv {
        Rvalue::BinaryOp(op, l, r) => {
            if !(*op == BinOp::Add || *op == BinOp::AddUnchecked) {
                return None;
            }
            if self_indexed_exec(l, y, m, i_root) {
                bare_local_exec(r)
            } else if self_indexed_exec(r, y, m, i_root) {
                bare_local_exec(l)
            } else {
                None
            }
        },
        _ => None,
    }
}

fn first_square_exec(sqs: &Vec<(usize, usize)>, m: &BTreeMap<usize, usize>, root: usize) -> (r: Option<usize>)
    ensures
        r == first_square(sqs@, m@, root),
{
    let mut j: usize = 0;
    assert(sqs@.skip(0) =~= sqs@);
    while j < sqs.len()
        invariant
            j <= sqs@.len(),
            first_square(sqs@, m@, root) == first_square(sqs@.skip(j as int), m@, root),
        decreases sqs@.len() - j,
    {
        proof {
            assert(sqs@.skip(j as int)[0] == sqs@[j as int]);
            assert(sqs@.skip(j as int).skip(1) =~= sqs@.skip(j + 1));
        }
        if LoopShape::resolve(m, sqs[j].0) == root {
            return Some(LoopShape::resolve(m, sqs[j].1));
        }
        j = j + 1;
    }
    None
}

fn first_sub_into_exec(subs: &Vec<(usize, usize, usize)>, m: &BTreeMap<usize, usize>, root: usize) -> (r: Option<(usize, usize)>)
    ensures
        r == first_sub_into(subs@, m@, root),
{
    let mut j: usize = 0;
    assert(subs@.skip(0) =~= subs@);
    while j < subs.len()
        invariant
            j <= subs@.len(),
            first_sub_into(subs@, m@, root) == first_sub_into(subs@.skip(j as int), m@, root),
        decreases subs@.len() - j,
    {
        proof {
            assert(subs@.skip(j as int)[0] == subs@[j as int]);
            assert(subs@.skip(j as int).skip(1) =~= subs@.skip(j + 1));
        }
        if LoopShape::resolve(m, subs[j].0) == root {
            return Some((subs[j].1, subs[j].2));
        }
        j = j + 1;
    }
    None
}

fn last_read_of_exec(reads: &Vec<(usize, usize)>, m: &BTreeMap<usize, usize>, root: usize) -> (r: Option<usize>)
    ensures
        r == last_read_of(reads@, m@, root),
{
    let mut j: usize = reads.len();
    assert(reads@.take(j as int) =~= reads@);
    while j > 0
        invariant
            j <= reads@.len(),
            last_read_of(reads@, m@, root) == last_read_of(reads@.take(j as int), m@, root),
        decreases j,
    {
        proof {
            lemma_prefix_step(reads@, j - 1);
        }
        if LoopShape::resolve(m, reads[j - 1].0) == root {
            return Some(reads[j - 1].1);
        }
        j = j - 1;
    }
    None
}

/// Matches a diff-square add loop, `y[i] += (a[i] - b[i])^2` over a range.
pub fn analyze_zip_diff_sq_add_loop(body: &Body, lp: &SimpleLoop) -> (r: Option<ZipDiffSqAddPlan>)
    requires
        body.targets_valid(),
        body.all_terminated(),
        loop_ok(*body, lp.body@),
        lp.header < body.num_blocks(),
    ensures
        r == zip_diff_sq_add_plan(*body, lp.header, lp.body@),
{
    let shape = match detect_range_loop_shape(body, lp) {
        Some(s) => s,
        None => {
            return None;
        },
    };
    let m = &shape.alias_root;
    let i_root = shape.i_root;
    let stmts = loop_stmts(body, lp, true);
    let ghost ss = body_stmts(*body, lp.body@, lp.header);
    let mut n: usize = 0;
    let mut writes: Vec<(usize, usize)> = Vec::new();
    let mut subs: Vec<(usize, usize, usize)> = Vec::new();
    let mut sqs: Vec<(usize, usize)> = Vec::new();
    let mut reads: Vec<(usize, usize)> = Vec::new();
    let mut k: usize = 0;
    while k < stmts.len()
        invariant
            k <= stmts@.len(),
            stmts@.len() == ss.len(),
            forall|i: int| 0 <= i < stmts@.len() ==> *stmts@[i] == ss[i],
            n <= k,
            ({
                let sc = diff_sq_scan(ss.take(k as int), m@, i_root);
                &&& n == sc.0
                &&& writes@ == sc.1
                &&& subs@ == sc.2
                &&& sqs@ == sc.3
                &&& reads@ == sc.4
            }),
        decreases stmts@.len() - k,
    {
        proof {
            lemma_prefix_step(ss, k as int);
        }
        match stmts[k] {
            StatementKind::Assign(place, rvalue) => {
                if i_indexed_exec(&place.projection, m, i_root) {
                    n = n + 1;
                    match sq_add_of_exec(place.local, rvalue, m, i_root) {
                        Some(q) => {
                            writes.push((place.local, q));
                        },
                        None => {},
                    }
                } else if place.projection.len() == 0 {
                    match plain_read_exec(place.local, rvalue, m, i_root) {
                        Some(rd) => {
                            reads.push(rd);
                        },
                        None => match rvalue {
                            Rvalue::BinaryOp(op, l, r) => match both_bare_exec(l, r) {
                                Some((a, b)) => {
                                    if *op == BinOp::Sub || *op == BinOp::SubUnchecked {
                                        subs.push((place.local, a, b));
                                    } else if (*op == BinOp::Mul || *op == BinOp::MulUnchecked) && LoopShape::resolve(
                                        m,
                                        a,
                                    ) == LoopShape::resolve(m, b) {
                                        sqs.push((place.local, a));
                                    }
                                },
                                None => {},
                            },
                            _ => {},
                        },
                    }
                }
            },
            _ => {},
        }
        k = k + 1;
    }
    proof {
        assert(ss.take(k as int) =~= ss);
    }
    if n != 1 || writes.len() != 1 {
        return None;
    }
    let (d, sq) = writes[0];
    let diff_root = match first_square_exec(&sqs, m, LoopShape::resolve(m, sq)) {
        Some(x) => x,
        None => {
            return None;
        },
    };
    let (va, vb) = match first_sub_into_exec(&subs, m, diff_root) {
        Some(x) => x,
        None => {
            return None;
        },
    };
    let ar = last_read_of_exec(&reads, m, LoopShape::resolve(m, va));
    let br = last_read_of_exec(&reads, m, LoopShape::resolve(m, vb));
    let (a, b) = match (ar, br) {
        (Some(x), Some(y)) => (LoopShape::resolve(m, x), LoopShape::resolve(m, y)),
        _ => {
            return None;
        },
    };
    let dst = LoopShape::resolve(m, d);
    let f = match ref_slice_float_ty(local_ty_of(body, dst), true) {
        Some(f) => f,
        None => {
            return None;
        },
    };
    let fa = match ref_slice_float_ty(local_ty_of(body, a), false) {
        Some(g) => g,
        None => {
            return None;
        },
    };
    let fb = match ref_slice_float_ty(local_ty_of(body, b), false) {
        Some(g) => g,
        None => {
            return None;
        },
    };
    if f != fa || f != fb || dst == a || dst == b {
        return None;
    }
    Some(ZipDiffSqAddPlan { entry_bb: shape.entry_bb, exit_bb: shape.exit_bb, dst_local: dst, a_local: a, b_local: b, fty: f })
}

} // verus!
