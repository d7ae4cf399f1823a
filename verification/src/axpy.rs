//! The `y[i] += alpha * x[i]` (axpy) loop over a range: its shape, the
//! statements that make it, and the plan that hands it to a parallel
//! helper. The destination is a float slice, or a `Vec` updated through
//! `index_mut`.
use vstd::prelude::*;
use std::collections::BTreeMap;
use crate::mir::{Body, StatementKind, TerminatorKind, Operand, Rvalue, BinOp, ProjectionElem, Place, Const, LocalTy, local_ty, local_ty_of};
use crate::idioms::{ScalarTy, FloatTy};
use crate::detect::{SimpleLoop, loop_ok, stmts_of, term_of, callee_path};
use crate::shape::{alias_walk, alias_map, range_loop_shape, detect_range_loop_shape, LoopShape, bare_local};
use crate::text::{ends_with_text, ends_with_str};

verus! {

broadcast use {vstd::std_specs::btree::group_btree_axioms, vstd::laws_cmp::group_laws_cmp};

// ── Types ─────────────────────────────────────────────────────────────

/// `&[f64]` (or `&mut [f64]` when mutability is required): its float type.
pub open spec fn ref_slice_float(t: LocalTy, require_mut: bool) -> Option<FloatTy> {
    match t {
        LocalTy::RefSlice { elem, mutable } => if elem == ScalarTy::F64 && (!require_mut || mutable) {
            Some(FloatTy::F64)
        } else {
            None
        },
        _ => None,
    }
}

/// The float type of a reference to a float slice.
pub fn ref_slice_float_ty(t: LocalTy, require_mut: bool) -> (r: Option<FloatTy>)
    ensures
        r == ref_slice_float(t, require_mut),
{
    match t {
        LocalTy::RefSlice { elem, mutable } => {
            if elem == ScalarTy::F64 && (!require_mut || mutable) {
                Some(FloatTy::F64)
            } else {
                None
            }
        },
        _ => None,
    }
}

/// True iff `t` is `&[f64]` (`&mut [f64]` when mutability is required).
pub fn is_ref_slice_f64(t: LocalTy, require_mut: bool) -> (r: bool)
    ensures
        r == (ref_slice_float(t, require_mut) == Some(FloatTy::F64)),
{
    ref_slice_float_ty(t, require_mut).is_some()
}

/// `&Vec<f64>` (or `&mut Vec<f64>` when mutability is required).
pub open spec fn ref_vec_f64(t: LocalTy, require_mut: bool) -> bool {
    match t {
        LocalTy::RefVec { elem, mutable } => elem == ScalarTy::F64 && (!require_mut || mutable),
        _ => false,
    }
}

/// True iff `t` is `&mut Vec<f64>` (or `&Vec<f64>` when mutability is not
/// required).
pub fn is_ref_vec_f64(t: LocalTy, require_mut: bool) -> (r: bool)
    ensures
        r == ref_vec_f64(t, require_mut),
{
    match t {
        LocalTy::RefVec { elem, mutable } => elem == ScalarTy::F64 && (!require_mut || mutable),
        _ => false,
    }
}

// ── Statements ────────────────────────────────────────────────────────

/// A projection `(*p)[idx]...` whose index is (an alias of) the induction
/// variable.
pub open spec fn i_indexed(proj: Seq<ProjectionElem>, m: Map<usize, usize>, i_root: usize) -> bool {
    &&& proj.len() >= 2
    &&& proj[0] == ProjectionElem::Deref
    &&& proj[1] matches ProjectionElem::Index(idx) && alias_walk(m, idx, 16) == i_root
}

/// The place an operand copies or moves.
pub open spec fn op_place(o: Operand) -> Option<Place> {
    match o {
        Operand::Copy(p) => Some(p),
        Operand::Move(p) => Some(p),
        Operand::Constant(_) => None,
    }
}

/// The operand reads `(*y)[i]`.
pub open spec fn self_indexed(o: Operand, y: usize, m: Map<usize, usize>, i_root: usize) -> bool {
    match op_place(o) {
        Some(p) => p.local == y && i_indexed(p.projection@, m, i_root),
        None => false,
    }
}

pub open spec fn is_add_op(op: BinOp) -> bool {
    op == BinOp::Add || op == BinOp::AddUnchecked
}

pub open spec fn is_sub_op(op: BinOp) -> bool {
    op == BinOp::Sub || op == BinOp::SubUnchecked
}

/// The accumulation a write of `(*y)[i]` makes: `y[i] + m`, `m + y[i]` or
/// `y[i] - m` for a bare local `m`: (y, m, is_sub).
pub open spec fn indexed_update(y: usize, rv: Rvalue, m: Map<usize, usize>, i_root: usize) -> Option<(usize, usize, bool)> {
    match rv {
        Rvalue::BinaryOp(op, lhs, rhs) => if is_sub_op(op) {
            if self_indexed(lhs, y, m, i_root) {
                match bare_local(rhs) {
                    Some(mm) => Some((y, mm, true)),
                    None => None,
                }
            } else {
                None
            }
        } else if is_add_op(op) {
            if self_indexed(lhs, y, m, i_root) {
                match bare_local(rhs) {
                    Some(mm) => Some((y, mm, false)),
                    None => None,
                }
            } else if self_indexed(rhs, y, m, i_root) {
                match bare_local(lhs) {
                    Some(mm) => Some((y, mm, false)),
                    None => None,
                }
            } else {
                None
            }
        } else {
            None
        },
        _ => None,
    }
}

/// The statement writes through an induction-variable index.
pub open spec fn writes_indexed(s: StatementKind, m: Map<usize, usize>, i_root: usize) -> bool {
    s matches StatementKind::Assign(place, _) && i_indexed(place.projection@, m, i_root)
}

/// The accumulation write of a statement, if it makes one.
pub open spec fn stmt_update(s: StatementKind, m: Map<usize, usize>, i_root: usize) -> Seq<(usize, usize, bool)> {
    match s {
        StatementKind::Assign(place, rv) => if i_indexed(place.projection@, m, i_root) {
            match indexed_update(place.local, rv, m, i_root) {
                Some(w) => seq![w],
                None => Seq::empty(),
            }
        } else {
            Seq::empty()
        },
        _ => Seq::empty(),
    }
}

/// The indexed read of a statement: `xi = (*x)[i]` into a bare local: (xi, x).
pub open spec fn stmt_xread(s: StatementKind, m: Map<usize, usize>, i_root: usize) -> Seq<(usize, usize)> {
    match s {
        StatementKind::Assign(place, Rvalue::Use(o)) => if place.projection@.len() == 0 {
            match op_place(o) {
                Some(p) => if i_indexed(p.projection@, m, i_root) {
                    seq![(place.local, p.local)]
                } else {
                    Seq::empty()
                },
                None => Seq::empty(),
            }
        } else {
            Seq::empty()
        },
        _ => Seq::empty(),
    }
}

/// The products of a statement `r = a * b` of bare locals, both ways
/// round: (r, a, b) and (r, b, a).
pub open spec fn stmt_muls(s: StatementKind) -> Seq<(usize, usize, usize)> {
    match s {
        StatementKind::Assign(place, Rvalue::BinaryOp(op, lhs, rhs)) => if place.projection@.len() == 0
            && (op == BinOp::Mul || op == BinOp::MulUnchecked) {
            match (bare_local(lhs), bare_local(rhs)) {
                (Some(la), Some(lb)) => seq![(place.local, la, lb), (place.local, lb, la)],
                _ => Seq::empty(),
            }
        } else {
            Seq::empty()
        },
        _ => Seq::empty(),
    }
}

/// What a list of statements holds for the axpy match: the number of
/// indexed writes, the accumulation writes, the indexed reads and the
/// products, in order.
pub type ScanView = (nat, Seq<(usize, usize, bool)>, Seq<(usize, usize)>, Seq<(usize, usize, usize)>);

pub open spec fn scan_stmts(ss: Seq<StatementKind>, m: Map<usize, usize>, i_root: usize) -> ScanView
    decreases ss.len(),
{
    if ss.len() == 0 {
        (0, Seq::empty(), Seq::empty(), Seq::empty())
    } else {
        let p = scan_stmts(ss.drop_last(), m, i_root);
        let s = ss.last();
        (
            p.0 + if writes_indexed(s, m, i_root) {
                1nat
            } else {
                0nat
            },
            p.1 + stmt_update(s, m, i_root),
            p.2 + if writes_indexed(s, m, i_root) {
                Seq::empty()
            } else {
                stmt_xread(s, m, i_root)
            },
            p.3 + if writes_indexed(s, m, i_root) {
                Seq::empty()
            } else {
                stmt_muls(s)
            },
        )
    }
}

/// The statements of the loop's blocks other than its header, in order.
pub open spec fn body_stmts(body: Body, blocks: Seq<usize>, header: usize) -> Seq<StatementKind>
    decreases blocks.len(),
{
    if blocks.len() == 0 {
        Seq::empty()
    } else {
        body_stmts(body, blocks.drop_last(), header) + if blocks.last() == header {
            Seq::empty()
        } else {
            stmts_of(body, blocks.last() as int)
        }
    }
}

/// Exec form of the scan: the count capped at 2.
pub struct Scan {
    pub indexed: usize,
    pub writes: Vec<(usize, usize, bool)>,
    pub xreads: Vec<(usize, usize)>,
    pub muls: Vec<(usize, usize, usize)>,
}

pub open spec fn cap2(n: nat) -> nat {
    if n > 2 {
        2
    } else {
        n
    }
}

impl Scan {
    pub open spec fn matches(&self, v: ScanView) -> bool {
        &&& self.indexed == cap2(v.0)
        &&& self.writes@ == v.1
        &&& self.xreads@ == v.2
        &&& self.muls@ == v.3
    }
}

pub(crate) fn same_as_i(m: &BTreeMap<usize, usize>, i_root: usize, l: usize) -> (r: bool)
    ensures
        r == (alias_walk(m@, l, 16) == i_root),
{
    LoopShape::resolve(m, l) == i_root
}

pub(crate) fn i_indexed_exec(proj: &Vec<ProjectionElem>, m: &BTreeMap<usize, usize>, i_root: usize) -> (r: bool)
    ensures
        r == i_indexed(proj@, m@, i_root),
{
    if proj.len() < 2 || proj[0] != ProjectionElem::Deref {
        return false;
    }
    match proj[1] {
        ProjectionElem::Index(idx) => same_as_i(m, i_root, idx),
        _ => false,
    }
}

pub(crate) fn self_indexed_exec(o: &Operand, y: usize, m: &BTreeMap<usize, usize>, i_root: usize) -> (r: bool)
    ensures
        r == self_indexed(*o, y, m@, i_root),
{
    match o {
        Operand::Copy(p) | Operand::Move(p) => p.local == y && i_indexed_exec(&p.projection, m, i_root),
        Operand::Constant(_) => false,
    }
}

pub(crate) fn bare_local_exec(o: &Operand) -> (r: Option<usize>)
    ensures
        r == bare_local(*o),
{
    match o {
        Operand::Copy(p) | Operand::Move(p) => {
            if p.projection.len() == 0 {
                Some(p.local)
            } else {
                None
            }
        },
        Operand::Constant(_) => None,
    }
}

fn indexed_update_exec(y: usize, rv: &Rvalue, m: &BTreeMap<usize, usize>, i_root: usize) -> (r: Option<(usize, usize, bool)>)
    ensures
        r == indexed_update(y, *rv, m@, i_root),
{
    match rv {
        Rvalue::BinaryOp(op, lhs, rhs) => {
            let is_add = *op == BinOp::Add || *op == BinOp::AddUnchecked;
            let is_sub = *op == BinOp::Sub || *op == BinOp::SubUnchecked;
            if is_sub {
                // Sub needs `y[i] - mul`, not reversed
                if self_indexed_exec(lhs, y, m, i_root) {
                    match bare_local_exec(rhs) {
                        Some(mm) => Some((y, mm, true)),
                        None => None,
                    }
                } else {
                    None
                }
            } else if is_add {
                if self_indexed_exec(lhs, y, m, i_root) {
                    match bare_local_exec(rhs) {
                        Some(mm) => Some((y, mm, false)),
                        None => None,
                    }
                } else if self_indexed_exec(rhs, y, m, i_root) {
                    match bare_local_exec(lhs) {
                        Some(mm) => Some((y, mm, false)),
                        None => None,
                    }
                } else {
                    None
                }
            } else {
                None
            }
        },
        _ => None,
    }
}

fn scan_stmt(sc: &mut Scan, s: &StatementKind, m: &BTreeMap<usize, usize>, i_root: usize)
    ensures
        ({
            let w = writes_indexed(*s, m@, i_root);
            &&& final(sc).indexed == if w && old(sc).indexed < 2 {
                old(sc).indexed + 1
            } else {
                old(sc).indexed as int
            }
            &&& final(sc).writes@ == old(sc).writes@ + stmt_update(*s, m@, i_root)
            &&& final(sc).xreads@ == old(sc).xreads@ + if w {
                Seq::empty()
            } else {
                stmt_xread(*s, m@, i_root)
            }
            &&& final(sc).muls@ == old(sc).muls@ + if w {
                Seq::empty()
            } else {
                stmt_muls(*s)
            }
        }),
{
    match s {
        StatementKind::Assign(place, rvalue) => {
            // Indexed write through Deref
            if i_indexed_exec(&place.projection, m, i_root) {
                if sc.indexed < 2 {
                    sc.indexed = sc.indexed + 1;
                }
                match indexed_update_exec(place.local, rvalue, m, i_root) {
                    Some(w) => sc.writes.push(w),
                    None => {},
                }
                proof {
                    assert(writes_indexed(*s, m@, i_root));
                    assert(sc.writes@ =~= old(sc).writes@ + stmt_update(*s, m@, i_root));
                    assert(sc.xreads@ =~= old(sc).xreads@ + Seq::<(usize, usize)>::empty());
                    assert(sc.muls@ =~= old(sc).muls@ + Seq::<(usize, usize, usize)>::empty());
                }
                return;
            }
            // Indexed read or `_mul = Mul(alpha, xi)`
            if place.projection.len() == 0 {
                match rvalue {
                    Rvalue::Use(op) => match op {
                        Operand::Copy(p) | Operand::Move(p) => {
                            if i_indexed_exec(&p.projection, m, i_root) {
                                sc.xreads.push((place.local, p.local));
                            }
                        },
                        _ => {},
                    },
                    Rvalue::BinaryOp(op, lhs, rhs) => {
                        if *op == BinOp::Mul || *op == BinOp::MulUnchecked {
                            match (bare_local_exec(lhs), bare_local_exec(rhs)) {
                                (Some(la), Some(lb)) => {
                                    // alpha/xi unknown, record both, unify later
                                    sc.muls.push((place.local, la, lb));
                                    sc.muls.push((place.local, lb, la));
                                },
                                _ => {},
                            }
                        }
                    },
                    _ => {},
                }
            }
            proof {
                assert(sc.writes@ =~= old(sc).writes@ + stmt_update(*s, m@, i_root));
                assert(sc.xreads@ =~= old(sc).xreads@ + stmt_xread(*s, m@, i_root));
                assert(sc.muls@ =~= old(sc).muls@ + stmt_muls(*s));
            }
        },
        _ => {
            proof {
                assert(sc.writes@ =~= old(sc).writes@ + stmt_update(*s, m@, i_root));
                assert(sc.xreads@ =~= old(sc).xreads@ + stmt_xread(*s, m@, i_root));
                assert(sc.muls@ =~= old(sc).muls@ + stmt_muls(*s));
            }
        },
    }
}

proof fn lemma_scan_step(ss: Seq<StatementKind>, s: StatementKind, m: Map<usize, usize>, i_root: usize)
    ensures
        scan_stmts(ss.push(s), m, i_root) == ({
            let p = scan_stmts(ss, m, i_root);
            let w = writes_indexed(s, m, i_root);
            (
                p.0 + if w {
                    1nat
                } else {
                    0nat
                },
                p.1 + stmt_update(s, m, i_root),
                p.2 + if w {
                    Seq::empty()
                } else {
                    stmt_xread(s, m, i_root)
                },
                p.3 + if w {
                    Seq::empty()
                } else {
                    stmt_muls(s)
                },
            )
        }),
{
    assert(ss.push(s).drop_last() =~= ss);
}

/// Scans the statements of the loop's blocks other than its header.
fn scan_loop(body: &Body, lp: &SimpleLoop, m: &BTreeMap<usize, usize>, i_root: usize) -> (sc: Scan)
    requires
        loop_ok(*body, lp.body@),
    ensures
        sc.matches(scan_stmts(body_stmts(*body, lp.body@, lp.header), m@, i_root)),
{
    let mut sc = Scan { indexed: 0, writes: Vec::new(), xreads: Vec::new(), muls: Vec::new() };
    let mut k: usize = 0;
    while k < lp.body.len()
        invariant
            k <= lp.body@.len(),
            loop_ok(*body, lp.body@),
            sc.matches(scan_stmts(body_stmts(*body, lp.body@.take(k as int), lp.header), m@, i_root)),
        decreases lp.body@.len() - k,
    {
        let bb = lp.body[k];
        let ghost before = body_stmts(*body, lp.body@.take(k as int), lp.header);
        proof {
            assert(lp.body@.take(k + 1).drop_last() =~= lp.body@.take(k as int));
        }
        if bb != lp.header {
            let stmts = &body.basic_blocks[bb].statements;
            let mut i: usize = 0;
            while i < stmts.len()
                invariant
                    i <= stmts@.len(),
                    sc.matches(scan_stmts(before + stmts@.take(i as int), m@, i_root)),
                decreases stmts@.len() - i,
            {
                let ghost prev = scan_stmts(before + stmts@.take(i as int), m@, i_root);
                scan_stmt(&mut sc, &stmts[i], m, i_root);
                proof {
                    assert(before + stmts@.take(i + 1) =~= (before + stmts@.take(i as int)).push(stmts@[i as int]));
                    lemma_scan_step(before + stmts@.take(i as int), stmts@[i as int], m@, i_root);
                }
                i = i + 1;
            }
            proof {
                assert(stmts@.take(i as int) =~= stmts@);
                assert(body_stmts(*body, lp.body@.take(k + 1), lp.header) =~= before + stmts@);
            }
        } else {
            proof {
                assert(body_stmts(*body, lp.body@.take(k + 1), lp.header) =~= before);
            }
        }
        k = k + 1;
    }
    proof {
        assert(lp.body@.take(k as int) =~= lp.body@);
    }
    sc
}


// ── The `Vec` form ────────────────────────────────────────────────────

/// The operand reads `*t`.
pub open spec fn deref_self(o: Operand, t: usize) -> bool {
    match op_place(o) {
        Some(p) => p.local == t && p.projection@.len() == 1 && p.projection@[0] == ProjectionElem::Deref,
        None => false,
    }
}

/// What a statement of the return block of `index_mut` does to `*t`: an
/// addition or subtraction counts as an indexed write, and `*t + m`,
/// `m + *t` or `*t - m` is the accumulation (vr, m, is_sub).
pub open spec fn deref_update(s: StatementKind, t: usize, vr: usize) -> (nat, Seq<(usize, usize, bool)>) {
    match s {
        StatementKind::Assign(place, Rvalue::BinaryOp(op, lhs, rhs)) => if place.local == t
            && place.projection@.len() == 1 && place.projection@[0] == ProjectionElem::Deref && (is_add_op(op)
            || is_sub_op(op)) {
            (
                1,
                if is_sub_op(op) {
                    if deref_self(lhs, t) {
                        match bare_local(rhs) {
                            Some(mm) => seq![(vr, mm, true)],
                            None => Seq::empty(),
                        }
                    } else {
                        Seq::empty()
                    }
                } else if deref_self(lhs, t) {
                    match bare_local(rhs) {
                        Some(mm) => seq![(vr, mm, false)],
                        None => Seq::empty(),
                    }
                } else if deref_self(rhs, t) {
                    match bare_local(lhs) {
                        Some(mm) => seq![(vr, mm, false)],
                        None => Seq::empty(),
                    }
                } else {
                    Seq::empty()
                },
            )
        } else {
            (0, Seq::empty())
        },
        _ => (0, Seq::empty()),
    }
}

/// The updates of `*t` among the statements.
pub open spec fn deref_updates(ss: Seq<StatementKind>, t: usize, vr: usize) -> (nat, Seq<(usize, usize, bool)>)
    decreases ss.len(),
{
    if ss.len() == 0 {
        (0, Seq::empty())
    } else {
        let p = deref_updates(ss.drop_last(), t, vr);
        let d = deref_update(ss.last(), t, vr);
        (p.0 + d.0, p.1 + d.1)
    }
}

/// A block ending in `t = <Vec as IndexMut>::index_mut(v, i)`, `v` (once
/// resolved) a `&mut Vec<f64>` and `i` the induction variable:
/// (t, resolved v, return block).
pub open spec fn vec_call(body: Body, bb: int, m: Map<usize, usize>, i_root: usize) -> Option<(usize, usize, usize)> {
    match term_of(body, bb) {
        Some(TerminatorKind::Call { func, args, destination, target, .. }) => match (callee_path(func), target) {
            (Some(path), Some(tg)) => if ends_with_text(path, "::index_mut"@) && args@.len() == 2
                && destination.projection@.len() == 0 {
                match (bare_local(args@[0]), bare_local(args@[1])) {
                    (Some(a0), Some(a1)) => if alias_walk(m, a1, 16) == i_root && ref_vec_f64(
                        local_ty(body, alias_walk(m, a0, 16)),
                        true,
                    ) {
                        Some((destination.local, alias_walk(m, a0, 16), tg))
                    } else {
                        None
                    },
                    _ => None,
                }
            } else {
                None
            },
            _ => None,
        },
        _ => None,
    }
}

/// The `Vec`-form writes of the first `k` loop blocks other than the
/// header: their number and the accumulations.
pub open spec fn vec_form(body: Body, blocks: Seq<usize>, header: usize, m: Map<usize, usize>, i_root: usize, k: nat) -> (
    nat,
    Seq<(usize, usize, bool)>,
)
    decreases k,
{
    if k == 0 {
        (0, Seq::empty())
    } else {
        let p = vec_form(body, blocks, header, m, i_root, (k - 1) as nat);
        let bb = blocks[k - 1];
        if bb == header {
            p
        } else {
            match vec_call(body, bb as int, m, i_root) {
                Some((t, vr, tg)) => {
                    let d = deref_updates(stmts_of(body, tg as int), t, vr);
                    (p.0 + d.0, p.1 + d.1)
                },
                None => p,
            }
        }
    }
}

fn deref_self_exec(o: &Operand, t: usize) -> (r: bool)
    ensures
        r == deref_self(*o, t),
{
    match o {
        Operand::Copy(p) | Operand::Move(p) => p.local == t && p.projection.len() == 1 && p.projection[0]
            == ProjectionElem::Deref,
        Operand::Constant(_) => false,
    }
}

fn deref_update_exec(s: &StatementKind, t: usize, vr: usize) -> (r: (bool, Option<(usize, usize, bool)>))
    ensures
        deref_update(*s, t, vr) == (
            if r.0 {
                1nat
            } else {
                0nat
            },
            match r.1 {
                Some(w) => seq![w],
                None => Seq::empty(),
            },
        ),
{
    match s {
        StatementKind::Assign(place, Rvalue::BinaryOp(op, lhs, rhs)) => {
            if place.local != t || place.projection.len() != 1 || place.projection[0] != ProjectionElem::Deref {
                return (false, None);
            }
            let is_add = *op == BinOp::Add || *op == BinOp::AddUnchecked;
            let is_sub = *op == BinOp::Sub || *op == BinOp::SubUnchecked;
            if !(is_add || is_sub) {
                return (false, None);
            }
            let w = if is_sub {
                if deref_self_exec(lhs, t) {
                    match bare_local_exec(rhs) {
                        Some(mm) => Some((vr, mm, true)),
                        None => None,
                    }
                } else {
                    None
                }
            } else if deref_self_exec(lhs, t) {
                match bare_local_exec(rhs) {
                    Some(mm) => Some((vr, mm, false)),
                    None => None,
                }
            } else if deref_self_exec(rhs, t) {
                match bare_local_exec(lhs) {
                    Some(mm) => Some((vr, mm, false)),
                    None => None,
                }
            } else {
                None
            };
            proof {
                let d = deref_update(*s, t, vr);
                assert(d.1 =~= match w {
                    Some(x) => seq![x],
                    None => Seq::empty(),
                });
            }
            (true, w)
        },
        _ => (false, None),
    }
}

fn vec_call_at(body: &Body, bb: usize, m: &BTreeMap<usize, usize>, i_root: usize) -> (r: Option<(usize, usize, usize)>)
    requires
        bb < body.num_blocks(),
        body.targets_valid(),
        body.all_terminated(),
    ensures
        r == vec_call(*body, bb as int, m@, i_root),
        r matches Some((_t, _vr, tg)) ==> tg < body.num_blocks(),
{
    proof {
        assert(body.basic_blocks@[bb as int].terminator is Some);
        assert(crate::mir::terminator_targets_ok(body.basic_blocks@[bb as int].terminator->0, body.num_blocks()));
    }
    let (func, args, destination, target) = match &body.basic_blocks[bb].terminator {
        Some(TerminatorKind::Call { func, args, destination, target, .. }) => (func, args, destination, target),
        _ => {
            return None;
        },
    };
    let path = match func {
        Operand::Constant(Const::FnDef { path }) => path,
        _ => {
            return None;
        },
    };
    let tg = match target {
        Some(t) => *t,
        None => {
            return None;
        },
    };
    // Match `<Vec<T> as IndexMut<usize>>::index_mut`
    if !ends_with_str(path.as_str(), "::index_mut") || args.len() != 2 || destination.projection.len() != 0 {
        return None;
    }
    let a0 = match bare_local_exec(&args[0]) {
        Some(l) => l,
        None => {
            return None;
        },
    };
    let a1 = match bare_local_exec(&args[1]) {
        Some(l) => l,
        None => {
            return None;
        },
    };
    if !same_as_i(m, i_root, a1) {
        return None;
    }
    let vec_ref_local = LoopShape::resolve(m, a0);
    if !is_ref_vec_f64(local_ty_of(body, vec_ref_local), true) {
        return None;
    }
    Some((destination.local, vec_ref_local, tg))
}

/// Scans the loop's `index_mut` calls: the number of `Vec`-form writes
/// (capped at 2) and their accumulations.
fn scan_vec_form(body: &Body, lp: &SimpleLoop, m: &BTreeMap<usize, usize>, i_root: usize) -> (r: (usize, Vec<(usize, usize, bool)>))
    requires
        loop_ok(*body, lp.body@),
        body.targets_valid(),
        body.all_terminated(),
    ensures
        r.0 == cap2(vec_form(*body, lp.body@, lp.header, m@, i_root, lp.body@.len()).0),
        r.1@ == vec_form(*body, lp.body@, lp.header, m@, i_root, lp.body@.len()).1,
{
    let mut count: usize = 0;
    let mut vec_writes: Vec<(usize, usize, bool)> = Vec::new();
    let mut k: usize = 0;
    while k < lp.body.len()
        invariant
            k <= lp.body@.len(),
            loop_ok(*body, lp.body@),
            body.targets_valid(),
            body.all_terminated(),
            count == cap2(vec_form(*body, lp.body@, lp.header, m@, i_root, k as nat).0),
            vec_writes@ == vec_form(*body, lp.body@, lp.header, m@, i_root, k as nat).1,
        decreases lp.body@.len() - k,
    {
        let bb = lp.body[k];
        let ghost prev = vec_form(*body, lp.body@, lp.header, m@, i_root, k as nat);
        if bb != lp.header {
            match vec_call_at(body, bb, m, i_root) {
                Some((t, vr, tg)) => {
                    let stmts = &body.basic_blocks[tg].statements;
                    let mut i: usize = 0;
                    while i < stmts.len()
                        invariant
                            i <= stmts@.len(),
                            count == cap2(prev.0 + deref_updates(stmts@.take(i as int), t, vr).0),
                            vec_writes@ == prev.1 + deref_updates(stmts@.take(i as int), t, vr).1,
                        decreases stmts@.len() - i,
                    {
                        proof {
                            assert(stmts@.take(i + 1).drop_last() =~= stmts@.take(i as int));
                        }
                        let (hit, w) = deref_update_exec(&stmts[i], t, vr);
                        if hit && count < 2 {
                            count = count + 1;
                        }
                        match w {
                            Some(x) => vec_writes.push(x),
                            None => {},
                        }
                        proof {
                            assert(vec_writes@ =~= prev.1 + deref_updates(stmts@.take(i + 1), t, vr).1);
                        }
                        i = i + 1;
                    }
                    proof {
                        assert(stmts@.take(i as int) =~= stmts@);
                    }
                },
                None => {},
            }
        }
        k = k + 1;
    }
    (count, vec_writes)
}

// ── The plan ──────────────────────────────────────────────────────────

/// The first indexed read into `xi`: its source slice.
pub open spec fn first_xread(xr: Seq<(usize, usize)>, xi: usize) -> Option<usize>
    decreases xr.len(),
{
    if xr.len() == 0 {
        None
    } else if xr[0].0 == xi {
        Some(xr[0].1)
    } else {
        first_xread(xr.skip(1), xi)
    }
}

/// The first product into `ml` whose other factor was read from a slice:
/// (alpha, x).
pub open spec fn choose_mul(muls: Seq<(usize, usize, usize)>, xr: Seq<(usize, usize)>, ml: usize) -> Option<(usize, usize)>
    decreases muls.len(),
{
    if muls.len() == 0 {
        None
    } else if muls[0].0 == ml && first_xread(xr, muls[0].2) is Some {
        Some((muls[0].1, first_xread(xr, muls[0].2)->0))
    } else {
        choose_mul(muls.skip(1), xr, ml)
    }
}

/// The destination of an axpy update.
#[derive(Clone, Copy, Debug, PartialEq, Eq, Structural)]
pub enum SliceDst {
    Slice { local: usize },
    VecRef { vec_ref: usize },
}

/// A `y[i] += alpha * x[i]` loop to hand to a helper.
#[derive(Clone, Copy, Debug)]
pub struct AxpyPlan {
    pub entry_bb: usize,
    pub exit_bb: usize,
    /// y destination, slice ref or Vec ref
    pub y_dst: SliceDst,
    /// The `&[f64]` local read as x.
    pub x_local: usize,
    /// The `f64` local alpha.
    pub alpha_local: usize,
    pub fty: FloatTy,
    /// The update subtracts rather than adds.
    pub is_sub: bool,
}

/// The plan of an axpy loop: the range loop's shape; exactly one indexed
/// write, which is the only accumulation of one form; a product into the
/// accumulated local of alpha and a value read from x at the index; then
/// (after resolving aliases) y a `&mut [f64]` (or `&mut Vec<f64>`), x a
/// float slice of the same type, alpha an `f64`, and x not y.
pub open spec fn axpy_plan(body: Body, header: usize, blocks: Seq<usize>) -> Option<AxpyPlan> {
    match range_loop_shape(body, header, blocks) {
        None => None,
        Some((entry, exit, i_root)) => {
            let m = alias_map(body, blocks);
            let sc = scan_stmts(body_stmts(body, blocks, header), m, i_root);
            let vf = vec_form(body, blocks, header, m, i_root, blocks.len());
            if sc.0 + vf.0 != 1 || !((sc.1.len() == 1 && vf.1.len() == 0) || (sc.1.len() == 0 && vf.1.len()
                == 1)) {
                None
            } else {
                let is_vec = vf.1.len() == 1;
                let w = if is_vec {
                    vf.1[0]
                } else {
                    sc.1[0]
                };
                match choose_mul(sc.3, sc.2, w.1) {
                    None => None,
                    Some((alpha_raw, x_raw)) => {
                        let alpha = alias_walk(m, alpha_raw, 16);
                        let x = alias_walk(m, x_raw, 16);
                        let y = alias_walk(m, w.0, 16);
                        let fty = if is_vec {
                            if ref_vec_f64(local_ty(body, y), true) {
                                Some(FloatTy::F64)
                            } else {
                                None
                            }
                        } else {
                            ref_slice_float(local_ty(body, y), true)
                        };
                        match (fty, ref_slice_float(local_ty(body, x), false)) {
                            (Some(f), Some(xf)) => if xf != f || local_ty(body, alpha) != LocalTy::Scalar(
                                ScalarTy::F64,
                            ) || y == x {
                                None
                            } else {
                                Some(
                                    AxpyPlan {
                                        entry_bb: entry,
                                        exit_bb: exit,
                                        y_dst: if is_vec {
                                            SliceDst::VecRef { vec_ref: y }
                                        } else {
                                            SliceDst::Slice { local: y }
                                        },
                                        x_local: x,
                                        alpha_local: alpha,
                                        fty: f,
                                        is_sub: w.2,
                                    },
                                )
                            },
                            _ => None,
                        }
                    },
                }
            }
        },
    }
}

fn first_xread_exec(xr: &Vec<(usize, usize)>, xi: usize) -> (r: Option<usize>)
    ensures
        r == first_xread(xr@, xi),
{
    let mut j: usize = 0;
    assert(xr@.skip(0) =~= xr@);
    while j < xr.len()
        invariant
            j <= xr@.len(),
            first_xread(xr@, xi) == first_xread(xr@.skip(j as int), xi),
        decreases xr@.len() - j,
    {
        proof {
            assert(xr@.skip(j as int)[0] == xr@[j as int]);
            assert(xr@.skip(j as int).skip(1) =~= xr@.skip(j + 1));
        }
        if xr[j].0 == xi {
            return Some(xr[j].1);
        }
        j = j + 1;
    }
    None
}

fn choose_mul_exec(muls: &Vec<(usize, usize, usize)>, xr: &Vec<(usize, usize)>, ml: usize) -> (r: Option<(usize, usize)>)
    ensures
        r == choose_mul(muls@, xr@, ml),
{
    let mut j: usize = 0;
    assert(muls@.skip(0) =~= muls@);
    while j < muls.len()
        invariant
            j <= muls@.len(),
            choose_mul(muls@, xr@, ml) == choose_mul(muls@.skip(j as int), xr@, ml),
        decreases muls@.len() - j,
    {
        proof {
            assert(muls@.skip(j as int)[0] == muls@[j as int]);
            assert(muls@.skip(j as int).skip(1) =~= muls@.skip(j + 1));
        }
        let (m, alpha_l, xi_l) = muls[j];
        if m == ml {
            match first_xread_exec(xr, xi_l) {
                Some(x_local) => {
                    return Some((alpha_l, x_local));
                },
                None => {},
            }
        }
        j = j + 1;
    }
    None
}

/// Matches an axpy loop, `y[i] += alpha * x[i]` (or `-=`), over a range.
pub fn analyze_axpy_loop_for_transform(body: &Body, lp: &SimpleLoop) -> (r: Option<AxpyPlan>)
    requires
        body.targets_valid(),
        body.all_terminated(),
        loop_ok(*body, lp.body@),
        lp.header < body.num_blocks(),
    ensures
        r == axpy_plan(*body, lp.header, lp.body@),
{
    // header, switch, induction variable, aliases and entry
    let shape = match detect_range_loop_shape(body, lp) {
        Some(s) => s,
        None => {
            return None;
        },
    };
    let m = &shape.alias_root;
    let i_root = shape.i_root;
    // Pass A, slice form, walk body BBs
    let sc = scan_loop(body, lp, m, i_root);
    // Pass B, Vec form via index_mut Call
    let (vec_count, vec_writes) = scan_vec_form(body, lp, m, i_root);
    let ghost scv = scan_stmts(body_stmts(*body, lp.body@, lp.header), m@, i_root);
    let ghost vfv = vec_form(*body, lp.body@, lp.header, m@, i_root, lp.body@.len());
    if !((sc.indexed == 1 && vec_count == 0) || (sc.indexed == 0 && vec_count == 1)) {
        return None;
    }
    // Exactly one form must have fired
    let is_vec = if sc.writes.len() == 1 && vec_writes.len() == 0 {
        false
    } else if sc.writes.len() == 0 && vec_writes.len() == 1 {
        true
    } else {
        return None;
    };
    let w = if is_vec {
        vec_writes[0]
    } else {
        sc.writes[0]
    };
    let (alpha_raw, x_raw) = match choose_mul_exec(&sc.muls, &sc.xreads, w.1) {
        Some(p) => p,
        None => {
            return None;
        },
    };
    // Resolve aliases so helper args are entry-live
    let alpha_local = LoopShape::resolve(m, alpha_raw);
    let x_local = LoopShape::resolve(m, x_raw);
    let y_local = LoopShape::resolve(m, w.0);
    let y_ty = local_ty_of(body, y_local);
    let fty = if is_vec {
        if !is_ref_vec_f64(y_ty, true) {
            return None;
        }
        FloatTy::F64
    } else {
        match ref_slice_float_ty(y_ty, true) {
            Some(f) => f,
            None => {
                return None;
            },
        }
    };
    let xfty = match ref_slice_float_ty(local_ty_of(body, x_local), false) {
        Some(f) => f,
        None => {
            return None;
        },
    };
    if xfty != fty || local_ty_of(body, alpha_local) != LocalTy::Scalar(ScalarTy::F64) || y_local == x_local {
        return None;
    }
    let y_dst = if is_vec {
        SliceDst::VecRef { vec_ref: y_local }
    } else {
        SliceDst::Slice { local: y_local }
    };
    Some(
        AxpyPlan {
            entry_bb: shape.entry_bb,
            exit_bb: shape.exit_bb,
            y_dst,
            x_local,
            alpha_local,
            fty,
            is_sub: w.2,
        },
    )
}

} // verus!
