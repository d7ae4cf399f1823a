//! `s.iter().for_each(f)` and `s.iter().filter(p).count()` over slices of a
//! non-primitive element type, whether as calls or with the `filter`
//! already inlined into aggregates, become one call of the runtime's
//! generic helper, handed the closure as a `&dyn Fn`.
use vstd::prelude::*;
use crate::mir::{
    Body, StatementKind, TerminatorKind, Operand, Const, Place, Rvalue, BorrowKind, UnwindAction, LocalTy,
    ProjectionElem, AggregateKind,
};
use crate::detect::stmts_of;
use crate::text::{contains_text, contains_str, last_path_segment, str_eq, ends_with_text, ends_with_str};
use crate::gates::{sysroot_crate, is_in_sysroot_crate, quick_skip, parallel_pass_quick_skip};
use crate::iter_methods::{operand_is, helper_listed, copy_place, copy_operand, same_operand, helper_available};
use crate::combinators::{
    CallFacts, bare_local, resolve_slice, call_of, bare_local_of, resolve_slice_of, call_of_exec,
    lemma_call_target_in, slice_operand, is_slice_iter, is_iterator_method,
};
use crate::fork::{same_stmt, same_stmts, copy_stmt};

verus! {

/// The argument handed to the function is a closure of the `Fn` kind (one
/// called through a shared reference).
pub open spec fn fn_closure(facts: CallFacts) -> bool {
    facts.is_closure && facts.fn_callable
}

/// A generic chain: (whether it is a `filter(..).count()`, block whose call
/// the helper call replaces, block after the chain, block of the
/// `for_each` or `filter` call if it is a call, block of the `count` call
/// if its statements move, destination of the chain's last call (local,
/// projection), the closure's local when it is a bare local, the slice
/// (local, moved) when it is traced to a local).
pub type GenericIterView = (
    bool,
    usize,
    usize,
    Option<usize>,
    Option<usize>,
    (usize, Seq<ProjectionElem>),
    Option<usize>,
    Option<(usize, bool)>,
);

/// The generic chain whose `iter` call ends block `b`; `generic[b]` says
/// whether that call's slice (after a re-borrow) is a `&[T]` whose `T` is
/// not a primitive, and `facts` what the compiler says of each block's
/// call.
pub open spec fn generic_plan_at(body: Body, facts: Seq<CallFacts>, generic: Seq<bool>, b: int) -> Option<
    GenericIterView,
> {
    match call_of(body, b) {
        None => None,
        Some((ip, iargs, idest, bm)) => if !(idest.projection@.len() == 0 && is_slice_iter(ip) && iargs.len() == 1
            && generic[b]) {
            None
        } else {
            match call_of(body, bm as int) {
                None => None,
                Some((mp, margs, mdest, after)) => if !(margs.len() == 2 && bare_local(margs[0]) == Some(idest.local)
                    && fn_closure(facts[bm as int])) {
                    None
                } else if is_iterator_method(mp, "for_each"@) {
                    Some(
                        (
                            false,
                            b as usize,
                            after,
                            Some(bm),
                            None,
                            (mdest.local, mdest.projection@),
                            bare_local(margs[1]),
                            resolve_slice(body, b, iargs[0]),
                        ),
                    )
                } else if is_iterator_method(mp, "filter"@) {
                    match call_of(body, after as int) {
                        None => None,
                        Some((cp, cargs, cdest, after2)) => if is_iterator_method(cp, "count"@) && cargs.len() == 1
                            && bare_local(cargs[0]) == Some(mdest.local) {
                            Some(
                                (
                                    true,
                                    b as usize,
                                    after2,
                                    Some(bm),
                                    Some(after),
                                    (cdest.local, cdest.projection@),
                                    bare_local(margs[1]),
                                    resolve_slice(body, b, iargs[0]),
                                ),
                            )
                        } else {
                            None
                        },
                    }
                } else {
                    None
                },
            }
        },
    }
}

/// The chains found in the first `m` blocks, in block order.
pub open spec fn generic_plans(body: Body, facts: Seq<CallFacts>, generic: Seq<bool>, m: nat) -> Seq<GenericIterView>
    decreases m,
{
    if m == 0 {
        Seq::empty()
    } else {
        generic_plans(body, facts, generic, (m - 1) as nat) + match generic_plan_at(body, facts, generic, m - 1) {
            Some(p) => seq![p],
            None => Seq::empty(),
        }
    }
}

/// A statement kept: any but a storage marker, or, when `only` names a
/// local, any but a storage marker of that local.
pub open spec fn keep_stmt(s: StatementKind, only: Option<usize>) -> bool {
    match s {
        StatementKind::StorageLive(x) => only matches Some(l) && x != l,
        StatementKind::StorageDead(x) => only matches Some(l) && x != l,
        _ => true,
    }
}

/// The statements of `s` that `keep_stmt` keeps, in order.
pub open spec fn kept(s: Seq<StatementKind>, only: Option<usize>) -> Seq<StatementKind>
    decreases s.len(),
{
    if s.len() == 0 {
        Seq::empty()
    } else {
        kept(s.drop_last(), only) + if keep_stmt(s.last(), only) {
            seq![s.last()]
        } else {
            Seq::empty()
        }
    }
}

/// The slice argument of the helper call: the traced slice local, or else
/// the operand of the `iter` call that ends block `p.1`.
pub open spec fn slice_arg_ok(a: Operand, src: Body, p: GenericIterView) -> bool {
    match p.7 {
        Some((l, mv)) => operand_is(a, l, mv),
        None => same_operand(a, (call_of(src, p.1 as int)->0).1[0]),
    }
}

/// The statements of block `b`, if any, without storage markers.
pub open spec fn kept_of(src: Body, b: Option<usize>) -> Seq<StatementKind> {
    match b {
        Some(c) => kept(stmts_of(src, c as int), None),
        None => Seq::empty(),
    }
}

/// The statements that move ahead of the helper call: those of the
/// `for_each` or `filter` block, then those of the `count` block, without
/// storage markers.
pub open spec fn hoisted(src: Body, p: GenericIterView) -> Seq<StatementKind> {
    kept_of(src, p.3) + kept_of(src, p.4)
}

/// The helper a chain calls.
pub open spec fn generic_helper(filter: bool) -> Seq<char> {
    if filter {
        "parallel_runtime_parallel_filter_count_slice_dyn_generic"@
    } else {
        "parallel_runtime_parallel_for_each_slice_dyn_generic"@
    }
}

/// A chain to rewrite, with copies of what it moves.
#[derive(Debug)]
pub struct GenericIterPlan {
    pub filter: bool,
    pub bb_iter: usize,
    pub after: usize,
    pub bb_method: Option<usize>,
    pub bb_count: Option<usize>,
    pub dest: Place,
    /// The slice handed to the helper.
    pub slice_arg: Operand,
    /// The traced slice local, if any.
    pub slice_src: Option<(usize, bool)>,
    /// The closure's local, when the closure is a bare local.
    pub closure: Option<usize>,
    /// The statements that move ahead of the helper call.
    pub moved: Vec<StatementKind>,
}

impl GenericIterPlan {
    pub open spec fn view_tuple(&self) -> GenericIterView {
        (
            self.filter,
            self.bb_iter,
            self.after,
            self.bb_method,
            self.bb_count,
            (self.dest.local, self.dest.projection@),
            self.closure,
            self.slice_src,
        )
    }
}

/// The plan's copies are those of `src`.
pub open spec fn generic_data_ok(p: GenericIterPlan, src: Body) -> bool {
    &&& slice_arg_ok(p.slice_arg, src, p.view_tuple())
    &&& same_stmts(p.moved@, hoisted(src, p.view_tuple()))
}

fn keep_stmt_of(s: &StatementKind, only: Option<usize>) -> (r: bool)
    ensures
        r == keep_stmt(*s, only),
{
    match s {
        StatementKind::StorageLive(x) => match only {
            Some(l) => *x != l,
            None => false,
        },
        StatementKind::StorageDead(x) => match only {
            Some(l) => *x != l,
            None => false,
        },
        _ => true,
    }
}

/// Appends copies of the statements of `stmts` that carry no storage
/// marker.
fn push_kept_copies(out: &mut Vec<StatementKind>, stmts: &Vec<StatementKind>)
    ensures
        final(out)@.len() == old(out)@.len() + kept(stmts@, None).len(),
        final(out)@.take(old(out)@.len() as int) == old(out)@,
        same_stmts(final(out)@.skip(old(out)@.len() as int), kept(stmts@, None)),
{
    let ghost start = out@;
    let mut j: usize = 0;
    while j < stmts.len()
        invariant
            j <= stmts@.len(),
            out@.len() == start.len() + kept(stmts@.take(j as int), None).len(),
            out@.take(start.len() as int) == start,
            same_stmts(out@.skip(start.len() as int), kept(stmts@.take(j as int), None)),
        decreases stmts@.len() - j,
    {
        let ghost prev = out@;
        proof {
            assert(stmts@.take(j + 1).drop_last() =~= stmts@.take(j as int));
            assert(stmts@.take(j + 1).last() == stmts@[j as int]);
        }
        if keep_stmt_of(&stmts[j], None) {
            out.push(copy_stmt(&stmts[j]));
            proof {
                let k0 = kept(stmts@.take(j as int), None);
                let k1 = kept(stmts@.take(j + 1), None);
                assert(k1 =~= k0.push(stmts@[j as int]));
                assert(out@.take(start.len() as int) =~= start);
                assert forall|i: int| 0 <= i < k1.len() implies #[trigger] same_stmt(
                    out@.skip(start.len() as int)[i],
                    k1[i],
                ) by {
                    if i < k0.len() {
                        assert(out@.skip(start.len() as int)[i] == prev.skip(start.len() as int)[i]);
                    }
                }
            }
        } else {
            proof {
                assert(kept(stmts@.take(j + 1), None) =~= kept(stmts@.take(j as int), None));
            }
        }
        j = j + 1;
    }
    proof {
        assert(stmts@.take(stmts@.len() as int) =~= stmts@);
    }
}

fn slice_arg_of(src: Option<(usize, bool)>, o: &Operand) -> (r: Operand)
    ensures
        match src {
            Some((l, mv)) => operand_is(r, l, mv),
            None => same_operand(r, *o),
        },
{
    match src {
        Some((l, mv)) => slice_operand(l, mv),
        None => copy_operand(o),
    }
}

fn generic_plan_from(body: &Body, facts: &Vec<CallFacts>, generic: &Vec<bool>, b: usize) -> (r: Option<GenericIterPlan>)
    requires
        body.targets_valid(),
        b < body.num_blocks(),
        facts@.len() == body.num_blocks(),
        generic@.len() == body.num_blocks(),
    ensures
        match r {
            None => generic_plan_at(*body, facts@, generic@, b as int) is None,
            Some(p) => generic_plan_at(*body, facts@, generic@, b as int) == Some(p.view_tuple()) && generic_data_ok(
                p,
                *body,
            ) && p.after < body.num_blocks() && p.bb_iter == b,
        },
{
    let (ip, iargs, idest, bm) = match call_of_exec(body, b) {
        Some(x) => x,
        None => {
            return None;
        },
    };
    proof {
        lemma_call_target_in(*body, b as int);
    }
    if !(idest.projection.len() == 0 && str_eq(last_path_segment(ip.as_str()), "iter") && contains_str(
        ip.as_str(),
        "slice",
    ) && iargs.len() == 1 && generic[b]) {
        return None;
    }
    let (mp, margs, mdest, after) = match call_of_exec(body, bm) {
        Some(x) => x,
        None => {
            return None;
        },
    };
    proof {
        lemma_call_target_in(*body, bm as int);
    }
    if !(margs.len() == 2 && bare_local_of(&margs[0]) == Some(idest.local) && facts[bm].is_closure
        && facts[bm].fn_callable) {
        return None;
    }
    let slice_src = resolve_slice_of(body, b, &iargs[0]);
    let seg = last_path_segment(mp.as_str());
    let in_iter = contains_str(mp.as_str(), "Iterator");
    let mut moved: Vec<StatementKind> = Vec::new();
    push_kept_copies(&mut moved, &body.basic_blocks[bm].statements);
    if str_eq(seg, "for_each") && in_iter {
        let p = GenericIterPlan {
            filter: false,
            bb_iter: b,
            after,
            bb_method: Some(bm),
            bb_count: None,
            dest: copy_place(mdest),
            slice_arg: slice_arg_of(slice_src, &iargs[0]),
            slice_src,
            closure: bare_local_of(&margs[1]),
            moved,
        };
        proof {
            assert(moved@.skip(0) =~= moved@);
            assert(hoisted(*body, p.view_tuple()) =~= kept(stmts_of(*body, bm as int), None));
        }
        Some(p)
    } else if str_eq(seg, "filter") && in_iter {
        let (cp, cargs, cdest, after2) = match call_of_exec(body, after) {
            Some(x) => x,
            None => {
                return None;
            },
        };
        proof {
            lemma_call_target_in(*body, after as int);
        }
        if !(str_eq(last_path_segment(cp.as_str()), "count") && contains_str(cp.as_str(), "Iterator") && cargs.len()
            == 1 && bare_local_of(&cargs[0]) == Some(mdest.local)) {
            return None;
        }
        let ghost m0 = moved@;
        push_kept_copies(&mut moved, &body.basic_blocks[after].statements);
        let p = GenericIterPlan {
            filter: true,
            bb_iter: b,
            after: after2,
            bb_method: Some(bm),
            bb_count: Some(after),
            dest: copy_place(cdest),
            slice_arg: slice_arg_of(slice_src, &iargs[0]),
            slice_src,
            closure: bare_local_of(&margs[1]),
            moved,
        };
        proof {
            let h = hoisted(*body, p.view_tuple());
            let k0 = kept(stmts_of(*body, bm as int), None);
            let k1 = kept(stmts_of(*body, after as int), None);
            assert(m0.skip(0) =~= m0);
            assert(h =~= k0 + k1);
            assert forall|i: int| 0 <= i < h.len() implies #[trigger] same_stmt(moved@[i], h[i]) by {
                if i < k0.len() {
                    assert(moved@[i] == m0[i]);
                    assert(same_stmt(m0.skip(0)[i], k0[i]));
                } else {
                    assert(moved@[i] == moved@.skip(m0.len() as int)[i - k0.len()]);
                }
            }
        }
        Some(p)
    } else {
        None
    }
}


// ── Chains inlined into aggregates ─────────────────────────────────────

/// The right-hand side of `s` when it assigns bare local `l`.
pub open spec fn assign_to(s: StatementKind, l: usize) -> Option<Rvalue> {
    match s {
        StatementKind::Assign(place, rv) => if place.local == l && place.projection@.len() == 0 {
            Some(rv)
        } else {
            None
        },
        _ => None,
    }
}

/// The first assignment to bare local `l` among `stmts`.
pub open spec fn first_assign_in(stmts: Seq<StatementKind>, l: usize) -> Option<Rvalue>
    decreases stmts.len(),
{
    if stmts.len() == 0 {
        None
    } else {
        match assign_to(stmts[0], l) {
            Some(r) => Some(r),
            None => first_assign_in(stmts.drop_first(), l),
        }
    }
}

/// The first assignment to bare local `l` in the blocks from `from` on, in
/// block order.
pub open spec fn first_assign_from(body: Body, l: usize, from: int) -> Option<Rvalue>
    decreases body.basic_blocks@.len() - from,
{
    if from < 0 || from >= body.basic_blocks@.len() {
        None
    } else {
        match first_assign_in(stmts_of(body, from), l) {
            Some(r) => Some(r),
            None => first_assign_from(body, l, from + 1),
        }
    }
}

/// The first assignment to bare local `l` in the body.
pub open spec fn first_assign(body: Body, l: usize) -> Option<Rvalue> {
    first_assign_from(body, l, 0)
}

/// The slice reference local that a `slice::Iter`'s pointer field comes
/// from: the pointer is a one-field aggregate of a cast of a raw pointer to
/// `*local`.
pub open spec fn trace_slice(body: Body, o: Operand) -> Option<usize> {
    match bare_local(o) {
        None => None,
        Some(l1) => match first_assign(body, l1) {
            Some(Rvalue::Aggregate(_, f1)) => if f1@.len() != 1 {
                None
            } else {
                match bare_local(f1@[0]) {
                    None => None,
                    Some(l2) => match first_assign(body, l2) {
                        Some(Rvalue::Cast(c)) => match bare_local(c) {
                            None => None,
                            Some(l3) => match first_assign(body, l3) {
                                Some(Rvalue::RawPtr(q)) => if q.projection@ == seq![ProjectionElem::Deref] {
                                    Some(q.local)
                                } else {
                                    None
                                },
                                _ => None,
                            },
                        },
                        _ => None,
                    },
                }
            },
            _ => None,
        },
    }
}

/// The inlined `filter(..).count()` chain whose `count` call ends block
/// `b`: the call counts a `Filter` aggregate of a `slice::Iter` aggregate,
/// whose pointer is traced to a slice local. For such a block, `generic[b]`
/// says whether the iterator's element type is not a primitive and is the
/// element type of that slice, and `facts[b]` what the compiler says of the
/// filter's predicate.
pub open spec fn inlined_plan_at(body: Body, facts: Seq<CallFacts>, generic: Seq<bool>, b: int) -> Option<
    GenericIterView,
> {
    match call_of(body, b) {
        None => None,
        Some((cp, cargs, cdest, after)) => if !(cargs.len() == 1 && is_iterator_method(cp, "count"@)) {
            None
        } else {
            match bare_local(cargs[0]) {
                None => None,
                Some(lf) => match first_assign(body, lf) {
                    Some(Rvalue::Aggregate(AggregateKind::Adt { path, first_ty }, fields)) => if !(ends_with_text(
                        path@,
                        "Filter"@,
                    ) && contains_text(path@, "filter"@) && fields@.len() == 2) {
                        None
                    } else {
                        match bare_local(fields@[0]) {
                            None => None,
                            Some(li) => match first_assign(body, li) {
                                Some(Rvalue::Aggregate(AggregateKind::Adt { path: ip, first_ty: ity }, ifields)) => if !(
                                ends_with_text(ip@, "Iter"@) && contains_text(ip@, "slice"@) && ifields@.len() >= 1) {
                                    None
                                } else {
                                    match trace_slice(body, ifields@[0]) {
                                        None => None,
                                        Some(sl) => if generic[b] && fn_closure(facts[b]) {
                                            Some(
                                                (
                                                    true,
                                                    b as usize,
                                                    after,
                                                    None,
                                                    None,
                                                    (cdest.local, cdest.projection@),
                                                    bare_local(fields@[1]),
                                                    Some((sl, false)),
                                                ),
                                            )
                                        } else {
                                            None
                                        },
                                    }
                                },
                                _ => None,
                            },
                        }
                    },
                    _ => None,
                },
            }
        },
    }
}

/// The inlined chains found in the first `m` blocks, in block order.
pub open spec fn inlined_plans(body: Body, facts: Seq<CallFacts>, generic: Seq<bool>, m: nat) -> Seq<GenericIterView>
    decreases m,
{
    if m == 0 {
        Seq::empty()
    } else {
        inlined_plans(body, facts, generic, (m - 1) as nat) + match inlined_plan_at(body, facts, generic, m - 1) {
            Some(p) => seq![p],
            None => Seq::empty(),
        }
    }
}

/// All the chains of a body: the call chains in block order, then the
/// inlined ones in block order.
pub open spec fn all_generic_plans(body: Body, facts: Seq<CallFacts>, generic: Seq<bool>) -> Seq<GenericIterView> {
    generic_plans(body, facts, generic, body.num_blocks()) + inlined_plans(body, facts, generic, body.num_blocks())
}

fn first_assign_exec(body: &Body, l: usize) -> (r: Option<&Rvalue>)
    ensures
        match r {
            None => first_assign(*body, l) is None,
            Some(rv) => first_assign(*body, l) == Some(*rv),
        },
{
    let mut b: usize = 0;
    while b < body.basic_blocks.len()
        invariant
            b <= body.basic_blocks@.len(),
            first_assign(*body, l) == first_assign_from(*body, l, b as int),
        decreases body.basic_blocks@.len() - b,
    {
        let stmts = &body.basic_blocks[b].statements;
        let ghost all = stmts@;
        assert(all.skip(0) =~= all);
        let mut j: usize = 0;
        while j < stmts.len()
            invariant
                j <= all.len(),
                stmts@ == all,
                all == stmts_of(*body, b as int),
                b < body.basic_blocks@.len(),
                first_assign(*body, l) == first_assign_from(*body, l, b as int),
                first_assign_in(all, l) == first_assign_in(all.skip(j as int), l),
            decreases all.len() - j,
        {
            proof {
                assert(all.skip(j as int)[0] == all[j as int]);
                assert(all.skip(j as int).drop_first() =~= all.skip(j + 1));
            }
            match &stmts[j] {
                StatementKind::Assign(place, rv) => {
                    if place.local == l && place.projection.len() == 0 {
                        return Some(rv);
                    }
                },
                _ => {},
            }
            j = j + 1;
        }
        proof {
            assert(all.skip(j as int).len() == 0);
        }
        b = b + 1;
    }
    None
}

fn trace_slice_exec(body: &Body, o: &Operand) -> (r: Option<usize>)
    ensures
        r == trace_slice(*body, *o),
{
    let l1 = match bare_local_of(o) {
        Some(l) => l,
        None => {
            return None;
        },
    };
    let f1 = match first_assign_exec(body, l1) {
        Some(Rvalue::Aggregate(_, f)) => f,
        _ => {
            return None;
        },
    };
    if f1.len() != 1 {
        return None;
    }
    let l2 = match bare_local_of(&f1[0]) {
        Some(l) => l,
        None => {
            return None;
        },
    };
    let c = match first_assign_exec(body, l2) {
        Some(Rvalue::Cast(c)) => c,
        _ => {
            return None;
        },
    };
    let l3 = match bare_local_of(c) {
        Some(l) => l,
        None => {
            return None;
        },
    };
    match first_assign_exec(body, l3) {
        Some(Rvalue::RawPtr(q)) => {
            if q.projection.len() == 1 && matches!(q.projection[0], ProjectionElem::Deref) {
                proof {
                    assert(q.projection@ =~= seq![ProjectionElem::Deref]);
                }
                Some(q.local)
            } else {
                proof {
                    if q.projection@ == seq![ProjectionElem::Deref] {
                        assert(q.projection@[0] == ProjectionElem::Deref);
                    }
                }
                None
            }
        },
        _ => None,
    }
}

fn inlined_plan_from(body: &Body, facts: &Vec<CallFacts>, generic: &Vec<bool>, b: usize) -> (r: Option<GenericIterPlan>)
    requires
        body.targets_valid(),
        b < body.num_blocks(),
        facts@.len() == body.num_blocks(),
        generic@.len() == body.num_blocks(),
    ensures
        match r {
            None => inlined_plan_at(*body, facts@, generic@, b as int) is None,
            Some(p) => inlined_plan_at(*body, facts@, generic@, b as int) == Some(p.view_tuple()) && generic_data_ok(
                p,
                *body,
            ) && p.after < body.num_blocks() && p.bb_iter == b,
        },
{
    let (cp, cargs, cdest, after) = match call_of_exec(body, b) {
        Some(x) => x,
        None => {
            return None;
        },
    };
    proof {
        lemma_call_target_in(*body, b as int);
    }
    if !(cargs.len() == 1 && str_eq(last_path_segment(cp.as_str()), "count") && contains_str(cp.as_str(), "Iterator")) {
        return None;
    }
    let lf = match bare_local_of(&cargs[0]) {
        Some(l) => l,
        None => {
            return None;
        },
    };
    let (path, fields) = match first_assign_exec(body, lf) {
        Some(Rvalue::Aggregate(AggregateKind::Adt { path, first_ty: _ }, fields)) => (path, fields),
        _ => {
            return None;
        },
    };
    if !(ends_with_str(path.as_str(), "Filter") && contains_str(path.as_str(), "filter") && fields.len() == 2) {
        return None;
    }
    let li = match bare_local_of(&fields[0]) {
        Some(l) => l,
        None => {
            return None;
        },
    };
    let (ip, ifields) = match first_assign_exec(body, li) {
        Some(Rvalue::Aggregate(AggregateKind::Adt { path, first_ty: _ }, fields)) => (path, fields),
        _ => {
            return None;
        },
    };
    if !(ends_with_str(ip.as_str(), "Iter") && contains_str(ip.as_str(), "slice") && ifields.len() >= 1) {
        return None;
    }
    let sl = match trace_slice_exec(body, &ifields[0]) {
        Some(l) => l,
        None => {
            return None;
        },
    };
    if !(generic[b] && facts[b].is_closure && facts[b].fn_callable) {
        return None;
    }
    let p = GenericIterPlan {
        filter: true,
        bb_iter: b,
        after,
        bb_method: None,
        bb_count: None,
        dest: copy_place(cdest),
        slice_arg: slice_operand(sl, false),
        slice_src: Some((sl, false)),
        closure: bare_local_of(&fields[1]),
        moved: Vec::new(),
    };
    proof {
        assert(hoisted(*body, p.view_tuple()) =~= Seq::<StatementKind>::empty());
    }
    Some(p)
}

/// Finds the call chains of a body, in block order.
fn find_call_plans(body: &Body, facts: &Vec<CallFacts>, generic: &Vec<bool>) -> (r: Vec<GenericIterPlan>)
    requires
        body.targets_valid(),
        facts@.len() == body.num_blocks(),
        generic@.len() == body.num_blocks(),
    ensures
        r@.len() == generic_plans(*body, facts@, generic@, body.num_blocks()).len(),
        forall|k: int|
            0 <= k < r@.len() ==> (#[trigger] r@[k]).view_tuple() == generic_plans(*body, facts@, generic@, body.num_blocks())[k]
                && generic_data_ok(r@[k], *body) && r@[k].after < body.num_blocks() && r@[k].bb_iter < body.num_blocks(),
{
    let mut plans: Vec<GenericIterPlan> = Vec::new();
    let mut bb: usize = 0;
    while bb < body.basic_blocks.len()
        invariant
            bb <= body.num_blocks(),
            body.targets_valid(),
            facts@.len() == body.num_blocks(),
            generic@.len() == body.num_blocks(),
            plans@.len() == generic_plans(*body, facts@, generic@, bb as nat).len(),
            forall|k: int|
                0 <= k < plans@.len() ==> (#[trigger] plans@[k]).view_tuple() == generic_plans(*body, facts@, generic@, bb as nat)[k]
                    && generic_data_ok(plans@[k], *body) && plans@[k].after < body.num_blocks() && plans@[k].bb_iter
                    < body.num_blocks(),
        decreases body.num_blocks() - bb,
    {
        let ghost prev = plans@;
        match generic_plan_from(body, facts, generic, bb) {
            Some(p) => {
                plans.push(p);
            },
            None => {},
        }
        proof {
            let before = generic_plans(*body, facts@, generic@, bb as nat);
            let next = generic_plans(*body, facts@, generic@, (bb + 1) as nat);
            assert forall|k: int| 0 <= k < plans@.len() implies (#[trigger] plans@[k]).view_tuple() == next[k]
                && generic_data_ok(plans@[k], *body) && plans@[k].after < body.num_blocks() && plans@[k].bb_iter
                < body.num_blocks() by {
                if k < prev.len() {
                    assert(next[k] == before[k]);
                    assert(plans@[k] == prev[k]);
                }
            }
        }
        bb = bb + 1;
    }
    plans
}

/// Finds the inlined chains of a body, in block order.
fn find_inlined_plans(body: &Body, facts: &Vec<CallFacts>, generic: &Vec<bool>) -> (r: Vec<GenericIterPlan>)
    requires
        body.targets_valid(),
        facts@.len() == body.num_blocks(),
        generic@.len() == body.num_blocks(),
    ensures
        r@.len() == inlined_plans(*body, facts@, generic@, body.num_blocks()).len(),
        forall|k: int|
            0 <= k < r@.len() ==> (#[trigger] r@[k]).view_tuple() == inlined_plans(*body, facts@, generic@, body.num_blocks())[k]
                && generic_data_ok(r@[k], *body) && r@[k].after < body.num_blocks() && r@[k].bb_iter < body.num_blocks(),
{
    let mut plans: Vec<GenericIterPlan> = Vec::new();
    let mut bb: usize = 0;
    while bb < body.basic_blocks.len()
        invariant
            bb <= body.num_blocks(),
            body.targets_valid(),
            facts@.len() == body.num_blocks(),
            generic@.len() == body.num_blocks(),
            plans@.len() == inlined_plans(*body, facts@, generic@, bb as nat).len(),
            forall|k: int|
                0 <= k < plans@.len() ==> (#[trigger] plans@[k]).view_tuple() == inlined_plans(*body, facts@, generic@, bb as nat)[k]
                    && generic_data_ok(plans@[k], *body) && plans@[k].after < body.num_blocks() && plans@[k].bb_iter
                    < body.num_blocks(),
        decreases body.num_blocks() - bb,
    {
        let ghost prev = plans@;
        match inlined_plan_from(body, facts, generic, bb) {
            Some(p) => {
                plans.push(p);
            },
            None => {},
        }
        proof {
            let before = inlined_plans(*body, facts@, generic@, bb as nat);
            let next = inlined_plans(*body, facts@, generic@, (bb + 1) as nat);
            assert forall|k: int| 0 <= k < plans@.len() implies (#[trigger] plans@[k]).view_tuple() == next[k]
                && generic_data_ok(plans@[k], *body) && plans@[k].after < body.num_blocks() && plans@[k].bb_iter
                < body.num_blocks() by {
                if k < prev.len() {
                    assert(next[k] == before[k]);
                    assert(plans@[k] == prev[k]);
                }
            }
        }
        bb = bb + 1;
    }
    plans
}

/// Finds the chains of a body: the call chains in block order, then the
/// inlined ones.
pub fn find_generic_plans(body: &Body, facts: &Vec<CallFacts>, generic: &Vec<bool>) -> (r: Vec<GenericIterPlan>)
    requires
        body.targets_valid(),
        facts@.len() == body.num_blocks(),
        generic@.len() == body.num_blocks(),
    ensures
        r@.len() == all_generic_plans(*body, facts@, generic@).len(),
        forall|k: int|
            0 <= k < r@.len() ==> (#[trigger] r@[k]).view_tuple() == all_generic_plans(*body, facts@, generic@)[k]
                && generic_data_ok(r@[k], *body) && r@[k].after < body.num_blocks() && r@[k].bb_iter < body.num_blocks(),
{
    let mut plans = find_call_plans(body, facts, generic);
    let mut more = find_inlined_plans(body, facts, generic);
    let ghost a = plans@;
    let ghost m = more@;
    plans.append(&mut more);
    proof {
        let all = all_generic_plans(*body, facts@, generic@);
        assert(plans@ =~= a + m);
        assert forall|k: int| 0 <= k < plans@.len() implies (#[trigger] plans@[k]).view_tuple() == all[k]
            && generic_data_ok(plans@[k], *body) && plans@[k].after < body.num_blocks() && plans@[k].bb_iter
            < body.num_blocks() by {
            if k < a.len() {
                assert(plans@[k] == a[k]);
            } else {
                assert(plans@[k] == m[k - a.len()]);
            }
        }
    }
    plans
}

/// `b1` is `b0` with chain `p` rewritten, the moved statements and the
/// closure read off `src`: a reference local and a `&dyn Fn` local are
/// added; the `iter` call's block loses the storage markers of the closure's
/// local, takes the hoisted statements, then the borrow of the closure and
/// its unsizing; its call becomes the helper call on the slice and the
/// `&dyn Fn`, into the chain's destination, returning to the block after
/// the chain and never unwinding; every other block is unchanged.
pub open spec fn generic_rewritten(b0: Body, b1: Body, src: Body, p: GenericIterView) -> bool {
    let local = b0.local_tys@.len();
    let cl = p.6->0;
    let old = b0.basic_blocks@[p.1 as int];
    let new = b1.basic_blocks@[p.1 as int];
    let kept_old = kept(old.statements@, Some(cl));
    let h = hoisted(src, p);
    let s = new.statements@;
    let at = kept_old.len() + h.len();
    &&& b1.arg_count == b0.arg_count
    &&& b1.local_tys@ == b0.local_tys@ + seq![LocalTy::Other, LocalTy::Other]
    &&& b1.basic_blocks@.len() == b0.basic_blocks@.len()
    &&& forall|i: int| 0 <= i < b0.basic_blocks@.len() && i != p.1 ==> #[trigger] b1.basic_blocks@[i] == b0.basic_blocks@[i]
    &&& s.len() == at + 2
    &&& s.take(kept_old.len() as int) == kept_old
    &&& same_stmts(s.subrange(kept_old.len() as int, at as int), h)
    &&& s[at as int] matches StatementKind::Assign(dst, Rvalue::Ref(BorrowKind::Shared, q))
    &&& s[at as int]->Assign_0.local == local && s[at as int]->Assign_0.projection@.len() == 0
    &&& s[at as int]->Assign_1->Ref_1.local == cl && s[at as int]->Assign_1->Ref_1.projection@.len() == 0
    &&& s[at + 1int] matches StatementKind::Assign(dst, Rvalue::Cast(o))
    &&& s[at + 1int]->Assign_0.local == local + 1 && s[at + 1int]->Assign_0.projection@.len() == 0
    &&& operand_is(s[at + 1int]->Assign_1->Cast_0, local as usize, false)
    &&& new.terminator matches Some(TerminatorKind::Call { func, args, destination, target, unwind })
    &&& new.terminator->0->Call_func matches Operand::Constant(Const::FnDef { path })
    &&& new.terminator->0->Call_func->Constant_0->FnDef_path@ == generic_helper(p.0)
    &&& new.terminator->0->Call_args@.len() == 2
    &&& slice_arg_ok(new.terminator->0->Call_args@[0], src, p)
    &&& operand_is(new.terminator->0->Call_args@[1], (local + 1) as usize, true)
    &&& new.terminator->0->Call_destination.local == p.5.0
    &&& new.terminator->0->Call_destination.projection@ == p.5.1
    &&& new.terminator->0->Call_target == Some(p.2)
    &&& new.terminator->0->Call_unwind == UnwindAction::Unreachable
}

fn rewrite_generic_block(body: &mut Body, p: GenericIterPlan, Ghost(src): Ghost<Body>)
    requires
        p.bb_iter < old(body).num_blocks(),
        generic_data_ok(p, src),
        p.closure is Some,
    ensures
        generic_rewritten(*old(body), *final(body), src, p.view_tuple()),
{
    let ghost b0 = *body;
    let ghost pv = p.view_tuple();
    let local = body.local_tys.len();
    body.local_tys.push(LocalTy::Other);
    let dyn_local = body.local_tys.len();
    body.local_tys.push(LocalTy::Other);
    proof {
        assert(body.local_tys@ =~= b0.local_tys@ + seq![LocalTy::Other, LocalTy::Other]);
    }
    let cl = match p.closure {
        Some(l) => l,
        None => 0,
    };
    let mut p = p;
    let ghost orig = b0.basic_blocks@[p.bb_iter as int].statements@;
    let mut old_stmts: Vec<StatementKind> = Vec::new();
    std::mem::swap(&mut old_stmts, &mut body.basic_blocks[p.bb_iter].statements);
    assert(old_stmts@ == orig);
    let mut kept_stmts: Vec<StatementKind> = Vec::new();
    let ghost mut i: int = 0;
    while old_stmts.len() > 0
        invariant
            0 <= i <= orig.len(),
            old_stmts@ == orig.skip(i),
            kept_stmts@ == kept(orig.take(i), Some(cl)),
        decreases old_stmts@.len(),
    {
        let s = old_stmts.remove(0);
        proof {
            assert(s == orig[i]);
            assert(orig.take(i + 1).drop_last() =~= orig.take(i));
            assert(orig.take(i + 1).last() == orig[i]);
        }
        if keep_stmt_of(&s, Some(cl)) {
            kept_stmts.push(s);
        }
        proof {
            assert(old_stmts@ =~= orig.skip(i + 1));
            i = i + 1;
        }
    }
    proof {
        assert(orig.take(i) =~= orig);
    }
    let ghost ko = kept_stmts@;
    let ghost mv = p.moved@;
    let mut extra: Vec<StatementKind> = Vec::new();
    extra.push(
        StatementKind::Assign(
            Place { local, projection: Vec::new() },
            Rvalue::Ref(BorrowKind::Shared, Place { local: cl, projection: Vec::new() }),
        ),
    );
    extra.push(
        StatementKind::Assign(
            Place { local: dyn_local, projection: Vec::new() },
            Rvalue::Cast(Operand::Copy(Place { local, projection: Vec::new() })),
        ),
    );
    let ghost ex = extra@;
    kept_stmts.append(&mut p.moved);
    kept_stmts.append(&mut extra);
    let mut args: Vec<Operand> = Vec::new();
    args.push(p.slice_arg);
    args.push(Operand::Move(Place { local: dyn_local, projection: Vec::new() }));
    let helper = if p.filter {
        proof {
            reveal_strlit("parallel_runtime_parallel_filter_count_slice_dyn_generic");
        }
        "parallel_runtime_parallel_filter_count_slice_dyn_generic"
    } else {
        proof {
            reveal_strlit("parallel_runtime_parallel_for_each_slice_dyn_generic");
        }
        "parallel_runtime_parallel_for_each_slice_dyn_generic"
    };
    let blk = &mut body.basic_blocks[p.bb_iter];
    blk.statements = kept_stmts;
    blk.terminator = Some(
        TerminatorKind::Call {
            func: Operand::Constant(Const::FnDef { path: helper.to_string() }),
            args,
            destination: p.dest,
            target: Some(p.after),
            unwind: UnwindAction::Unreachable,
        },
    );
    proof {
        let s = body.basic_blocks@[pv.1 as int].statements@;
        assert(s =~= ko + mv + ex);
        assert(s.take(ko.len() as int) =~= ko);
        assert(s.subrange(ko.len() as int, (ko.len() + mv.len()) as int) =~= mv);
        assert(mv.skip(0) =~= mv);
    }
}

/// A chain is rewritten when the runtime's helper for it takes two inputs
/// (the slice and the closure) and the closure is a bare local.
pub open spec fn generic_applies(p: GenericIterView, src: Body, g: GenericIterGates) -> bool {
    &&& (if p.0 {
        g.filter_count_helper_takes_two
    } else {
        g.for_each_helper_takes_two
    })
    &&& p.6 is Some
}

/// One step of the rewrite: a chain that applies is rewritten, any other
/// leaves the body as it was.
pub open spec fn generic_step(b0: Body, b1: Body, src: Body, p: GenericIterView, g: GenericIterGates) -> bool {
    if generic_applies(p, src, g) {
        generic_rewritten(b0, b1, src, p)
    } else {
        b1 == b0
    }
}

/// `b1` is `b0` with the chains `ps` rewritten one after the other, as far
/// as they apply.
pub open spec fn generic_applied(b0: Body, b1: Body, src: Body, ps: Seq<GenericIterView>, g: GenericIterGates) -> bool {
    exists|bodies: Seq<Body>|
        {
            &&& bodies.len() == ps.len() + 1
            &&& bodies[0] == b0
            &&& bodies.last() == b1
            &&& forall|k: int| 0 <= k < ps.len() ==> #[trigger] generic_step(bodies[k], bodies[k + 1], src, ps[k], g)
        }
}

/// How many of the chains apply.
pub open spec fn generic_count(ps: Seq<GenericIterView>, src: Body, g: GenericIterGates) -> nat
    decreases ps.len(),
{
    if ps.len() == 0 {
        0
    } else {
        generic_count(ps.drop_last(), src, g) + if generic_applies(ps.last(), src, g) {
            1nat
        } else {
            0nat
        }
    }
}

/// What the rewrite needs to know of the compilation: whether idiom
/// transforms are on, the crate's and the function's names, which runtime
/// helpers exist, and whether the generic for-each and filter-count helpers
/// each take two inputs once instantiated at the element type.
pub struct GenericIterGates {
    pub enabled: bool,
    pub crate_name: String,
    pub fn_name: String,
    pub available_helpers: Vec<String>,
    pub for_each_helper_takes_two: bool,
    pub filter_count_helper_takes_two: bool,
}

/// Bodies left alone: transforms off, a sysroot crate, fewer than two
/// blocks or no call, the runtime's own functions, or a runtime without
/// either generic helper.
pub open spec fn generic_gate_refuses(body: Body, g: GenericIterGates) -> bool {
    ||| !g.enabled
    ||| sysroot_crate(g.crate_name@)
    ||| quick_skip(body, 2, true, false)
    ||| contains_text(g.fn_name@, "parallel_runtime"@)
    ||| contains_text(g.fn_name@, "parallel_reduce_"@)
    ||| !helper_listed(g.available_helpers@, generic_helper(false))
    ||| !helper_listed(g.available_helpers@, generic_helper(true))
}

/// Rewrites the generic for-each and filter-count chains of a body (see
/// `generic_plan_at` and `inlined_plan_at` for which chains are found and
/// `generic_applies` for which are rewritten) and returns how many it
/// rewrote. `facts` holds what the compiler says of each block's call (for
/// a `count` of an inlined filter, of the filter's predicate); `generic[b]`
/// says whether the slice that block `b`'s `iter` call reads has a
/// non-primitive element type (for a `count` of an inlined filter, whether
/// the iterator's element type is such a type and that of the traced
/// slice).
pub fn try_transform_generic_iter_patterns(
    body: &mut Body,
    gates: &GenericIterGates,
    facts: &Vec<CallFacts>,
    generic: &Vec<bool>,
) -> (n: usize)
    requires
        old(body).targets_valid(),
        facts@.len() == old(body).num_blocks(),
        generic@.len() == old(body).num_blocks(),
    ensures
        generic_gate_refuses(*old(body), *gates) ==> n == 0 && *final(body) == *old(body),
        !generic_gate_refuses(*old(body), *gates) ==> {
            let ps = all_generic_plans(*old(body), facts@, generic@);
            &&& n == generic_count(ps, *old(body), *gates)
            &&& generic_applied(*old(body), *final(body), *old(body), ps, *gates)
        },
        final(body).targets_valid(),
        old(body).all_terminated() ==> final(body).all_terminated(),
{
    proof {
        reveal_strlit("parallel_runtime_parallel_for_each_slice_dyn_generic");
        reveal_strlit("parallel_runtime_parallel_filter_count_slice_dyn_generic");
    }
    if !gates.enabled || is_in_sysroot_crate(gates.crate_name.as_str()) || parallel_pass_quick_skip(body, 2, true, false)
        || contains_str(gates.fn_name.as_str(), "parallel_runtime") || contains_str(gates.fn_name.as_str(), "parallel_reduce_")
        || !helper_available(&gates.available_helpers, "parallel_runtime_parallel_for_each_slice_dyn_generic")
        || !helper_available(&gates.available_helpers, "parallel_runtime_parallel_filter_count_slice_dyn_generic") {
        return 0;
    }
    let plans = find_generic_plans(body, facts, generic);
    let ghost src = *body;
    let ghost ps = all_generic_plans(src, facts@, generic@);
    let mut plans = plans;
    let ghost all = plans@;
    assert(plans@.len() == plans.len());
    let ghost mut bodies: Seq<Body> = seq![src];
    let ghost mut k: int = 0;
    let mut count: usize = 0;
    while plans.len() > 0
        invariant
            0 <= k <= ps.len(),
            all.len() == ps.len(),
            all.len() <= usize::MAX,
            plans@ == all.skip(k),
            forall|j: int|
                0 <= j < all.len() ==> (#[trigger] all[j]).view_tuple() == ps[j] && generic_data_ok(all[j], src)
                    && all[j].after < src.num_blocks() && all[j].bb_iter < src.num_blocks(),
            bodies.len() == k + 1,
            bodies[0] == src,
            bodies.last() == *body,
            forall|j: int| 0 <= j < k ==> #[trigger] generic_step(bodies[j], bodies[j + 1], src, ps[j], *gates),
            count == generic_count(ps.take(k), src, *gates),
            count <= k,
            body.num_blocks() == src.num_blocks(),
            body.targets_valid(),
            src.all_terminated() ==> body.all_terminated(),
        decreases plans@.len(),
    {
        let p = plans.remove(0);
        let ghost mid = *body;
        assert(p == all[k]);
        assert(all[k].view_tuple() == ps[k] && generic_data_ok(all[k], src) && all[k].after < src.num_blocks()
            && all[k].bb_iter < src.num_blocks());
        let ghost pv = p.view_tuple();
        let two = if p.filter {
            gates.filter_count_helper_takes_two
        } else {
            gates.for_each_helper_takes_two
        };
        let applies = two && p.closure.is_some();
        assert(applies == generic_applies(pv, src, *gates));
        if applies {
            rewrite_generic_block(body, p, Ghost(src));
            count = count + 1;
            proof {
                let nb = *body;
                assert forall|i: int| 0 <= i < nb.basic_blocks@.len() implies (#[trigger] nb.basic_blocks@[i]).terminator matches Some(
                    t,
                ) ==> crate::mir::terminator_targets_ok(t, nb.num_blocks()) by {
                    if i != pv.1 {
                        assert(nb.basic_blocks@[i] == mid.basic_blocks@[i]);
                    }
                }
                if src.all_terminated() {
                    assert forall|i: int| 0 <= i < nb.basic_blocks@.len() implies (#[trigger] nb.basic_blocks@[i]).terminator is Some by {
                        if i != pv.1 {
                            assert(nb.basic_blocks@[i] == mid.basic_blocks@[i]);
                        }
                    }
                }
            }
        }
        proof {
            assert(ps.take(k + 1).drop_last() =~= ps.take(k));
            let nb = bodies.push(*body);
            assert forall|j: int| 0 <= j < k + 1 implies #[trigger] generic_step(nb[j], nb[j + 1], src, ps[j], *gates) by {
                if j < k {
                    assert(nb[j] == bodies[j] && nb[j + 1] == bodies[j + 1]);
                } else {
                    assert(nb[j] == mid && nb[j + 1] == *body);
                }
            }
            bodies = nb;
            assert(plans@ =~= all.skip(k + 1));
            k = k + 1;
        }
    }
    proof {
        assert(ps.take(k) =~= ps);
    }
    count
}

} // verus!
