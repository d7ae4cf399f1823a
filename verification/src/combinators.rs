//! Iterator combinator chains over slices of integers (and, where the
//! function opted in, of floats): `s.iter().filter(p).sum()` (also
//! `product` and `count`) and `a.iter().zip(b.iter()).map(f).sum()` become
//! one call of a runtime helper that takes the slices, and the predicate or
//! combiner cast to a function pointer.
use vstd::prelude::*;
use crate::mir::{
    Body, BasicBlockData, StatementKind, TerminatorKind, Operand, Const, Place, ProjectionElem, Rvalue, BorrowKind,
    UnwindAction, LocalTy,
};
use crate::detect::{term_of, stmts_of};
use crate::idioms::{AccTyTag, ScalarTy, tag_word, is_narrow_int};
use crate::text::{last_segment, last_path_segment, str_eq, contains_text, contains_str};
use crate::gates::{sysroot_crate, is_in_sysroot_crate, has_call_terminator};
use crate::iter_methods::{
    IterMethod, iter_method_named, slice_elem_tag, bare_operand, operand_is, helper_listed, copy_place, copy_operand,
    same_operand, bare_operand_of, slice_elem_tag_of, iter_method_of, helper_available,
};
use crate::fork::{same_place, fork_ready};

verus! {

/// What the compiler says of a block's call. Of the function value handed
/// as its second argument (the predicate of a `filter`, the body of a
/// `for_each`, the mapping of a `map`): whether its type coerces to a
/// function pointer (a function item, or a closure capturing nothing);
/// whether it is a closure, or a function of this crate other than the
/// analysed one, whose MIR holds exactly one multiplication and no other
/// binary operation; whether it is a closure; whether it is a function item
/// or a closure called through a shared reference (an `Fn` closure);
/// whether it is a closure that captures; whether it is a closure that
/// captures and is called through a shared reference; and,
/// when it is a function item or a closure whose signature takes one
/// reference `&T` to a scalar and returns that scalar `T`, the scalar. And,
/// when the call is a `collect`, the element type of the `Vec` it collects
/// into, if that is a scalar.
#[derive(Clone, Copy, Debug)]
pub struct CallFacts {
    pub coercible: bool,
    pub simple_mul: bool,
    pub is_closure: bool,
    pub fn_callable: bool,
    pub closure_with_captures: bool,
    pub shared_closure_with_captures: bool,
    pub ref_to_same_scalar: Option<ScalarTy>,
    pub collect_vec_elem: Option<ScalarTy>,
}

/// The operand coerces to a function pointer: a function item constant, or
/// a place whose type the compiler says coerces.
pub open spec fn fn_arg_coercible(o: Operand, info: CallFacts) -> bool {
    match o {
        Operand::Constant(Const::FnDef { .. }) => true,
        Operand::Constant(_) => false,
        _ => info.coercible,
    }
}

/// The local that a copy or move of a bare local reads.
pub open spec fn bare_local(o: Operand) -> Option<usize> {
    match bare_operand(o) {
        Some((l, _)) => Some(l),
        None => None,
    }
}

/// `s` re-borrows through local `l`, `l = &(*src)`: the source local.
pub open spec fn reborrow_of(s: StatementKind, l: usize) -> Option<usize> {
    match s {
        StatementKind::Assign(place, Rvalue::Ref(_, src)) => if place.local == l && place.projection@.len() == 0
            && src.projection@ == seq![ProjectionElem::Deref] {
            Some(src.local)
        } else {
            None
        },
        _ => None,
    }
}

/// The source of the first re-borrow through `l` among `stmts`.
pub open spec fn first_reborrow(stmts: Seq<StatementKind>, l: usize) -> Option<usize>
    decreases stmts.len(),
{
    if stmts.len() == 0 {
        None
    } else {
        match reborrow_of(stmts[0], l) {
            Some(src) => Some(src),
            None => first_reborrow(stmts.drop_first(), l),
        }
    }
}

/// The slice that an `iter` call in block `bb` reads: a bare local, copied
/// or moved, traced back through a re-borrow `l = &(*src)` in the same block
/// to a copy of `src`.
pub open spec fn resolve_slice(body: Body, bb: int, o: Operand) -> Option<(usize, bool)> {
    match bare_operand(o) {
        None => None,
        Some((l, mv)) => match first_reborrow(stmts_of(body, bb), l) {
            Some(src) => Some((src, false)),
            None => Some((l, mv)),
        },
    }
}

/// The call ending block `bb`, of a function item, that continues:
/// (callee path, arguments, destination, return block).
pub open spec fn call_of(body: Body, bb: int) -> Option<(Seq<char>, Seq<Operand>, Place, usize)> {
    match term_of(body, bb) {
        Some(TerminatorKind::Call { func: Operand::Constant(Const::FnDef { path }), args, destination, target: Some(t), .. }) => Some(
            (path@, args@, destination, t),
        ),
        _ => None,
    }
}

/// A slice `iter` call.
pub open spec fn is_slice_iter(path: Seq<char>) -> bool {
    last_segment(path) == "iter"@ && contains_text(path, "slice"@)
}

/// A method of `Iterator` with the given last path segment.
pub open spec fn is_iterator_method(path: Seq<char>, name: Seq<char>) -> bool {
    last_segment(path) == name && contains_text(path, "Iterator"@)
}

/// Statements that a walk passes over: storage markers, no-ops, fake reads,
/// place mentions and shared borrows.
pub open spec fn goto_passes(s: StatementKind) -> bool {
    match s {
        StatementKind::StorageLive(_) => true,
        StatementKind::StorageDead(_) => true,
        StatementKind::Nop => true,
        StatementKind::FakeRead => true,
        StatementKind::PlaceMention => true,
        StatementKind::Assign(_, Rvalue::Ref(BorrowKind::Shared, _)) => true,
        _ => false,
    }
}

/// Every statement passes.
pub open spec fn all_pass(stmts: Seq<StatementKind>) -> bool {
    forall|i: int| 0 <= i < stmts.len() ==> #[trigger] goto_passes(stmts[i])
}

/// From block `bb`, follows gotos out of blocks whose statements all pass,
/// at most `steps` times.
pub open spec fn walk_goto(body: Body, bb: usize, steps: nat) -> usize
    decreases steps,
{
    if steps == 0 {
        bb
    } else if !all_pass(stmts_of(body, bb as int)) {
        bb
    } else {
        match term_of(body, bb as int) {
            Some(TerminatorKind::Goto { target }) => walk_goto(body, target, (steps - 1) as nat),
            _ => bb,
        }
    }
}

/// What a chain becomes.
#[derive(Clone, Copy, PartialEq, Eq, Debug, Structural)]
pub enum CombKind {
    /// `iter().filter(p)` ended by the given method.
    Filter(IterMethod),
    /// `a.iter().zip(b.iter()).map(f).sum()` where `f` multiplies.
    ZipMul,
    /// `a.iter().zip(b.iter()).map(f).sum()` for any other `f`.
    ZipMap,
}

/// A chain: (what it becomes, element type, block whose call the helper
/// call replaces, block after the chain, first slice (local, moved),
/// second slice, block whose call's second argument is the predicate or
/// combiner, destination of the chain's last call (local, projection)).
pub type CombView = (
    CombKind,
    AccTyTag,
    usize,
    usize,
    (usize, bool),
    Option<(usize, bool)>,
    Option<usize>,
    (usize, Seq<ProjectionElem>),
);

/// The `iter().filter(p).{sum,product,count}()` chain whose `iter` call ends
/// block `b`.
pub open spec fn filter_plan_at(body: Body, facts: Seq<CallFacts>, b: int) -> Option<CombView> {
    match call_of(body, b) {
        None => None,
        Some((ip, iargs, idest, bf)) => if !(idest.projection@.len() == 0 && is_slice_iter(ip) && iargs.len() == 1) {
            None
        } else {
            match resolve_slice(body, b, iargs[0]) {
                None => None,
                Some((sl, mv)) => match slice_elem_tag(body, sl) {
                    None => None,
                    Some(tag) => match call_of(body, bf as int) {
                        None => None,
                        Some((fp, fargs, fdest, bm)) => if !(is_iterator_method(fp, "filter"@) && fargs.len() == 2
                            && bare_local(fargs[0]) == Some(idest.local) && fn_arg_coercible(fargs[1], facts[bf as int])) {
                            None
                        } else {
                            match call_of(body, bm as int) {
                                None => None,
                                Some((mp, margs, mdest, after)) => match iter_method_named(last_segment(mp)) {
                                    None => None,
                                    Some(method) => if contains_text(mp, "Iterator"@) && margs.len() == 1 && bare_local(
                                        margs[0],
                                    ) == Some(fdest.local) {
                                        Some(
                                            (
                                                CombKind::Filter(method),
                                                tag,
                                                b as usize,
                                                after,
                                                (sl, mv),
                                                None,
                                                Some(bf),
                                                (mdest.local, mdest.projection@),
                                            ),
                                        )
                                    } else {
                                        None
                                    },
                                },
                            }
                        },
                    },
                },
            }
        },
    }
}

/// The `a.iter().zip(b.iter()).map(f).sum()` chain whose first `iter` call
/// ends block `b`; gotos out of passing blocks are followed between its
/// calls (the second slice is traced in the block the first call returns
/// to).
pub open spec fn zip_plan_at(body: Body, facts: Seq<CallFacts>, b: int) -> Option<CombView> {
    match call_of(body, b) {
        None => None,
        Some((ap, aargs, adest, bib)) => if !(adest.projection@.len() == 0 && is_slice_iter(ap) && aargs.len() == 1) {
            None
        } else {
            match resolve_slice(body, b, aargs[0]) {
                None => None,
                Some((al, amv)) => match slice_elem_tag(body, al) {
                    None => None,
                    Some(ta) => match call_of(body, walk_goto(body, bib, 6) as int) {
                        None => None,
                        Some((bp, bargs, bdest, bz)) => if !(bdest.projection@.len() == 0 && is_slice_iter(bp)
                            && bargs.len() == 1) {
                            None
                        } else {
                            match resolve_slice(body, bib as int, bargs[0]) {
                                None => None,
                                Some((bl, bmv)) => if slice_elem_tag(body, bl) != Some(ta) {
                                    None
                                } else {
                                    match call_of(body, walk_goto(body, bz, 6) as int) {
                                        None => None,
                                        Some((zp, zargs, zdest, bmap)) => if !(is_iterator_method(zp, "zip"@)
                                            && zargs.len() == 2 && bare_local(zargs[0]) == Some(adest.local) && bare_local(
                                            zargs[1],
                                        ) == Some(bdest.local)) {
                                            None
                                        } else {
                                            let wm = walk_goto(body, bmap, 6);
                                            match call_of(body, wm as int) {
                                                None => None,
                                                Some((mp, margs, mdest, bmeth)) => if !(is_iterator_method(mp, "map"@)
                                                    && margs.len() == 2 && bare_local(margs[0]) == Some(zdest.local)
                                                    && fn_arg_coercible(margs[1], facts[wm as int])) {
                                                    None
                                                } else {
                                                    match call_of(body, walk_goto(body, bmeth, 6) as int) {
                                                        None => None,
                                                        Some((sp, sargs, sdest, after)) => if is_iterator_method(
                                                            sp,
                                                            "sum"@,
                                                        ) && sargs.len() == 1 && bare_local(sargs[0]) == Some(
                                                            mdest.local,
                                                        ) {
                                                            Some(
                                                                (
                                                                    if facts[wm as int].simple_mul {
                                                                        CombKind::ZipMul
                                                                    } else {
                                                                        CombKind::ZipMap
                                                                    },
                                                                    ta,
                                                                    b as usize,
                                                                    after,
                                                                    (al, amv),
                                                                    Some((bl, bmv)),
                                                                    Some(wm),
                                                                    (sdest.local, sdest.projection@),
                                                                ),
                                                            )
                                                        } else {
                                                            None
                                                        },
                                                    }
                                                },
                                            }
                                        },
                                    }
                                },
                            }
                        },
                    },
                },
            }
        },
    }
}

/// The filter chains found in the first `m` blocks, then the zip chains
/// found in the first `m` blocks, each in block order.
pub open spec fn filter_plans(body: Body, facts: Seq<CallFacts>, m: nat) -> Seq<CombView>
    decreases m,
{
    if m == 0 {
        Seq::empty()
    } else {
        filter_plans(body, facts, (m - 1) as nat) + match filter_plan_at(body, facts, m - 1) {
            Some(p) => seq![p],
            None => Seq::empty(),
        }
    }
}

pub open spec fn zip_plans(body: Body, facts: Seq<CallFacts>, m: nat) -> Seq<CombView>
    decreases m,
{
    if m == 0 {
        Seq::empty()
    } else {
        zip_plans(body, facts, (m - 1) as nat) + match zip_plan_at(body, facts, m - 1) {
            Some(p) => seq![p],
            None => Seq::empty(),
        }
    }
}

/// The runtime helper a chain calls, if any.
pub open spec fn comb_helper(kind: CombKind, tag: AccTyTag) -> Option<Seq<char>> {
    match (kind, tag) {
        (CombKind::Filter(IterMethod::Count), AccTyTag::U64) => Some(
            "parallel_runtime_parallel_reduce_count_slice_filter_u64"@,
        ),
        (CombKind::Filter(IterMethod::Sum), AccTyTag::U64) => Some("parallel_runtime_parallel_reduce_sum_slice_filter_u64"@),
        (CombKind::Filter(IterMethod::Sum), AccTyTag::U32) => Some("parallel_runtime_parallel_reduce_sum_slice_filter_u32"@),
        (CombKind::Filter(IterMethod::Sum), AccTyTag::I64) => Some("parallel_runtime_parallel_reduce_sum_slice_filter_i64"@),
        (CombKind::Filter(IterMethod::Sum), AccTyTag::I32) => Some("parallel_runtime_parallel_reduce_sum_slice_filter_i32"@),
        (CombKind::Filter(IterMethod::Product), AccTyTag::U64) => Some(
            "parallel_runtime_parallel_reduce_mul_slice_filter_u64"@,
        ),
        (CombKind::Filter(IterMethod::Product), AccTyTag::I64) => Some(
            "parallel_runtime_parallel_reduce_mul_slice_filter_i64"@,
        ),
        (CombKind::ZipMul, AccTyTag::U64) => Some("parallel_runtime_parallel_reduce_sum_slice_zip_mul_u64"@),
        (CombKind::ZipMul, AccTyTag::U32) => Some("parallel_runtime_parallel_reduce_sum_slice_zip_mul_u32"@),
        (CombKind::ZipMul, AccTyTag::I64) => Some("parallel_runtime_parallel_reduce_sum_slice_zip_mul_i64"@),
        (CombKind::ZipMul, AccTyTag::I32) => Some("parallel_runtime_parallel_reduce_sum_slice_zip_mul_i32"@),
        (CombKind::ZipMul, AccTyTag::F64) => Some("parallel_runtime_parallel_reduce_sum_slice_zip_mul_f64"@),
        (CombKind::ZipMap, AccTyTag::U64) => Some("parallel_runtime_parallel_reduce_sum_slice_zip_map_u64"@),
        (CombKind::ZipMap, AccTyTag::U32) => Some("parallel_runtime_parallel_reduce_sum_slice_zip_map_u32"@),
        (CombKind::ZipMap, AccTyTag::I64) => Some("parallel_runtime_parallel_reduce_sum_slice_zip_map_i64"@),
        (CombKind::ZipMap, AccTyTag::I32) => Some("parallel_runtime_parallel_reduce_sum_slice_zip_map_i32"@),
        (CombKind::ZipMap, AccTyTag::F64) => Some("parallel_runtime_parallel_reduce_sum_slice_zip_map_f64"@),
        _ => None,
    }
}

/// A chain is rewritten when its helper exists in the runtime and, for a
/// float zip chain, the function opted in to reassociating float sums.
pub open spec fn comb_applies(p: CombView, float_opt_in: bool, available: Seq<String>) -> bool {
    match comb_helper(p.0, p.1) {
        None => false,
        Some(name) => helper_listed(available, name) && (p.1 == AccTyTag::F64 ==> float_opt_in),
    }
}

/// The chain adds a local for the function pointer.
pub open spec fn comb_adds_local(kind: CombKind) -> bool {
    !(kind is ZipMul)
}

// ── Finding the chains ─────────────────────────────────────────────────

pub(crate) fn bare_local_of(o: &Operand) -> (r: Option<usize>)
    ensures
        r == bare_local(*o),
{
    match bare_operand_of(o) {
        Some((l, _)) => Some(l),
        None => None,
    }
}

pub(crate) fn fn_arg_coercible_of(o: &Operand, info: CallFacts) -> (r: bool)
    ensures
        r == fn_arg_coercible(*o, info),
{
    match o {
        Operand::Constant(Const::FnDef { .. }) => true,
        Operand::Constant(_) => false,
        _ => info.coercible,
    }
}

fn reborrow_of_exec(s: &StatementKind, l: usize) -> (r: Option<usize>)
    ensures
        r == reborrow_of(*s, l),
{
    match s {
        StatementKind::Assign(place, Rvalue::Ref(_, src)) => {
            if place.local == l && place.projection.len() == 0 && src.projection.len() == 1 && matches!(
                src.projection[0],
                ProjectionElem::Deref
            ) {
                assert(src.projection@ =~= seq![ProjectionElem::Deref]);
                Some(src.local)
            } else {
                proof {
                    if src.projection@ == seq![ProjectionElem::Deref] {
                        assert(src.projection@.len() == 1 && src.projection@[0] == ProjectionElem::Deref);
                    }
                }
                None
            }
        },
        _ => None,
    }
}

fn first_reborrow_exec(stmts: &Vec<StatementKind>, l: usize) -> (r: Option<usize>)
    ensures
        r == first_reborrow(stmts@, l),
{
    let mut i: usize = 0;
    assert(stmts@.skip(0) =~= stmts@);
    while i < stmts.len()
        invariant
            i <= stmts@.len(),
            first_reborrow(stmts@.skip(i as int), l) == first_reborrow(stmts@, l),
        decreases stmts@.len() - i,
    {
        let ghost rest = stmts@.skip(i as int);
        assert(rest[0] == stmts@[i as int]);
        match reborrow_of_exec(&stmts[i], l) {
            Some(src) => {
                return Some(src);
            },
            None => {},
        }
        assert(rest.drop_first() =~= stmts@.skip(i + 1));
        i = i + 1;
    }
    assert(stmts@.skip(i as int).len() == 0);
    None
}

pub(crate) fn resolve_slice_of(body: &Body, bb: usize, o: &Operand) -> (r: Option<(usize, bool)>)
    requires
        bb < body.num_blocks(),
    ensures
        r == resolve_slice(*body, bb as int, *o),
{
    match bare_operand_of(o) {
        None => None,
        Some((l, mv)) => match first_reborrow_exec(&body.basic_blocks[bb].statements, l) {
            Some(src) => Some((src, false)),
            None => Some((l, mv)),
        },
    }
}

pub(crate) fn call_of_exec(body: &Body, bb: usize) -> (r: Option<(&String, &Vec<Operand>, &Place, usize)>)
    requires
        bb < body.num_blocks(),
    ensures
        match r {
            None => call_of(*body, bb as int) is None,
            Some((p, a, d, t)) => call_of(*body, bb as int) == Some((p@, a@, *d, t)),
        },
{
    match &body.basic_blocks[bb].terminator {
        Some(TerminatorKind::Call { func: Operand::Constant(Const::FnDef { path }), args, destination, target: Some(t), .. }) => Some(
            (path, args, destination, *t),
        ),
        _ => None,
    }
}

fn all_goto_pass(stmts: &Vec<StatementKind>) -> (r: bool)
    ensures
        r == all_pass(stmts@),
{
    let mut i: usize = 0;
    while i < stmts.len()
        invariant
            i <= stmts@.len(),
            forall|j: int| 0 <= j < i ==> #[trigger] goto_passes(stmts@[j]),
        decreases stmts@.len() - i,
    {
        let ok = match &stmts[i] {
            StatementKind::StorageLive(_) => true,
            StatementKind::StorageDead(_) => true,
            StatementKind::Nop => true,
            StatementKind::FakeRead => true,
            StatementKind::PlaceMention => true,
            StatementKind::Assign(_, Rvalue::Ref(BorrowKind::Shared, _)) => true,
            _ => false,
        };
        if !ok {
            assert(!goto_passes(stmts@[i as int]));
            return false;
        }
        i = i + 1;
    }
    true
}

pub(crate) fn walk_goto_exec(body: &Body, bb: usize, steps: usize) -> (r: usize)
    requires
        body.targets_valid(),
        bb < body.num_blocks(),
    ensures
        r == walk_goto(*body, bb, steps as nat),
        r < body.num_blocks(),
    decreases steps,
{
    if steps == 0 {
        return bb;
    }
    if !all_goto_pass(&body.basic_blocks[bb].statements) {
        return bb;
    }
    match &body.basic_blocks[bb].terminator {
        Some(TerminatorKind::Goto { target }) => {
            assert(crate::mir::terminator_targets_ok(body.basic_blocks@[bb as int].terminator->0, body.num_blocks()));
            walk_goto_exec(body, *target, steps - 1)
        },
        _ => bb,
    }
}

pub(crate) proof fn lemma_call_target_in(body: Body, bb: int)
    requires
        body.targets_valid(),
        0 <= bb < body.num_blocks(),
        call_of(body, bb) is Some,
    ensures
        (call_of(body, bb)->0).3 < body.num_blocks(),
{
    assert(crate::mir::terminator_targets_ok(body.basic_blocks@[bb].terminator->0, body.num_blocks()));
}

/// A chain to rewrite, with copies of the operands it needs.
#[derive(Debug)]
pub struct CombPlan {
    pub kind: CombKind,
    pub elem_tag: AccTyTag,
    pub bb: usize,
    pub after: usize,
    pub a: (usize, bool),
    pub b: Option<(usize, bool)>,
    pub func_block: Option<usize>,
    /// The predicate or combiner, as the chain passed it.
    pub func: Option<Operand>,
    pub dest: Place,
}

impl CombPlan {
    pub open spec fn view_tuple(&self) -> CombView {
        (self.kind, self.elem_tag, self.bb, self.after, self.a, self.b, self.func_block, (self.dest.local, self.dest.projection@))
    }
}

/// The function value handed as the second argument of the call ending
/// block `bb`.
pub open spec fn fn_arg(src: Body, bb: usize) -> Operand {
    (call_of(src, bb as int)->0).1[1]
}

/// The plan's copy of the predicate or combiner is the one in `src`.
pub open spec fn comb_func_ok(p: CombPlan, src: Body) -> bool {
    match p.func_block {
        Some(fb) => p.func matches Some(f) && same_operand(f, fn_arg(src, fb)),
        None => p.func is None,
    }
}

fn filter_plan_from(body: &Body, facts: &Vec<CallFacts>, b: usize) -> (r: Option<CombPlan>)
    requires
        body.targets_valid(),
        b < body.num_blocks(),
        facts@.len() == body.num_blocks(),
    ensures
        match r {
            None => filter_plan_at(*body, facts@, b as int) is None,
            Some(p) => filter_plan_at(*body, facts@, b as int) == Some(p.view_tuple()) && comb_func_ok(p, *body)
                && p.after < body.num_blocks(),
        },
{
    let (ip, iargs, idest, bf) = match call_of_exec(body, b) {
        Some(x) => x,
        None => {
            return None;
        },
    };
    proof {
        lemma_call_target_in(*body, b as int);
    }
    if !(idest.projection.len() == 0 && str_eq(last_path_segment(ip.as_str()), "iter") && contains_str(ip.as_str(), "slice")
        && iargs.len() == 1) {
        return None;
    }
    let (sl, mv) = match resolve_slice_of(body, b, &iargs[0]) {
        Some(x) => x,
        None => {
            return None;
        },
    };
    let tag = match slice_elem_tag_of(body, sl) {
        Some(t) => t,
        None => {
            return None;
        },
    };
    let (fp, fargs, fdest, bm) = match call_of_exec(body, bf) {
        Some(x) => x,
        None => {
            return None;
        },
    };
    proof {
        lemma_call_target_in(*body, bf as int);
    }
    if !(str_eq(last_path_segment(fp.as_str()), "filter") && contains_str(fp.as_str(), "Iterator") && fargs.len() == 2) {
        return None;
    }
    if bare_local_of(&fargs[0]) != Some(idest.local) || !fn_arg_coercible_of(&fargs[1], facts[bf]) {
        return None;
    }
    let (mp, margs, mdest, after) = match call_of_exec(body, bm) {
        Some(x) => x,
        None => {
            return None;
        },
    };
    proof {
        lemma_call_target_in(*body, bm as int);
    }
    let method = match iter_method_of(last_path_segment(mp.as_str())) {
        Some(m) => m,
        None => {
            return None;
        },
    };
    if !(contains_str(mp.as_str(), "Iterator") && margs.len() == 1) {
        return None;
    }
    if bare_local_of(&margs[0]) != Some(fdest.local) {
        return None;
    }
    let f = copy_operand(&fargs[1]);
    Some(
        CombPlan {
            kind: CombKind::Filter(method),
            elem_tag: tag,
            bb: b,
            after,
            a: (sl, mv),
            b: None,
            func_block: Some(bf),
            func: Some(f),
            dest: copy_place(mdest),
        },
    )
}

fn zip_plan_from(body: &Body, facts: &Vec<CallFacts>, b: usize) -> (r: Option<CombPlan>)
    requires
        body.targets_valid(),
        b < body.num_blocks(),
        facts@.len() == body.num_blocks(),
    ensures
        match r {
            None => zip_plan_at(*body, facts@, b as int) is None,
            Some(p) => zip_plan_at(*body, facts@, b as int) == Some(p.view_tuple()) && comb_func_ok(p, *body)
                && p.after < body.num_blocks(),
        },
{
    let (ap, aargs, adest, bib) = match call_of_exec(body, b) {
        Some(x) => x,
        None => {
            return None;
        },
    };
    proof {
        lemma_call_target_in(*body, b as int);
    }
    if !(adest.projection.len() == 0 && str_eq(last_path_segment(ap.as_str()), "iter") && contains_str(ap.as_str(), "slice")
        && aargs.len() == 1) {
        return None;
    }
    let (al, amv) = match resolve_slice_of(body, b, &aargs[0]) {
        Some(x) => x,
        None => {
            return None;
        },
    };
    let ta = match slice_elem_tag_of(body, al) {
        Some(t) => t,
        None => {
            return None;
        },
    };
    let wb = walk_goto_exec(body, bib, 6);
    let (bp, bargs, bdest, bz) = match call_of_exec(body, wb) {
        Some(x) => x,
        None => {
            return None;
        },
    };
    proof {
        lemma_call_target_in(*body, wb as int);
    }
    if !(bdest.projection.len() == 0 && str_eq(last_path_segment(bp.as_str()), "iter") && contains_str(bp.as_str(), "slice")
        && bargs.len() == 1) {
        return None;
    }
    let (bl, bmv) = match resolve_slice_of(body, bib, &bargs[0]) {
        Some(x) => x,
        None => {
            return None;
        },
    };
    match slice_elem_tag_of(body, bl) {
        Some(tb) => {
            if tb != ta {
                return None;
            }
        },
        None => {
            return None;
        },
    }
    let wz = walk_goto_exec(body, bz, 6);
    let (zp, zargs, zdest, bmap) = match call_of_exec(body, wz) {
        Some(x) => x,
        None => {
            return None;
        },
    };
    proof {
        lemma_call_target_in(*body, wz as int);
    }
    if !(str_eq(last_path_segment(zp.as_str()), "zip") && contains_str(zp.as_str(), "Iterator") && zargs.len() == 2) {
        return None;
    }
    if bare_local_of(&zargs[0]) != Some(adest.local) || bare_local_of(&zargs[1]) != Some(bdest.local) {
        return None;
    }
    let wm = walk_goto_exec(body, bmap, 6);
    let (mp, margs, mdest, bmeth) = match call_of_exec(body, wm) {
        Some(x) => x,
        None => {
            return None;
        },
    };
    proof {
        lemma_call_target_in(*body, wm as int);
    }
    if !(str_eq(last_path_segment(mp.as_str()), "map") && contains_str(mp.as_str(), "Iterator") && margs.len() == 2) {
        return None;
    }
    if bare_local_of(&margs[0]) != Some(zdest.local) || !fn_arg_coercible_of(&margs[1], facts[wm]) {
        return None;
    }
    let ws = walk_goto_exec(body, bmeth, 6);
    let (sp, sargs, sdest, after) = match call_of_exec(body, ws) {
        Some(x) => x,
        None => {
            return None;
        },
    };
    proof {
        lemma_call_target_in(*body, ws as int);
    }
    if !(str_eq(last_path_segment(sp.as_str()), "sum") && contains_str(sp.as_str(), "Iterator") && sargs.len() == 1) {
        return None;
    }
    if bare_local_of(&sargs[0]) != Some(mdest.local) {
        return None;
    }
    let kind = if facts[wm].simple_mul {
        CombKind::ZipMul
    } else {
        CombKind::ZipMap
    };
    let f = copy_operand(&margs[1]);
    Some(
        CombPlan {
            kind,
            elem_tag: ta,
            bb: b,
            after,
            a: (al, amv),
            b: Some((bl, bmv)),
            func_block: Some(wm),
            func: Some(f),
            dest: copy_place(sdest),
        },
    )
}

/// The chains of a body: the filter chains, then the zip chains, each in
/// block order.
pub open spec fn comb_plans(body: Body, facts: Seq<CallFacts>) -> Seq<CombView> {
    filter_plans(body, facts, body.num_blocks()) + zip_plans(body, facts, body.num_blocks())
}

/// Finds the chains of a body (see `filter_plan_at` and `zip_plan_at`);
/// `facts` holds what the compiler says of the function value handed to
/// each block's call.
pub fn find_combinator_plans(body: &Body, facts: &Vec<CallFacts>) -> (r: Vec<CombPlan>)
    requires
        body.targets_valid(),
        facts@.len() == body.num_blocks(),
    ensures
        r@.len() == comb_plans(*body, facts@).len(),
        forall|k: int|
            0 <= k < r@.len() ==> (#[trigger] r@[k]).view_tuple() == comb_plans(*body, facts@)[k] && comb_func_ok(
                r@[k],
                *body,
            ) && r@[k].after < body.num_blocks(),
{
    let mut plans: Vec<CombPlan> = Vec::new();
    let mut bb: usize = 0;
    while bb < body.basic_blocks.len()
        invariant
            bb <= body.num_blocks(),
            body.targets_valid(),
            facts@.len() == body.num_blocks(),
            plans@.len() == filter_plans(*body, facts@, bb as nat).len(),
            forall|k: int|
                0 <= k < plans@.len() ==> (#[trigger] plans@[k]).view_tuple() == filter_plans(*body, facts@, bb as nat)[k]
                    && comb_func_ok(plans@[k], *body) && plans@[k].after < body.num_blocks(),
        decreases body.num_blocks() - bb,
    {
        let ghost prev = plans@;
        match filter_plan_from(body, facts, bb) {
            Some(p) => {
                plans.push(p);
            },
            None => {},
        }
        proof {
            let before = filter_plans(*body, facts@, bb as nat);
            let next = filter_plans(*body, facts@, (bb + 1) as nat);
            assert forall|k: int| 0 <= k < plans@.len() implies (#[trigger] plans@[k]).view_tuple() == next[k] && comb_func_ok(
                plans@[k],
                *body,
            ) && plans@[k].after < body.num_blocks() by {
                if k < prev.len() {
                    assert(next[k] == before[k]);
                    assert(plans@[k] == prev[k]);
                }
            }
        }
        bb = bb + 1;
    }
    let ghost nf = plans@.len();
    let ghost fs = filter_plans(*body, facts@, body.num_blocks());
    let mut bb: usize = 0;
    while bb < body.basic_blocks.len()
        invariant
            bb <= body.num_blocks(),
            body.targets_valid(),
            facts@.len() == body.num_blocks(),
            fs == filter_plans(*body, facts@, body.num_blocks()),
            nf == fs.len(),
            plans@.len() == nf + zip_plans(*body, facts@, bb as nat).len(),
            forall|k: int|
                0 <= k < plans@.len() ==> (#[trigger] plans@[k]).view_tuple() == (fs + zip_plans(*body, facts@, bb as nat))[k]
                    && comb_func_ok(plans@[k], *body) && plans@[k].after < body.num_blocks(),
        decreases body.num_blocks() - bb,
    {
        let ghost prev = plans@;
        match zip_plan_from(body, facts, bb) {
            Some(p) => {
                plans.push(p);
            },
            None => {},
        }
        proof {
            let before = fs + zip_plans(*body, facts@, bb as nat);
            let next = fs + zip_plans(*body, facts@, (bb + 1) as nat);
            assert forall|k: int| 0 <= k < plans@.len() implies (#[trigger] plans@[k]).view_tuple() == next[k] && comb_func_ok(
                plans@[k],
                *body,
            ) && plans@[k].after < body.num_blocks() by {
                if k < prev.len() {
                    assert(next[k] == before[k]);
                    assert(plans@[k] == prev[k]);
                }
            }
        }
        bb = bb + 1;
    }
    plans
}

// ── Rewriting the chains ───────────────────────────────────────────────

/// `s` stores the predicate or combiner handed to the call ending block
/// `fb` of `src`, cast to a function pointer, in the bare local `local`.
pub open spec fn is_fn_value_cast(s: StatementKind, local: int, src: Body, fb: usize) -> bool {
    &&& s matches StatementKind::Assign(place, Rvalue::Cast(o))
    &&& s->Assign_0.local == local
    &&& s->Assign_0.projection@.len() == 0
    &&& same_operand(s->Assign_1->Cast_0, fn_arg(src, fb))
}

/// The helper's arguments for chain `p`, the function pointer in the bare
/// local `local`: for a filter, the slice and the pointer; for a zip that
/// multiplies, both slices; for another zip, both slices and the pointer.
pub open spec fn comb_args_ok(args: Seq<Operand>, p: CombView, local: int) -> bool {
    match p.0 {
        CombKind::Filter(_) => args.len() == 2 && operand_is(args[0], p.4.0, p.4.1) && operand_is(args[1], local as usize, true),
        CombKind::ZipMul => {
            &&& args.len() == 2
            &&& operand_is(args[0], p.4.0, p.4.1)
            &&& p.5 is Some
            &&& operand_is(args[1], (p.5->0).0, (p.5->0).1)
        },
        CombKind::ZipMap => {
            &&& args.len() == 3
            &&& operand_is(args[0], p.4.0, p.4.1)
            &&& p.5 is Some
            &&& operand_is(args[1], (p.5->0).0, (p.5->0).1)
            &&& operand_is(args[2], local as usize, true)
        },
    }
}

/// `b1` is `b0` with chain `p` rewritten, its function value read off
/// `src`: for a filter or a non-multiplying zip a function-pointer local is
/// added and the cast appended to the chain's first block; that block's
/// call becomes the helper call into the chain's destination, returning to
/// the block after the chain and never unwinding; every other block is
/// unchanged.
pub open spec fn comb_rewritten(b0: Body, b1: Body, src: Body, p: CombView, helper: Seq<char>) -> bool {
    let local = b0.local_tys@.len();
    let old = b0.basic_blocks@[p.2 as int];
    let new = b1.basic_blocks@[p.2 as int];
    &&& b1.arg_count == b0.arg_count
    &&& b1.local_tys@ == if comb_adds_local(p.0) {
        b0.local_tys@.push(LocalTy::Other)
    } else {
        b0.local_tys@
    }
    &&& b1.basic_blocks@.len() == b0.basic_blocks@.len()
    &&& forall|i: int| 0 <= i < b0.basic_blocks@.len() && i != p.2 ==> #[trigger] b1.basic_blocks@[i] == b0.basic_blocks@[i]
    &&& if comb_adds_local(p.0) {
        &&& new.statements@.len() == old.statements@.len() + 1
        &&& new.statements@.take(old.statements@.len() as int) == old.statements@
        &&& p.6 is Some
        &&& is_fn_value_cast(new.statements@.last(), local as int, src, p.6->0)
    } else {
        new.statements == old.statements
    }
    &&& new.terminator matches Some(TerminatorKind::Call { func, args, destination, target, unwind })
    &&& new.terminator->0->Call_func matches Operand::Constant(Const::FnDef { path })
    &&& new.terminator->0->Call_func->Constant_0->FnDef_path@ == helper
    &&& comb_args_ok(new.terminator->0->Call_args@, p, local as int)
    &&& new.terminator->0->Call_destination.local == p.7.0
    &&& new.terminator->0->Call_destination.projection@ == p.7.1
    &&& new.terminator->0->Call_target == Some(p.3)
    &&& new.terminator->0->Call_unwind == UnwindAction::Unreachable
}

/// One step of the rewrite: a chain that applies is rewritten, any other
/// leaves the body as it was.
pub open spec fn comb_step(b0: Body, b1: Body, src: Body, p: CombView, float_opt_in: bool, available: Seq<String>) -> bool {
    if comb_applies(p, float_opt_in, available) {
        comb_rewritten(b0, b1, src, p, comb_helper(p.0, p.1)->0)
    } else {
        b1 == b0
    }
}

/// `b1` is `b0` with the chains `ps` rewritten one after the other, as far
/// as they apply.
pub open spec fn combs_applied(
    b0: Body,
    b1: Body,
    src: Body,
    ps: Seq<CombView>,
    float_opt_in: bool,
    available: Seq<String>,
) -> bool {
    exists|bodies: Seq<Body>|
        {
            &&& bodies.len() == ps.len() + 1
            &&& bodies[0] == b0
            &&& bodies.last() == b1
            &&& forall|k: int|
                0 <= k < ps.len() ==> #[trigger] comb_step(bodies[k], bodies[k + 1], src, ps[k], float_opt_in, available)
        }
}

/// How many of the chains apply.
pub open spec fn comb_count(ps: Seq<CombView>, float_opt_in: bool, available: Seq<String>) -> nat
    decreases ps.len(),
{
    if ps.len() == 0 {
        0
    } else {
        comb_count(ps.drop_last(), float_opt_in, available) + if comb_applies(ps.last(), float_opt_in, available) {
            1nat
        } else {
            0nat
        }
    }
}

/// The runtime helper a chain calls, if any.
pub fn comb_helper_of(kind: CombKind, tag: AccTyTag) -> (r: Option<&'static str>)
    ensures
        r is Some <==> comb_helper(kind, tag) is Some,
        r matches Some(n) ==> n@ == comb_helper(kind, tag)->0,
{
    match (kind, tag) {
        (CombKind::Filter(IterMethod::Count), AccTyTag::U64) => {
            proof {
                reveal_strlit("parallel_runtime_parallel_reduce_count_slice_filter_u64");
            }
            Some("parallel_runtime_parallel_reduce_count_slice_filter_u64")
        },
        (CombKind::Filter(IterMethod::Sum), AccTyTag::U64) => {
            proof {
                reveal_strlit("parallel_runtime_parallel_reduce_sum_slice_filter_u64");
            }
            Some("parallel_runtime_parallel_reduce_sum_slice_filter_u64")
        },
        (CombKind::Filter(IterMethod::Sum), AccTyTag::U32) => {
            proof {
                reveal_strlit("parallel_runtime_parallel_reduce_sum_slice_filter_u32");
            }
            Some("parallel_runtime_parallel_reduce_sum_slice_filter_u32")
        },
        (CombKind::Filter(IterMethod::Sum), AccTyTag::I64) => {
            proof {
                reveal_strlit("parallel_runtime_parallel_reduce_sum_slice_filter_i64");
            }
            Some("parallel_runtime_parallel_reduce_sum_slice_filter_i64")
        },
        (CombKind::Filter(IterMethod::Sum), AccTyTag::I32) => {
            proof {
                reveal_strlit("parallel_runtime_parallel_reduce_sum_slice_filter_i32");
            }
            Some("parallel_runtime_parallel_reduce_sum_slice_filter_i32")
        },
        (CombKind::Filter(IterMethod::Product), AccTyTag::U64) => {
            proof {
                reveal_strlit("parallel_runtime_parallel_reduce_mul_slice_filter_u64");
            }
            Some("parallel_runtime_parallel_reduce_mul_slice_filter_u64")
        },
        (CombKind::Filter(IterMethod::Product), AccTyTag::I64) => {
            proof {
                reveal_strlit("parallel_runtime_parallel_reduce_mul_slice_filter_i64");
            }
            Some("parallel_runtime_parallel_reduce_mul_slice_filter_i64")
        },
        (CombKind::ZipMul, AccTyTag::U64) => {
            proof {
                reveal_strlit("parallel_runtime_parallel_reduce_sum_slice_zip_mul_u64");
            }
            Some("parallel_runtime_parallel_reduce_sum_slice_zip_mul_u64")
        },
        (CombKind::ZipMul, AccTyTag::U32) => {
            proof {
                reveal_strlit("parallel_runtime_parallel_reduce_sum_slice_zip_mul_u32");
            }
            Some("parallel_runtime_parallel_reduce_sum_slice_zip_mul_u32")
        },
        (CombKind::ZipMul, AccTyTag::I64) => {
            proof {
                reveal_strlit("parallel_runtime_parallel_reduce_sum_slice_zip_mul_i64");
            }
            Some("parallel_runtime_parallel_reduce_sum_slice_zip_mul_i64")
        },
        (CombKind::ZipMul, AccTyTag::I32) => {
            proof {
                reveal_strlit("parallel_runtime_parallel_reduce_sum_slice_zip_mul_i32");
            }
            Some("parallel_runtime_parallel_reduce_sum_slice_zip_mul_i32")
        },
        (CombKind::ZipMul, AccTyTag::F64) => {
            proof {
                reveal_strlit("parallel_runtime_parallel_reduce_sum_slice_zip_mul_f64");
            }
            Some("parallel_runtime_parallel_reduce_sum_slice_zip_mul_f64")
        },
        (CombKind::ZipMap, AccTyTag::U64) => {
            proof {
                reveal_strlit("parallel_runtime_parallel_reduce_sum_slice_zip_map_u64");
            }
            Some("parallel_runtime_parallel_reduce_sum_slice_zip_map_u64")
        },
        (CombKind::ZipMap, AccTyTag::U32) => {
            proof {
                reveal_strlit("parallel_runtime_parallel_reduce_sum_slice_zip_map_u32");
            }
            Some("parallel_runtime_parallel_reduce_sum_slice_zip_map_u32")
        },
        (CombKind::ZipMap, AccTyTag::I64) => {
            proof {
                reveal_strlit("parallel_runtime_parallel_reduce_sum_slice_zip_map_i64");
            }
            Some("parallel_runtime_parallel_reduce_sum_slice_zip_map_i64")
        },
        (CombKind::ZipMap, AccTyTag::I32) => {
            proof {
                reveal_strlit("parallel_runtime_parallel_reduce_sum_slice_zip_map_i32");
            }
            Some("parallel_runtime_parallel_reduce_sum_slice_zip_map_i32")
        },
        (CombKind::ZipMap, AccTyTag::F64) => {
            proof {
                reveal_strlit("parallel_runtime_parallel_reduce_sum_slice_zip_map_f64");
            }
            Some("parallel_runtime_parallel_reduce_sum_slice_zip_map_f64")
        },
        _ => None,
    }
}

pub(crate) fn slice_operand(l: usize, mv: bool) -> (r: Operand)
    ensures
        operand_is(r, l, mv),
{
    if mv {
        Operand::Move(Place { local: l, projection: Vec::new() })
    } else {
        Operand::Copy(Place { local: l, projection: Vec::new() })
    }
}

fn rewrite_comb_block(body: &mut Body, p: CombPlan, helper: &str, Ghost(src): Ghost<Body>)
    requires
        p.bb < old(body).num_blocks(),
        p.func_block is Some,
        !(p.kind is Filter) ==> p.b is Some,
        comb_func_ok(p, src),
    ensures
        comb_rewritten(*old(body), *final(body), src, p.view_tuple(), helper@),
{
    let ghost pv = p.view_tuple();
    let local = body.local_tys.len();
    let mut args: Vec<Operand> = Vec::new();
    args.push(slice_operand(p.a.0, p.a.1));
    match p.kind {
        CombKind::Filter(_) => {
            body.local_tys.push(LocalTy::Other);
            args.push(Operand::Move(Place { local, projection: Vec::new() }));
        },
        CombKind::ZipMul => {
            match p.b {
                Some((bl, bmv)) => args.push(slice_operand(bl, bmv)),
                None => {},
            }
        },
        CombKind::ZipMap => {
            body.local_tys.push(LocalTy::Other);
            match p.b {
                Some((bl, bmv)) => args.push(slice_operand(bl, bmv)),
                None => {},
            }
            args.push(Operand::Move(Place { local, projection: Vec::new() }));
        },
    }
    let ghost before = body.basic_blocks@[p.bb as int].statements@;
    if !matches!(p.kind, CombKind::ZipMul) {
        match p.func {
            Some(f) => {
                body.basic_blocks[p.bb].statements.push(
                    StatementKind::Assign(Place { local, projection: Vec::new() }, Rvalue::Cast(f)),
                );
            },
            None => {},
        }
    }
    body.basic_blocks[p.bb].terminator = Some(
        TerminatorKind::Call {
            func: Operand::Constant(Const::FnDef { path: helper.to_string() }),
            args,
            destination: p.dest,
            target: Some(p.after),
            unwind: UnwindAction::Unreachable,
        },
    );
    proof {
        let new = body.basic_blocks@[p.bb as int];
        if comb_adds_local(pv.0) {
            assert(new.statements@.take(before.len() as int) =~= before);
        }
    }
}

proof fn lemma_filter_plans_shape(body: Body, facts: Seq<CallFacts>, m: nat)
    requires
        m <= body.num_blocks(),
    ensures
        forall|k: int|
            0 <= k < filter_plans(body, facts, m).len() ==> (#[trigger] filter_plans(body, facts, m)[k]).2 < m
                && filter_plans(body, facts, m)[k].6 is Some && filter_plans(body, facts, m)[k].0 is Filter,
    decreases m,
{
    if m > 0 {
        assert(body.basic_blocks@.len() == body.basic_blocks.len());
        lemma_filter_plans_shape(body, facts, (m - 1) as nat);
        let prev = filter_plans(body, facts, (m - 1) as nat);
        let cur = filter_plans(body, facts, m);
        match filter_plan_at(body, facts, m - 1) {
            Some(p) => {
                assert(cur =~= prev.push(p));
                assert forall|k: int| 0 <= k < cur.len() implies (#[trigger] cur[k]).2 < m && cur[k].6 is Some
                    && cur[k].0 is Filter by {
                    if k < prev.len() {
                        assert(cur[k] == prev[k]);
                    }
                }
            },
            None => {
                assert(cur =~= prev);
            },
        }
    }
}

proof fn lemma_zip_plans_shape(body: Body, facts: Seq<CallFacts>, m: nat)
    requires
        m <= body.num_blocks(),
    ensures
        forall|k: int|
            0 <= k < zip_plans(body, facts, m).len() ==> (#[trigger] zip_plans(body, facts, m)[k]).2 < m
                && zip_plans(body, facts, m)[k].6 is Some && zip_plans(body, facts, m)[k].5 is Some,
    decreases m,
{
    if m > 0 {
        assert(body.basic_blocks@.len() == body.basic_blocks.len());
        lemma_zip_plans_shape(body, facts, (m - 1) as nat);
        let prev = zip_plans(body, facts, (m - 1) as nat);
        let cur = zip_plans(body, facts, m);
        match zip_plan_at(body, facts, m - 1) {
            Some(p) => {
                assert(cur =~= prev.push(p));
                assert forall|k: int| 0 <= k < cur.len() implies (#[trigger] cur[k]).2 < m && cur[k].6 is Some
                    && cur[k].5 is Some by {
                    if k < prev.len() {
                        assert(cur[k] == prev[k]);
                    }
                }
            },
            None => {
                assert(cur =~= prev);
            },
        }
    }
}

/// What the rewrite needs to know of the compilation: whether idiom
/// transforms are on, the crate's and the function's names, whether the
/// function opted in to reassociating float sums, and which runtime
/// helpers exist.
pub struct CombinatorGates {
    pub enabled: bool,
    pub crate_name: String,
    pub fn_name: String,
    pub float_opt_in: bool,
    pub available_helpers: Vec<String>,
}

/// Bodies left alone: transforms off, a sysroot crate, no call, the
/// runtime's own functions, or a runtime without the u64 filtered sum
/// helper.
pub open spec fn comb_gate_refuses(body: Body, g: CombinatorGates) -> bool {
    ||| !g.enabled
    ||| sysroot_crate(g.crate_name@)
    ||| !has_call_terminator(body)
    ||| contains_text(g.fn_name@, "parallel_runtime"@)
    ||| contains_text(g.fn_name@, "parallel_reduce_"@)
    ||| !helper_listed(g.available_helpers@, "parallel_runtime_parallel_reduce_sum_slice_filter_u64"@)
}

fn comb_applies_exec(p: &CombPlan, float_opt_in: bool, available: &Vec<String>) -> (r: Option<&'static str>)
    ensures
        r is Some <==> comb_applies(p.view_tuple(), float_opt_in, available@),
        r matches Some(n) ==> n@ == comb_helper(p.kind, p.elem_tag)->0,
{
    match comb_helper_of(p.kind, p.elem_tag) {
        None => None,
        Some(name) => {
            if helper_available(available, name) && (!matches!(p.elem_tag, AccTyTag::F64) || float_opt_in) {
                Some(name)
            } else {
                None
            }
        },
    }
}

/// Rewrites the iterator combinator chains of a body (see `comb_plans`
/// for which chains are found and `comb_applies` for which are rewritten)
/// and returns how many it rewrote; `facts` holds what the compiler says of
/// the function value handed to each block's call.
pub fn try_transform_iterator_combinators(body: &mut Body, gates: &CombinatorGates, facts: &Vec<CallFacts>) -> (n: usize)
    requires
        old(body).targets_valid(),
        facts@.len() == old(body).num_blocks(),
    ensures
        comb_gate_refuses(*old(body), *gates) ==> n == 0 && *final(body) == *old(body),
        !comb_gate_refuses(*old(body), *gates) ==> {
            let ps = comb_plans(*old(body), facts@);
            &&& n == comb_count(ps, gates.float_opt_in, gates.available_helpers@)
            &&& combs_applied(*old(body), *final(body), *old(body), ps, gates.float_opt_in, gates.available_helpers@)
        },
        final(body).targets_valid(),
        old(body).all_terminated() ==> final(body).all_terminated(),
{
    if !gates.enabled || is_in_sysroot_crate(gates.crate_name.as_str()) || crate::gates::parallel_pass_quick_skip(
        body,
        0,
        true,
        false,
    ) || contains_str(gates.fn_name.as_str(), "parallel_runtime") || contains_str(gates.fn_name.as_str(), "parallel_reduce_")
        || !helper_available(&gates.available_helpers, "parallel_runtime_parallel_reduce_sum_slice_filter_u64") {
        return 0;
    }
    let plans = find_combinator_plans(body, facts);
    let ghost src = *body;
    let ghost ps = comb_plans(src, facts@);
    let mut plans = plans;
    let ghost all = plans@;
    assert(plans@.len() == plans.len());
    let ghost mut bodies: Seq<Body> = seq![src];
    let ghost mut k: int = 0;
    let mut count: usize = 0;
    while plans.len() > 0
        invariant
            0 <= k <= ps.len(),
            all.len() == ps.len(),
            plans@ == all.skip(k),
            forall|j: int|
                0 <= j < all.len() ==> (#[trigger] all[j]).view_tuple() == ps[j] && comb_func_ok(all[j], src)
                    && all[j].after < src.num_blocks(),
            ps == comb_plans(src, facts@),
            bodies.len() == k + 1,
            bodies[0] == src,
            bodies.last() == *body,
            forall|j: int|
                0 <= j < k ==> #[trigger] comb_step(
                    bodies[j],
                    bodies[j + 1],
                    src,
                    ps[j],
                    gates.float_opt_in,
                    gates.available_helpers@,
                ),
            count == comb_count(ps.take(k), gates.float_opt_in, gates.available_helpers@),
            count <= k,
            all.len() <= usize::MAX,
            body.num_blocks() == src.num_blocks(),
            body.targets_valid(),
            src.all_terminated() ==> body.all_terminated(),
        decreases plans@.len(),
    {
        let p = plans.remove(0);
        let ghost mid = *body;
        assert(p == all[k]);
        assert(all[k].view_tuple() == ps[k] && comb_func_ok(all[k], src) && all[k].after < src.num_blocks());
        let ghost pv = p.view_tuple();
        assert(p.bb < src.num_blocks() && p.func_block is Some && (!(p.kind is Filter) ==> p.b is Some)) by {
            let fp = filter_plans(src, facts@, src.num_blocks());
            if k < fp.len() {
                assert(ps[k] == fp[k]);
                lemma_filter_plans_shape(src, facts@, src.num_blocks());
            } else {
                let zp = zip_plans(src, facts@, src.num_blocks());
                assert(ps[k] == zp[k - fp.len()]);
                lemma_zip_plans_shape(src, facts@, src.num_blocks());
            }
        }
        match comb_applies_exec(&p, gates.float_opt_in, &gates.available_helpers) {
            Some(name) => {
                rewrite_comb_block(body, p, name, Ghost(src));
                count = count + 1;
                proof {
                    let nb = *body;
                    assert forall|i: int| 0 <= i < nb.basic_blocks@.len() implies (#[trigger] nb.basic_blocks@[i]).terminator matches Some(
                        t,
                    ) ==> crate::mir::terminator_targets_ok(t, nb.num_blocks()) by {
                        if i != pv.2 {
                            assert(nb.basic_blocks@[i] == mid.basic_blocks@[i]);
                        }
                    }
                    if src.all_terminated() {
                        assert forall|i: int| 0 <= i < nb.basic_blocks@.len() implies (#[trigger] nb.basic_blocks@[i]).terminator is Some by {
                            if i != pv.2 {
                                assert(nb.basic_blocks@[i] == mid.basic_blocks@[i]);
                            }
                        }
                    }
                }
            },
            None => {},
        }
        proof {
            assert(ps.take(k + 1).drop_last() =~= ps.take(k));
            let nb = bodies.push(*body);
            assert forall|j: int| 0 <= j < k + 1 implies #[trigger] comb_step(
                nb[j],
                nb[j + 1],
                src,
                ps[j],
                gates.float_opt_in,
                gates.available_helpers@,
            ) by {
                if j < k {
                    assert(nb[j] == bodies[j] && nb[j + 1] == bodies[j + 1]);
                } else {
                    assert(nb[j] == mid && nb[j + 1] == *body);
                }
            }
            bodies = nb;
            assert(plans@ =~= all.skip(k + 1));
            k = k + 1;
        }
    }
    proof {
        assert(ps.take(k) =~= ps);
    }
    count
}

/// The combinator helper a chain calls is named by what the chain computes
/// and by its element type: the reduce prefix, the chain's shape, then the
/// element type's name. A filtered count exists for `u64` only, a filtered
/// product for `u64` and `i64`, a filtered sum for the four narrow integer
/// types, and a zipped sum for those and `f64`.
pub proof fn lemma_comb_helper_is_named_by_shape_and_element_type(kind: CombKind, tag: AccTyTag)
    ensures
        comb_helper(kind, tag) is Some <==> match kind {
            CombKind::Filter(IterMethod::Count) => tag == AccTyTag::U64,
            CombKind::Filter(IterMethod::Sum) => is_narrow_int(tag),
            CombKind::Filter(IterMethod::Product) => tag == AccTyTag::U64 || tag == AccTyTag::I64,
            _ => is_narrow_int(tag) || tag == AccTyTag::F64,
        },
        comb_helper(kind, tag) matches Some(n) ==> n == "parallel_runtime_parallel_reduce_"@ + match kind {
            CombKind::Filter(IterMethod::Count) => "count_slice_filter"@,
            CombKind::Filter(IterMethod::Sum) => "sum_slice_filter"@,
            CombKind::Filter(IterMethod::Product) => "mul_slice_filter"@,
            CombKind::ZipMul => "sum_slice_zip_mul"@,
            CombKind::ZipMap => "sum_slice_zip_map"@,
        } + "_"@ + tag_word(tag),
{
        reveal_strlit("_");
        reveal_strlit("count_slice_filter");
        reveal_strlit("f64");
        reveal_strlit("i32");
        reveal_strlit("i64");
        reveal_strlit("isize");
        reveal_strlit("mul_slice_filter");
        reveal_strlit("parallel_runtime_parallel_reduce_");
        reveal_strlit("parallel_runtime_parallel_reduce_count_slice_filter_u64");
        reveal_strlit("parallel_runtime_parallel_reduce_mul_slice_filter_i64");
        reveal_strlit("parallel_runtime_parallel_reduce_mul_slice_filter_u64");
        reveal_strlit("parallel_runtime_parallel_reduce_sum_slice_filter_i32");
        reveal_strlit("parallel_runtime_parallel_reduce_sum_slice_filter_i64");
        reveal_strlit("parallel_runtime_parallel_reduce_sum_slice_filter_u32");
        reveal_strlit("parallel_runtime_parallel_reduce_sum_slice_filter_u64");
        reveal_strlit("parallel_runtime_parallel_reduce_sum_slice_zip_map_f64");
        reveal_strlit("parallel_runtime_parallel_reduce_sum_slice_zip_map_i32");
        reveal_strlit("parallel_runtime_parallel_reduce_sum_slice_zip_map_i64");
        reveal_strlit("parallel_runtime_parallel_reduce_sum_slice_zip_map_u32");
        reveal_strlit("parallel_runtime_parallel_reduce_sum_slice_zip_map_u64");
        reveal_strlit("parallel_runtime_parallel_reduce_sum_slice_zip_mul_f64");
        reveal_strlit("parallel_runtime_parallel_reduce_sum_slice_zip_mul_i32");
        reveal_strlit("parallel_runtime_parallel_reduce_sum_slice_zip_mul_i64");
        reveal_strlit("parallel_runtime_parallel_reduce_sum_slice_zip_mul_u32");
        reveal_strlit("parallel_runtime_parallel_reduce_sum_slice_zip_mul_u64");
        reveal_strlit("sum_slice_filter");
        reveal_strlit("sum_slice_zip_map");
        reveal_strlit("sum_slice_zip_mul");
        reveal_strlit("u32");
        reveal_strlit("u64");
        reveal_strlit("usize");
    match (kind, tag) {
        (CombKind::Filter(IterMethod::Count), AccTyTag::U64) => {
            assert("parallel_runtime_parallel_reduce_count_slice_filter_u64"@ =~= "parallel_runtime_parallel_reduce_"@ + "count_slice_filter"@ + "_"@ + "u64"@);
        },
        (CombKind::Filter(IterMethod::Sum), AccTyTag::U64) => {
            assert("parallel_runtime_parallel_reduce_sum_slice_filter_u64"@ =~= "parallel_runtime_parallel_reduce_"@ + "sum_slice_filter"@ + "_"@ + "u64"@);
        },
        (CombKind::Filter(IterMethod::Sum), AccTyTag::U32) => {
            assert("parallel_runtime_parallel_reduce_sum_slice_filter_u32"@ =~= "parallel_runtime_parallel_reduce_"@ + "sum_slice_filter"@ + "_"@ + "u32"@);
        },
        (CombKind::Filter(IterMethod::Sum), AccTyTag::I64) => {
            assert("parallel_runtime_parallel_reduce_sum_slice_filter_i64"@ =~= "parallel_runtime_parallel_reduce_"@ + "sum_slice_filter"@ + "_"@ + "i64"@);
        },
        (CombKind::Filter(IterMethod::Sum), AccTyTag::I32) => {
            assert("parallel_runtime_parallel_reduce_sum_slice_filter_i32"@ =~= "parallel_runtime_parallel_reduce_"@ + "sum_slice_filter"@ + "_"@ + "i32"@);
        },
        (CombKind::Filter(IterMethod::Product), AccTyTag::U64) => {
            assert("parallel_runtime_parallel_reduce_mul_slice_filter_u64"@ =~= "parallel_runtime_parallel_reduce_"@ + "mul_slice_filter"@ + "_"@ + "u64"@);
        },
        (CombKind::Filter(IterMethod::Product), AccTyTag::I64) => {
            assert("parallel_runtime_parallel_reduce_mul_slice_filter_i64"@ =~= "parallel_runtime_parallel_reduce_"@ + "mul_slice_filter"@ + "_"@ + "i64"@);
        },
        (CombKind::ZipMul, AccTyTag::U64) => {
            assert("parallel_runtime_parallel_reduce_sum_slice_zip_mul_u64"@ =~= "parallel_runtime_parallel_reduce_"@ + "sum_slice_zip_mul"@ + "_"@ + "u64"@);
        },
        (CombKind::ZipMul, AccTyTag::U32) => {
            assert("parallel_runtime_parallel_reduce_sum_slice_zip_mul_u32"@ =~= "parallel_runtime_parallel_reduce_"@ + "sum_slice_zip_mul"@ + "_"@ + "u32"@);
        },
        (CombKind::ZipMul, AccTyTag::I64) => {
            assert("parallel_runtime_parallel_reduce_sum_slice_zip_mul_i64"@ =~= "parallel_runtime_parallel_reduce_"@ + "sum_slice_zip_mul"@ + "_"@ + "i64"@);
        },
        (CombKind::ZipMul, AccTyTag::I32) => {
            assert("parallel_runtime_parallel_reduce_sum_slice_zip_mul_i32"@ =~= "parallel_runtime_parallel_reduce_"@ + "sum_slice_zip_mul"@ + "_"@ + "i32"@);
        },
        (CombKind::ZipMul, AccTyTag::F64) => {
            assert("parallel_runtime_parallel_reduce_sum_slice_zip_mul_f64"@ =~= "parallel_runtime_parallel_reduce_"@ + "sum_slice_zip_mul"@ + "_"@ + "f64"@);
        },
        (CombKind::ZipMap, AccTyTag::U64) => {
            assert("parallel_runtime_parallel_reduce_sum_slice_zip_map_u64"@ =~= "parallel_runtime_parallel_reduce_"@ + "sum_slice_zip_map"@ + "_"@ + "u64"@);
        },
        (CombKind::ZipMap, AccTyTag::U32) => {
            assert("parallel_runtime_parallel_reduce_sum_slice_zip_map_u32"@ =~= "parallel_runtime_parallel_reduce_"@ + "sum_slice_zip_map"@ + "_"@ + "u32"@);
        },
        (CombKind::ZipMap, AccTyTag::I64) => {
            assert("parallel_runtime_parallel_reduce_sum_slice_zip_map_i64"@ =~= "parallel_runtime_parallel_reduce_"@ + "sum_slice_zip_map"@ + "_"@ + "i64"@);
        },
        (CombKind::ZipMap, AccTyTag::I32) => {
            assert("parallel_runtime_parallel_reduce_sum_slice_zip_map_i32"@ =~= "parallel_runtime_parallel_reduce_"@ + "sum_slice_zip_map"@ + "_"@ + "i32"@);
        },
        (CombKind::ZipMap, AccTyTag::F64) => {
            assert("parallel_runtime_parallel_reduce_sum_slice_zip_map_f64"@ =~= "parallel_runtime_parallel_reduce_"@ + "sum_slice_zip_map"@ + "_"@ + "f64"@);
        },
        _ => {},
    }
}

} // verus!
