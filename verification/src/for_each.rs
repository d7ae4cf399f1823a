//! `s.iter().for_each(f)` and `s.iter_mut().for_each(f)` over slices of
//! integers become one call of the runtime's parallel for-each helper,
//! handed `f` as a function pointer, or, for a read-only walk with a closure
//! that captures, as a `&dyn Fn`.
use vstd::prelude::*;
use crate::mir::{
    Body, StatementKind, TerminatorKind, Operand, Const, Place, Rvalue, BorrowKind, UnwindAction, LocalTy, local_ty,
    local_ty_of,
};
use crate::detect::stmts_of;
use crate::idioms::{AccTyTag, tag_word, is_narrow_int};
use crate::text::{last_segment, last_path_segment, str_eq, contains_text, contains_str};
use crate::gates::{sysroot_crate, is_in_sysroot_crate, has_call_terminator, quick_skip, parallel_pass_quick_skip};
use crate::iter_methods::{acc_tag, operand_is, helper_listed, copy_place, copy_operand, same_operand, helper_available};
use crate::combinators::{
    CallFacts, fn_arg_coercible, bare_local, resolve_slice, call_of, fn_arg, bare_local_of, fn_arg_coercible_of,
    resolve_slice_of, call_of_exec, lemma_call_target_in, slice_operand,
};
use crate::fork::{same_stmt, same_stmts, copy_stmt};

verus! {

/// The operand is a closure that captures and is called through a shared
/// reference (a constant never is).
pub open spec fn shared_closure(o: Operand, facts: CallFacts) -> bool {
    match o {
        Operand::Constant(_) => false,
        _ => facts.shared_closure_with_captures,
    }
}

/// The element type of a slice local walked by `iter` (or, when `is_mut`,
/// by `iter_mut`, which needs a unique reference).
pub open spec fn walked_elem(body: Body, l: usize, is_mut: bool) -> Option<AccTyTag> {
    match local_ty(body, l) {
        LocalTy::RefSlice { elem, mutable } => if is_mut && !mutable {
            None
        } else {
            acc_tag(elem)
        },
        _ => None,
    }
}

/// A for-each chain: (block whose call the helper call replaces, block
/// after the chain, slice (local, moved), element type, whether it walks
/// mutably, whether the body goes as a `&dyn Fn`, block of the `for_each`
/// call (whose statements move ahead and whose second argument is the
/// body), destination of the `for_each` call (local, projection)).
pub type ForEachView = (usize, usize, (usize, bool), AccTyTag, bool, bool, usize, (usize, Seq<crate::mir::ProjectionElem>));

/// The `iter().for_each(f)` or `iter_mut().for_each(f)` chain whose `iter`
/// call ends block `b`.
pub open spec fn for_each_plan_at(body: Body, facts: Seq<CallFacts>, b: int) -> Option<ForEachView> {
    match call_of(body, b) {
        None => None,
        Some((ip, iargs, idest, bm)) => {
            let is_mut = last_segment(ip) == "iter_mut"@;
            if !(idest.projection@.len() == 0 && contains_text(ip, "slice"@) && (last_segment(ip) == "iter"@ || is_mut)
                && iargs.len() == 1) {
                None
            } else {
                match resolve_slice(body, b, iargs[0]) {
                    None => None,
                    Some((sl, mv)) => match walked_elem(body, sl, is_mut) {
                        None => None,
                        Some(tag) => match call_of(body, bm as int) {
                            None => None,
                            Some((mp, margs, mdest, after)) => if !(last_segment(mp) == "for_each"@ && contains_text(
                                mp,
                                "Iterator"@,
                            ) && margs.len() == 2 && bare_local(margs[0]) == Some(idest.local)) {
                                None
                            } else if fn_arg_coercible(margs[1], facts[bm as int]) {
                                Some((b as usize, after, (sl, mv), tag, is_mut, false, bm, (mdest.local, mdest.projection@)))
                            } else if !is_mut && shared_closure(margs[1], facts[bm as int]) {
                                Some((b as usize, after, (sl, mv), tag, is_mut, true, bm, (mdest.local, mdest.projection@)))
                            } else {
                                None
                            },
                        },
                    },
                }
            }
        },
    }
}

/// The chains found in the first `m` blocks, in block order.
pub open spec fn for_each_plans(body: Body, facts: Seq<CallFacts>, m: nat) -> Seq<ForEachView>
    decreases m,
{
    if m == 0 {
        Seq::empty()
    } else {
        for_each_plans(body, facts, (m - 1) as nat) + match for_each_plan_at(body, facts, m - 1) {
            Some(p) => seq![p],
            None => Seq::empty(),
        }
    }
}

/// The helper a chain calls, if any.
pub open spec fn for_each_helper(tag: AccTyTag, is_mut: bool, dyn_body: bool) -> Option<Seq<char>> {
    if dyn_body {
        match tag {
            AccTyTag::U64 => Some("parallel_runtime_parallel_for_each_slice_closure_dyn_u64"@),
            AccTyTag::U32 => Some("parallel_runtime_parallel_for_each_slice_closure_dyn_u32"@),
            AccTyTag::I64 => Some("parallel_runtime_parallel_for_each_slice_closure_dyn_i64"@),
            AccTyTag::I32 => Some("parallel_runtime_parallel_for_each_slice_closure_dyn_i32"@),
            _ => None,
        }
    } else {
        match (tag, is_mut) {
            (AccTyTag::U64, false) => Some("parallel_runtime_parallel_for_each_slice_u64"@),
            (AccTyTag::U32, false) => Some("parallel_runtime_parallel_for_each_slice_u32"@),
            (AccTyTag::I64, false) => Some("parallel_runtime_parallel_for_each_slice_i64"@),
            (AccTyTag::I32, false) => Some("parallel_runtime_parallel_for_each_slice_i32"@),
            (AccTyTag::Usize, false) => Some("parallel_runtime_parallel_for_each_slice_usize"@),
            (AccTyTag::Isize, false) => Some("parallel_runtime_parallel_for_each_slice_isize"@),
            (AccTyTag::U64, true) => Some("parallel_runtime_parallel_for_each_mut_slice_u64"@),
            (AccTyTag::U32, true) => Some("parallel_runtime_parallel_for_each_mut_slice_u32"@),
            (AccTyTag::I64, true) => Some("parallel_runtime_parallel_for_each_mut_slice_i64"@),
            (AccTyTag::I32, true) => Some("parallel_runtime_parallel_for_each_mut_slice_i32"@),
            _ => None,
        }
    }
}

/// A chain is rewritten when its helper exists in the runtime; a `&dyn Fn`
/// body also needs the runtime's dyn helpers to take two inputs and the
/// closure to be a bare local.
pub open spec fn for_each_applies(p: ForEachView, src: Body, dyn_two_inputs: bool, available: Seq<String>) -> bool {
    match for_each_helper(p.3, p.4, p.5) {
        None => false,
        Some(name) => helper_listed(available, name) && (p.5 ==> dyn_two_inputs && bare_local(fn_arg(src, p.6)) is Some),
    }
}

// ── Finding and rewriting the chains ───────────────────────────────────

fn walked_elem_of(body: &Body, l: usize, is_mut: bool) -> (r: Option<AccTyTag>)
    ensures
        r == walked_elem(*body, l, is_mut),
{
    match local_ty_of(body, l) {
        LocalTy::RefSlice { elem, mutable } => if is_mut && !mutable {
            None
        } else {
            AccTyTag::from_ty(elem)
        },
        _ => None,
    }
}

fn shared_closure_of(o: &Operand, facts: CallFacts) -> (r: bool)
    ensures
        r == shared_closure(*o, facts),
{
    match o {
        Operand::Constant(_) => false,
        _ => facts.shared_closure_with_captures,
    }
}

/// A chain to rewrite, with copies of what it moves.
#[derive(Debug)]
pub struct ForEachPlan {
    pub bb_iter: usize,
    pub after: usize,
    pub slice: (usize, bool),
    pub elem_tag: AccTyTag,
    pub is_mut: bool,
    pub use_dyn: bool,
    pub bb_method: usize,
    /// The body handed to `for_each`.
    pub body_fn: Operand,
    /// The statements of the `for_each` call's block.
    pub moved: Vec<StatementKind>,
    pub dest: Place,
}

impl ForEachPlan {
    pub open spec fn view_tuple(&self) -> ForEachView {
        (
            self.bb_iter,
            self.after,
            self.slice,
            self.elem_tag,
            self.is_mut,
            self.use_dyn,
            self.bb_method,
            (self.dest.local, self.dest.projection@),
        )
    }
}

/// The plan's copies are those of `src`.
pub open spec fn for_each_data_ok(p: ForEachPlan, src: Body) -> bool {
    &&& same_operand(p.body_fn, fn_arg(src, p.bb_method))
    &&& same_stmts(p.moved@, stmts_of(src, p.bb_method as int))
}

pub(crate) fn copy_stmts(stmts: &Vec<StatementKind>) -> (r: Vec<StatementKind>)
    ensures
        same_stmts(r@, stmts@),
{
    let mut out: Vec<StatementKind> = Vec::new();
    let mut j: usize = 0;
    while j < stmts.len()
        invariant
            j <= stmts@.len(),
            out@.len() == j,
            forall|i: int| 0 <= i < j ==> #[trigger] same_stmt(out@[i], stmts@[i]),
        decreases stmts@.len() - j,
    {
        out.push(copy_stmt(&stmts[j]));
        j = j + 1;
    }
    out
}

fn for_each_plan_from(body: &Body, facts: &Vec<CallFacts>, b: usize) -> (r: Option<ForEachPlan>)
    requires
        body.targets_valid(),
        b < body.num_blocks(),
        facts@.len() == body.num_blocks(),
    ensures
        match r {
            None => for_each_plan_at(*body, facts@, b as int) is None,
            Some(p) => for_each_plan_at(*body, facts@, b as int) == Some(p.view_tuple()) && for_each_data_ok(p, *body)
                && p.after < body.num_blocks() && p.bb_method < body.num_blocks(),
        },
{
    let (ip, iargs, idest, bm) = match call_of_exec(body, b) {
        Some(x) => x,
        None => {
            return None;
        },
    };
    proof {
        lemma_call_target_in(*body, b as int);
    }
    let seg = last_path_segment(ip.as_str());
    let is_mut = str_eq(seg, "iter_mut");
    if !(idest.projection.len() == 0 && contains_str(ip.as_str(), "slice") && (str_eq(seg, "iter") || is_mut)
        && iargs.len() == 1) {
        return None;
    }
    let (sl, mv) = match resolve_slice_of(body, b, &iargs[0]) {
        Some(x) => x,
        None => {
            return None;
        },
    };
    let tag = match walked_elem_of(body, sl, is_mut) {
        Some(t) => t,
        None => {
            return None;
        },
    };
    let (mp, margs, mdest, after) = match call_of_exec(body, bm) {
        Some(x) => x,
        None => {
            return None;
        },
    };
    proof {
        lemma_call_target_in(*body, bm as int);
    }
    if !(str_eq(last_path_segment(mp.as_str()), "for_each") && contains_str(mp.as_str(), "Iterator") && margs.len() == 2) {
        return None;
    }
    if bare_local_of(&margs[0]) != Some(idest.local) {
        return None;
    }
    let use_dyn = if fn_arg_coercible_of(&margs[1], facts[bm]) {
        false
    } else if !is_mut && shared_closure_of(&margs[1], facts[bm]) {
        true
    } else {
        return None;
    };
    Some(
        ForEachPlan {
            bb_iter: b,
            after,
            slice: (sl, mv),
            elem_tag: tag,
            is_mut,
            use_dyn,
            bb_method: bm,
            body_fn: copy_operand(&margs[1]),
            moved: copy_stmts(&body.basic_blocks[bm].statements),
            dest: copy_place(mdest),
        },
    )
}

/// Finds the chains of a body, in block order; `facts` holds what the
/// compiler says of each block's call.
pub fn find_for_each_plans(body: &Body, facts: &Vec<CallFacts>) -> (r: Vec<ForEachPlan>)
    requires
        body.targets_valid(),
        facts@.len() == body.num_blocks(),
    ensures
        r@.len() == for_each_plans(*body, facts@, body.num_blocks()).len(),
        forall|k: int|
            0 <= k < r@.len() ==> (#[trigger] r@[k]).view_tuple() == for_each_plans(*body, facts@, body.num_blocks())[k]
                && for_each_data_ok(r@[k], *body) && r@[k].after < body.num_blocks() && r@[k].bb_method < body.num_blocks()
                && r@[k].bb_iter < body.num_blocks(),
{
    let mut plans: Vec<ForEachPlan> = Vec::new();
    let mut bb: usize = 0;
    while bb < body.basic_blocks.len()
        invariant
            bb <= body.num_blocks(),
            body.targets_valid(),
            facts@.len() == body.num_blocks(),
            plans@.len() == for_each_plans(*body, facts@, bb as nat).len(),
            forall|k: int|
                0 <= k < plans@.len() ==> (#[trigger] plans@[k]).view_tuple() == for_each_plans(*body, facts@, bb as nat)[k]
                    && for_each_data_ok(plans@[k], *body) && plans@[k].after < body.num_blocks() && plans@[k].bb_method
                    < body.num_blocks() && plans@[k].bb_iter < body.num_blocks(),
        decreases body.num_blocks() - bb,
    {
        let ghost prev = plans@;
        match for_each_plan_from(body, facts, bb) {
            Some(p) => {
                plans.push(p);
            },
            None => {},
        }
        proof {
            let before = for_each_plans(*body, facts@, bb as nat);
            let next = for_each_plans(*body, facts@, (bb + 1) as nat);
            assert forall|k: int| 0 <= k < plans@.len() implies (#[trigger] plans@[k]).view_tuple() == next[k]
                && for_each_data_ok(plans@[k], *body) && plans@[k].after < body.num_blocks() && plans@[k].bb_method
                < body.num_blocks() && plans@[k].bb_iter < body.num_blocks() by {
                if k < prev.len() {
                    assert(next[k] == before[k]);
                    assert(plans@[k] == prev[k]);
                }
            }
        }
        bb = bb + 1;
    }
    plans
}

/// `b1` is `b0` with chain `p` rewritten, the moved statements and the body
/// read off `src`: one function-pointer local (or, for a `&dyn Fn` body, a
/// reference local and a `&dyn Fn` local) is added; the `iter` call's block
/// takes the `for_each` block's statements, then the body's cast (or the
/// borrow of the closure and its unsizing); its call becomes the helper call
/// on the slice and the body, into the `for_each` call's destination,
/// returning to the block after the chain and never unwinding; every other
/// block is unchanged.
pub open spec fn for_each_rewritten(b0: Body, b1: Body, src: Body, p: ForEachView, helper: Seq<char>) -> bool {
    let local = b0.local_tys@.len();
    let added: nat = if p.5 {
        2
    } else {
        1
    };
    let old = b0.basic_blocks@[p.0 as int];
    let new = b1.basic_blocks@[p.0 as int];
    let moved = stmts_of(src, p.6 as int);
    let s = new.statements@;
    let at = old.statements@.len() + moved.len();
    &&& b1.arg_count == b0.arg_count
    &&& b1.local_tys@ == b0.local_tys@ + Seq::new(added, |i: int| LocalTy::Other)
    &&& b1.basic_blocks@.len() == b0.basic_blocks@.len()
    &&& forall|i: int| 0 <= i < b0.basic_blocks@.len() && i != p.0 ==> #[trigger] b1.basic_blocks@[i] == b0.basic_blocks@[i]
    &&& s.len() == at + added
    &&& s.take(old.statements@.len() as int) == old.statements@
    &&& same_stmts(s.subrange(old.statements@.len() as int, at as int), moved)
    &&& if p.5 {
        &&& s[at as int] matches StatementKind::Assign(dst, Rvalue::Ref(BorrowKind::Shared, q))
        &&& s[at as int]->Assign_0.local == local && s[at as int]->Assign_0.projection@.len() == 0
        &&& Some(s[at as int]->Assign_1->Ref_1.local) == bare_local(fn_arg(src, p.6))
        &&& s[at as int]->Assign_1->Ref_1.projection@.len() == 0
        &&& s[at + 1int] matches StatementKind::Assign(dst, Rvalue::Cast(o))
        &&& s[at + 1int]->Assign_0.local == local + 1 && s[at + 1int]->Assign_0.projection@.len() == 0
        &&& operand_is(s[at + 1int]->Assign_1->Cast_0, local as usize, false)
    } else {
        crate::combinators::is_fn_value_cast(s[at as int], local as int, src, p.6)
    }
    &&& new.terminator matches Some(TerminatorKind::Call { func, args, destination, target, unwind })
    &&& new.terminator->0->Call_func matches Operand::Constant(Const::FnDef { path })
    &&& new.terminator->0->Call_func->Constant_0->FnDef_path@ == helper
    &&& new.terminator->0->Call_args@.len() == 2
    &&& operand_is(new.terminator->0->Call_args@[0], p.2.0, p.2.1)
    &&& operand_is(new.terminator->0->Call_args@[1], (local + added - 1) as usize, true)
    &&& new.terminator->0->Call_destination.local == p.7.0
    &&& new.terminator->0->Call_destination.projection@ == p.7.1
    &&& new.terminator->0->Call_target == Some(p.1)
    &&& new.terminator->0->Call_unwind == UnwindAction::Unreachable
}

/// One step of the rewrite: a chain that applies is rewritten, any other
/// leaves the body as it was.
pub open spec fn for_each_step(
    b0: Body,
    b1: Body,
    src: Body,
    p: ForEachView,
    dyn_two_inputs: bool,
    available: Seq<String>,
) -> bool {
    if for_each_applies(p, src, dyn_two_inputs, available) {
        for_each_rewritten(b0, b1, src, p, for_each_helper(p.3, p.4, p.5)->0)
    } else {
        b1 == b0
    }
}

/// `b1` is `b0` with the chains `ps` rewritten one after the other, as far
/// as they apply.
pub open spec fn for_each_applied(
    b0: Body,
    b1: Body,
    src: Body,
    ps: Seq<ForEachView>,
    dyn_two_inputs: bool,
    available: Seq<String>,
) -> bool {
    exists|bodies: Seq<Body>|
        {
            &&& bodies.len() == ps.len() + 1
            &&& bodies[0] == b0
            &&& bodies.last() == b1
            &&& forall|k: int|
                0 <= k < ps.len() ==> #[trigger] for_each_step(bodies[k], bodies[k + 1], src, ps[k], dyn_two_inputs, available)
        }
}

/// How many of the chains apply.
pub open spec fn for_each_count(ps: Seq<ForEachView>, src: Body, dyn_two_inputs: bool, available: Seq<String>) -> nat
    decreases ps.len(),
{
    if ps.len() == 0 {
        0
    } else {
        for_each_count(ps.drop_last(), src, dyn_two_inputs, available) + if for_each_applies(
            ps.last(),
            src,
            dyn_two_inputs,
            available,
        ) {
            1nat
        } else {
            0nat
        }
    }
}

/// The helper a chain calls, if any.
pub fn for_each_helper_of(tag: AccTyTag, is_mut: bool, dyn_body: bool) -> (r: Option<&'static str>)
    ensures
        r is Some <==> for_each_helper(tag, is_mut, dyn_body) is Some,
        r matches Some(n) ==> n@ == for_each_helper(tag, is_mut, dyn_body)->0,
{
    match (tag, is_mut, dyn_body) {
        (AccTyTag::U64, false, false) => {
            proof {
                reveal_strlit("parallel_runtime_parallel_for_each_slice_u64");
            }
            Some("parallel_runtime_parallel_for_each_slice_u64")
        },
        (AccTyTag::U32, false, false) => {
            proof {
                reveal_strlit("parallel_runtime_parallel_for_each_slice_u32");
            }
            Some("parallel_runtime_parallel_for_each_slice_u32")
        },
        (AccTyTag::I64, false, false) => {
            proof {
                reveal_strlit("parallel_runtime_parallel_for_each_slice_i64");
            }
            Some("parallel_runtime_parallel_for_each_slice_i64")
        },
        (AccTyTag::I32, false, false) => {
            proof {
                reveal_strlit("parallel_runtime_parallel_for_each_slice_i32");
            }
            Some("parallel_runtime_parallel_for_each_slice_i32")
        },
        (AccTyTag::Usize, false, false) => {
            proof {
                reveal_strlit("parallel_runtime_parallel_for_each_slice_usize");
            }
            Some("parallel_runtime_parallel_for_each_slice_usize")
        },
        (AccTyTag::Isize, false, false) => {
            proof {
                reveal_strlit("parallel_runtime_parallel_for_each_slice_isize");
            }
            Some("parallel_runtime_parallel_for_each_slice_isize")
        },
        (AccTyTag::U64, true, false) => {
            proof {
                reveal_strlit("parallel_runtime_parallel_for_each_mut_slice_u64");
            }
            Some("parallel_runtime_parallel_for_each_mut_slice_u64")
        },
        (AccTyTag::U32, true, false) => {
            proof {
                reveal_strlit("parallel_runtime_parallel_for_each_mut_slice_u32");
            }
            Some("parallel_runtime_parallel_for_each_mut_slice_u32")
        },
        (AccTyTag::I64, true, false) => {
            proof {
                reveal_strlit("parallel_runtime_parallel_for_each_mut_slice_i64");
            }
            Some("parallel_runtime_parallel_for_each_mut_slice_i64")
        },
        (AccTyTag::I32, true, false) => {
            proof {
                reveal_strlit("parallel_runtime_parallel_for_each_mut_slice_i32");
            }
            Some("parallel_runtime_parallel_for_each_mut_slice_i32")
        },
        (AccTyTag::U64, _, true) => {
            proof {
                reveal_strlit("parallel_runtime_parallel_for_each_slice_closure_dyn_u64");
            }
            Some("parallel_runtime_parallel_for_each_slice_closure_dyn_u64")
        },
        (AccTyTag::U32, _, true) => {
            proof {
                reveal_strlit("parallel_runtime_parallel_for_each_slice_closure_dyn_u32");
            }
            Some("parallel_runtime_parallel_for_each_slice_closure_dyn_u32")
        },
        (AccTyTag::I64, _, true) => {
            proof {
                reveal_strlit("parallel_runtime_parallel_for_each_slice_closure_dyn_i64");
            }
            Some("parallel_runtime_parallel_for_each_slice_closure_dyn_i64")
        },
        (AccTyTag::I32, _, true) => {
            proof {
                reveal_strlit("parallel_runtime_parallel_for_each_slice_closure_dyn_i32");
            }
            Some("parallel_runtime_parallel_for_each_slice_closure_dyn_i32")
        },
        _ => None,
    }
}

fn rewrite_for_each_block(body: &mut Body, p: ForEachPlan, helper: &str, Ghost(src): Ghost<Body>)
    requires
        p.bb_iter < old(body).num_blocks(),
        for_each_data_ok(p, src),
        p.use_dyn ==> bare_local(fn_arg(src, p.bb_method)) is Some,
    ensures
        for_each_rewritten(*old(body), *final(body), src, p.view_tuple(), helper@),
{
    let ghost b0 = *body;
    let local = body.local_tys.len();
    let mut p = p;
    let mut extra: Vec<StatementKind> = Vec::new();
    let arg: Operand;
    if p.use_dyn {
        body.local_tys.push(LocalTy::Other);
        let dyn_local = body.local_tys.len();
        body.local_tys.push(LocalTy::Other);
        let cl = match bare_local_of(&p.body_fn) {
            Some(l) => l,
            None => 0,
        };
        extra.push(
            StatementKind::Assign(
                Place { local, projection: Vec::new() },
                Rvalue::Ref(BorrowKind::Shared, Place { local: cl, projection: Vec::new() }),
            ),
        );
        extra.push(
            StatementKind::Assign(
                Place { local: dyn_local, projection: Vec::new() },
                Rvalue::Cast(Operand::Copy(Place { local, projection: Vec::new() })),
            ),
        );
        arg = Operand::Move(Place { local: dyn_local, projection: Vec::new() });
        proof {
            assert(body.local_tys@ =~= b0.local_tys@ + Seq::new(2, |i: int| LocalTy::Other));
        }
    } else {
        body.local_tys.push(LocalTy::Other);
        extra.push(StatementKind::Assign(Place { local, projection: Vec::new() }, Rvalue::Cast(p.body_fn)));
        arg = Operand::Move(Place { local, projection: Vec::new() });
        proof {
            assert(body.local_tys@ =~= b0.local_tys@ + Seq::new(1, |i: int| LocalTy::Other));
        }
    }
    let ghost before = b0.basic_blocks@[p.bb_iter as int].statements@;
    let ghost moved = p.moved@;
    let ghost ex = extra@;
    let mut args: Vec<Operand> = Vec::new();
    args.push(slice_operand(p.slice.0, p.slice.1));
    args.push(arg);
    let blk = &mut body.basic_blocks[p.bb_iter];
    blk.statements.append(&mut p.moved);
    blk.statements.append(&mut extra);
    blk.terminator = Some(
        TerminatorKind::Call {
            func: Operand::Constant(Const::FnDef { path: helper.to_string() }),
            args,
            destination: p.dest,
            target: Some(p.after),
            unwind: UnwindAction::Unreachable,
        },
    );
    proof {
        let s = body.basic_blocks@[p.bb_iter as int].statements@;
        assert(s =~= before + moved + ex);
        assert(s.take(before.len() as int) =~= before);
        assert(s.subrange(before.len() as int, (before.len() + moved.len()) as int) =~= moved);
    }
}

/// What the rewrite needs to know of the compilation: whether idiom
/// transforms are on, the crate's and the function's names, whether the
/// runtime's `&dyn Fn` for-each helpers take two inputs (the slice and the
/// closure), and which runtime helpers exist.
pub struct ForEachGates {
    pub enabled: bool,
    pub crate_name: String,
    pub fn_name: String,
    pub dyn_helpers_take_two: bool,
    pub available_helpers: Vec<String>,
}

/// Bodies left alone: transforms off, a sysroot crate, fewer than two
/// blocks or no call, the runtime's own functions, or a runtime without the
/// u64 for-each helper.
pub open spec fn for_each_gate_refuses(body: Body, g: ForEachGates) -> bool {
    ||| !g.enabled
    ||| sysroot_crate(g.crate_name@)
    ||| quick_skip(body, 2, true, false)
    ||| contains_text(g.fn_name@, "parallel_runtime"@)
    ||| contains_text(g.fn_name@, "parallel_reduce_"@)
    ||| !helper_listed(g.available_helpers@, "parallel_runtime_parallel_for_each_slice_u64"@)
}

proof fn lemma_for_each_plans_block(body: Body, facts: Seq<CallFacts>, m: nat)
    requires
        m <= body.num_blocks(),
    ensures
        forall|k: int| 0 <= k < for_each_plans(body, facts, m).len() ==> (#[trigger] for_each_plans(body, facts, m)[k]).0 < m,
    decreases m,
{
    if m > 0 {
        assert(body.basic_blocks@.len() == body.basic_blocks.len());
        lemma_for_each_plans_block(body, facts, (m - 1) as nat);
        let prev = for_each_plans(body, facts, (m - 1) as nat);
        let cur = for_each_plans(body, facts, m);
        match for_each_plan_at(body, facts, m - 1) {
            Some(p) => {
                assert(cur =~= prev.push(p));
                assert forall|k: int| 0 <= k < cur.len() implies (#[trigger] cur[k]).0 < m by {
                    if k < prev.len() {
                        assert(cur[k] == prev[k]);
                    }
                }
            },
            None => {
                assert(cur =~= prev);
            },
        }
    }
}

/// Rewrites the for-each chains of a body (see `for_each_plan_at` for which
/// chains are found and `for_each_applies` for which are rewritten) and
/// returns how many it rewrote; `facts` holds what the compiler says of
/// each block's call.
pub fn try_transform_iterator_for_each(body: &mut Body, gates: &ForEachGates, facts: &Vec<CallFacts>) -> (n: usize)
    requires
        old(body).targets_valid(),
        facts@.len() == old(body).num_blocks(),
    ensures
        for_each_gate_refuses(*old(body), *gates) ==> n == 0 && *final(body) == *old(body),
        !for_each_gate_refuses(*old(body), *gates) ==> {
            let ps = for_each_plans(*old(body), facts@, old(body).num_blocks());
            &&& n == for_each_count(ps, *old(body), gates.dyn_helpers_take_two, gates.available_helpers@)
            &&& for_each_applied(*old(body), *final(body), *old(body), ps, gates.dyn_helpers_take_two, gates.available_helpers@)
        },
        final(body).targets_valid(),
        old(body).all_terminated() ==> final(body).all_terminated(),
{
    if !gates.enabled || is_in_sysroot_crate(gates.crate_name.as_str()) || parallel_pass_quick_skip(body, 2, true, false)
        || contains_str(gates.fn_name.as_str(), "parallel_runtime") || contains_str(gates.fn_name.as_str(), "parallel_reduce_")
        || !helper_available(&gates.available_helpers, "parallel_runtime_parallel_for_each_slice_u64") {
        return 0;
    }
    let plans = find_for_each_plans(body, facts);
    let ghost src = *body;
    let ghost ps = for_each_plans(src, facts@, src.num_blocks());
    let mut plans = plans;
    let ghost all = plans@;
    assert(plans@.len() == plans.len());
    let ghost mut bodies: Seq<Body> = seq![src];
    let ghost mut k: int = 0;
    let mut count: usize = 0;
    while plans.len() > 0
        invariant
            0 <= k <= ps.len(),
            all.len() == ps.len(),
            all.len() <= usize::MAX,
            plans@ == all.skip(k),
            forall|j: int|
                0 <= j < all.len() ==> (#[trigger] all[j]).view_tuple() == ps[j] && for_each_data_ok(all[j], src)
                    && all[j].after < src.num_blocks() && all[j].bb_iter < src.num_blocks(),
            bodies.len() == k + 1,
            bodies[0] == src,
            bodies.last() == *body,
            forall|j: int|
                0 <= j < k ==> #[trigger] for_each_step(
                    bodies[j],
                    bodies[j + 1],
                    src,
                    ps[j],
                    gates.dyn_helpers_take_two,
                    gates.available_helpers@,
                ),
            count == for_each_count(ps.take(k), src, gates.dyn_helpers_take_two, gates.available_helpers@),
            count <= k,
            body.num_blocks() == src.num_blocks(),
            body.targets_valid(),
            src.all_terminated() ==> body.all_terminated(),
        decreases plans@.len(),
    {
        let p = plans.remove(0);
        let ghost mid = *body;
        assert(p == all[k]);
        assert(all[k].view_tuple() == ps[k] && for_each_data_ok(all[k], src) && all[k].after < src.num_blocks()
            && all[k].bb_iter < src.num_blocks());
        let ghost pv = p.view_tuple();
        let name = for_each_helper_of(p.elem_tag, p.is_mut, p.use_dyn);
        let applies = match name {
            None => false,
            Some(h) => helper_available(&gates.available_helpers, h) && (!p.use_dyn || (gates.dyn_helpers_take_two
                && bare_local_of(&p.body_fn).is_some())),
        };
        proof {
            if p.use_dyn {
                assert(bare_local(p.body_fn) == bare_local(fn_arg(src, p.bb_method)));
            }
        }
        assert(applies == for_each_applies(pv, src, gates.dyn_helpers_take_two, gates.available_helpers@)) by {
            if p.use_dyn {
                assert(bare_local(p.body_fn) == bare_local(fn_arg(src, p.bb_method)));
            }
        }
        if applies {
            let h = name.unwrap();
            rewrite_for_each_block(body, p, h, Ghost(src));
            count = count + 1;
            proof {
                let nb = *body;
                assert forall|i: int| 0 <= i < nb.basic_blocks@.len() implies (#[trigger] nb.basic_blocks@[i]).terminator matches Some(
                    t,
                ) ==> crate::mir::terminator_targets_ok(t, nb.num_blocks()) by {
                    if i != pv.0 {
                        assert(nb.basic_blocks@[i] == mid.basic_blocks@[i]);
                    }
                }
                if src.all_terminated() {
                    assert forall|i: int| 0 <= i < nb.basic_blocks@.len() implies (#[trigger] nb.basic_blocks@[i]).terminator is Some by {
                        if i != pv.0 {
                            assert(nb.basic_blocks@[i] == mid.basic_blocks@[i]);
                        }
                    }
                }
            }
        }
        proof {
            assert(ps.take(k + 1).drop_last() =~= ps.take(k));
            let nb = bodies.push(*body);
            assert forall|j: int| 0 <= j < k + 1 implies #[trigger] for_each_step(
                nb[j],
                nb[j + 1],
                src,
                ps[j],
                gates.dyn_helpers_take_two,
                gates.available_helpers@,
            ) by {
                if j < k {
                    assert(nb[j] == bodies[j] && nb[j + 1] == bodies[j + 1]);
                } else {
                    assert(nb[j] == mid && nb[j + 1] == *body);
                }
            }
            bodies = nb;
            assert(plans@ =~= all.skip(k + 1));
            k = k + 1;
        }
    }
    proof {
        assert(ps.take(k) =~= ps);
    }
    count
}

/// The for-each helper a chain calls is named by how it walks and by its
/// element type: a `&dyn Fn` body goes to the closure helper of its element
/// type; otherwise a mutable walk goes to the `mut_slice` helper and a
/// shared one to the `slice` helper of its element type. The closure and
/// mutable helpers exist for the four narrow integer types, the shared ones
/// for every integer type.
pub proof fn lemma_for_each_helper_is_named_by_walk_and_element_type(tag: AccTyTag, is_mut: bool, dyn_body: bool)
    ensures
        for_each_helper(tag, is_mut, dyn_body) is Some <==> if dyn_body || is_mut {
            is_narrow_int(tag)
        } else {
            tag != AccTyTag::F64
        },
        for_each_helper(tag, is_mut, dyn_body) matches Some(n) ==> n == if dyn_body {
            "parallel_runtime_parallel_for_each_slice_closure_dyn_"@ + tag_word(tag)
        } else {
            "parallel_runtime_parallel_for_each_"@ + (if is_mut {
                "mut_slice_"@
            } else {
                "slice_"@
            }) + tag_word(tag)
        },
{
        reveal_strlit("f64");
        reveal_strlit("i32");
        reveal_strlit("i64");
        reveal_strlit("isize");
        reveal_strlit("mut_slice_");
        reveal_strlit("parallel_runtime_parallel_for_each_");
        reveal_strlit("parallel_runtime_parallel_for_each_mut_slice_i32");
        reveal_strlit("parallel_runtime_parallel_for_each_mut_slice_i64");
        reveal_strlit("parallel_runtime_parallel_for_each_mut_slice_u32");
        reveal_strlit("parallel_runtime_parallel_for_each_mut_slice_u64");
        reveal_strlit("parallel_runtime_parallel_for_each_slice_closure_dyn_");
        reveal_strlit("parallel_runtime_parallel_for_each_slice_closure_dyn_i32");
        reveal_strlit("parallel_runtime_parallel_for_each_slice_closure_dyn_i64");
        reveal_strlit("parallel_runtime_parallel_for_each_slice_closure_dyn_u32");
        reveal_strlit("parallel_runtime_parallel_for_each_slice_closure_dyn_u64");
        reveal_strlit("parallel_runtime_parallel_for_each_slice_i32");
        reveal_strlit("parallel_runtime_parallel_for_each_slice_i64");
        reveal_strlit("parallel_runtime_parallel_for_each_slice_isize");
        reveal_strlit("parallel_runtime_parallel_for_each_slice_u32");
        reveal_strlit("parallel_runtime_parallel_for_each_slice_u64");
        reveal_strlit("parallel_runtime_parallel_for_each_slice_usize");
        reveal_strlit("slice_");
        reveal_strlit("u32");
        reveal_strlit("u64");
        reveal_strlit("usize");
    match (tag, is_mut, dyn_body) {
        (AccTyTag::U64, true, true) => {
            assert("parallel_runtime_parallel_for_each_slice_closure_dyn_u64"@ =~= "parallel_runtime_parallel_for_each_slice_closure_dyn_"@ + "u64"@);
        },
        (AccTyTag::U64, true, false) => {
            assert("parallel_runtime_parallel_for_each_mut_slice_u64"@ =~= "parallel_runtime_parallel_for_each_"@ + "mut_slice_"@ + "u64"@);
        },
        (AccTyTag::U64, false, true) => {
            assert("parallel_runtime_parallel_for_each_slice_closure_dyn_u64"@ =~= "parallel_runtime_parallel_for_each_slice_closure_dyn_"@ + "u64"@);
        },
        (AccTyTag::U64, false, false) => {
            assert("parallel_runtime_parallel_for_each_slice_u64"@ =~= "parallel_runtime_parallel_for_each_"@ + "slice_"@ + "u64"@);
        },
        (AccTyTag::U32, true, true) => {
            assert("parallel_runtime_parallel_for_each_slice_closure_dyn_u32"@ =~= "parallel_runtime_parallel_for_each_slice_closure_dyn_"@ + "u32"@);
        },
        (AccTyTag::U32, true, false) => {
            assert("parallel_runtime_parallel_for_each_mut_slice_u32"@ =~= "parallel_runtime_parallel_for_each_"@ + "mut_slice_"@ + "u32"@);
        },
        (AccTyTag::U32, false, true) => {
            assert("parallel_runtime_parallel_for_each_slice_closure_dyn_u32"@ =~= "parallel_runtime_parallel_for_each_slice_closure_dyn_"@ + "u32"@);
        },
        (AccTyTag::U32, false, false) => {
            assert("parallel_runtime_parallel_for_each_slice_u32"@ =~= "parallel_runtime_parallel_for_each_"@ + "slice_"@ + "u32"@);
        },
        (AccTyTag::I64, true, true) => {
            assert("parallel_runtime_parallel_for_each_slice_closure_dyn_i64"@ =~= "parallel_runtime_parallel_for_each_slice_closure_dyn_"@ + "i64"@);
        },
        (AccTyTag::I64, true, false) => {
            assert("parallel_runtime_parallel_for_each_mut_slice_i64"@ =~= "parallel_runtime_parallel_for_each_"@ + "mut_slice_"@ + "i64"@);
        },
        (AccTyTag::I64, false, true) => {
            assert("parallel_runtime_parallel_for_each_slice_closure_dyn_i64"@ =~= "parallel_runtime_parallel_for_each_slice_closure_dyn_"@ + "i64"@);
        },
        (AccTyTag::I64, false, false) => {
            assert("parallel_runtime_parallel_for_each_slice_i64"@ =~= "parallel_runtime_parallel_for_each_"@ + "slice_"@ + "i64"@);
        },
        (AccTyTag::I32, true, true) => {
            assert("parallel_runtime_parallel_for_each_slice_closure_dyn_i32"@ =~= "parallel_runtime_parallel_for_each_slice_closure_dyn_"@ + "i32"@);
        },
        (AccTyTag::I32, true, false) => {
            assert("parallel_runtime_parallel_for_each_mut_slice_i32"@ =~= "parallel_runtime_parallel_for_each_"@ + "mut_slice_"@ + "i32"@);
        },
        (AccTyTag::I32, false, true) => {
            assert("parallel_runtime_parallel_for_each_slice_closure_dyn_i32"@ =~= "parallel_runtime_parallel_for_each_slice_closure_dyn_"@ + "i32"@);
        },
        (AccTyTag::I32, false, false) => {
            assert("parallel_runtime_parallel_for_each_slice_i32"@ =~= "parallel_runtime_parallel_for_each_"@ + "slice_"@ + "i32"@);
        },
        (AccTyTag::Usize, false, false) => {
            assert("parallel_runtime_parallel_for_each_slice_usize"@ =~= "parallel_runtime_parallel_for_each_"@ + "slice_"@ + "usize"@);
        },
        (AccTyTag::Isize, false, false) => {
            assert("parallel_runtime_parallel_for_each_slice_isize"@ =~= "parallel_runtime_parallel_for_each_"@ + "slice_"@ + "isize"@);
        },
        _ => {},
    }
}

} // verus!
