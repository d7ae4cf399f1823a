//! `(0..n).map(f).collect::<Vec<_>>()` and `s.iter().map(f).collect()`
//! into a `Vec` of integers become one call of the runtime's parallel
//! collect helper, handed `f` as a function pointer.
use vstd::prelude::*;
use crate::mir::{
    Body, StatementKind, TerminatorKind, Operand, Const, Place, Rvalue, UnwindAction, LocalTy, AggregateKind,
    ProjectionElem,
};
use crate::detect::stmts_of;
use crate::idioms::{AccTyTag, tag_word, is_narrow_int};
use crate::text::{last_segment, last_path_segment, str_eq, contains_text, contains_str, ends_with_text, ends_with_str};
use crate::gates::{sysroot_crate, is_in_sysroot_crate, quick_skip, parallel_pass_quick_skip};
use crate::iter_methods::{
    acc_tag, operand_is, helper_listed, copy_place, copy_operand, same_operand, helper_available, slice_elem_tag,
    slice_elem_tag_of,
};
use crate::combinators::{
    CallFacts, fn_arg_coercible, bare_local, resolve_slice, call_of, fn_arg, is_slice_iter, is_iterator_method,
    is_fn_value_cast, bare_local_of, fn_arg_coercible_of, resolve_slice_of, call_of_exec, lemma_call_target_in,
    slice_operand,
};

verus! {

/// What one statement says of the range held by local `target`.
pub enum RangeStep {
    /// Not the range's construction (or not one that counts).
    Skip,
    /// The range's construction, of an element type without a helper: the
    /// search stops.
    Stop,
    /// The range `0..end`, with its element type.
    Found(Operand, AccTyTag),
}

/// A zero constant.
pub open spec fn is_zero_const(o: Operand) -> bool {
    o matches Operand::Constant(Const::Scalar { bits, .. }) && bits == 0
}

/// What statement `s` says of the range held by `target`: an aggregate of a
/// type named `Range` built into the bare local; with a scalar element type
/// of a reduction type, two fields and a zero start, it gives the end.
pub open spec fn range_step(s: StatementKind, target: usize) -> RangeStep {
    match s {
        StatementKind::Assign(place, Rvalue::Aggregate(AggregateKind::Adt { path, first_ty }, fields)) => {
            if place.local != target || place.projection@.len() != 0 || !ends_with_text(path@, "Range"@) {
                RangeStep::Skip
            } else {
                match first_ty {
                    None => RangeStep::Stop,
                    Some(t) => match acc_tag(t) {
                        None => RangeStep::Stop,
                        Some(tag) => if fields@.len() == 2 && is_zero_const(fields@[0]) {
                            RangeStep::Found(fields@[1], tag)
                        } else {
                            RangeStep::Skip
                        },
                    },
                }
            }
        },
        _ => RangeStep::Skip,
    }
}

/// The end of the zero-start range built into `target` by the first
/// statement among `stmts` that says anything of it.
pub open spec fn range_end(stmts: Seq<StatementKind>, target: usize) -> Option<(Operand, AccTyTag)>
    decreases stmts.len(),
{
    if stmts.len() == 0 {
        None
    } else {
        match range_step(stmts[0], target) {
            RangeStep::Skip => range_end(stmts.drop_first(), target),
            RangeStep::Stop => None,
            RangeStep::Found(end, tag) => Some((end, tag)),
        }
    }
}

/// The element type of the `Vec` that a `collect` call collects into, as a
/// reduction type.
pub open spec fn collect_tag(facts: CallFacts) -> Option<AccTyTag> {
    match facts.collect_vec_elem {
        Some(t) => acc_tag(t),
        None => None,
    }
}

/// A collect chain: (whether it maps a range, the collected element type,
/// block whose call the helper call replaces, block after the chain, for a
/// range the local holding it, for a slice the slice (local, moved), block
/// of the `map` call (whose second argument is the mapping), destination of
/// the `collect` call (local, projection)).
pub type CollectView = (bool, AccTyTag, usize, usize, (usize, bool), usize, (usize, Seq<ProjectionElem>));

/// The `collect` call ending block `bc`, of the value built into `mapped`:
/// (element type of the `Vec`, destination, return block).
pub open spec fn collect_call(body: Body, facts: Seq<CallFacts>, bc: int, mapped: usize) -> Option<(AccTyTag, Place, usize)> {
    match call_of(body, bc) {
        None => None,
        Some((cp, cargs, cdest, after)) => if last_segment(cp) == "collect"@ && cargs.len() == 1 && bare_local(cargs[0])
            == Some(mapped) {
            match collect_tag(facts[bc]) {
                Some(tag) => Some((tag, cdest, after)),
                None => None,
            }
        } else {
            None
        },
    }
}

/// The `(0..n).map(f).collect()` chain whose `map` call ends block `b`.
pub open spec fn range_collect_at(body: Body, facts: Seq<CallFacts>, b: int) -> Option<CollectView> {
    match call_of(body, b) {
        None => None,
        Some((mp, margs, mdest, bc)) => if !(is_iterator_method(mp, "map"@) && margs.len() == 2) {
            None
        } else {
            match bare_local(margs[0]) {
                None => None,
                Some(il) => if !fn_arg_coercible(margs[1], facts[b]) {
                    None
                } else {
                    match collect_call(body, facts, bc as int, mdest.local) {
                        None => None,
                        Some((target, cdest, after)) => match range_end(stmts_of(body, b), il) {
                            Some((_end, tag)) => if tag == AccTyTag::U64 {
                                Some((true, target, b as usize, after, (il, false), b as usize, (cdest.local, cdest.projection@)))
                            } else {
                                None
                            },
                            None => None,
                        },
                    }
                },
            }
        },
    }
}

/// The `s.iter().map(f).collect()` chain whose `iter` call ends block `b`;
/// the `Vec` holds the slice's element type.
pub open spec fn slice_collect_at(body: Body, facts: Seq<CallFacts>, b: int) -> Option<CollectView> {
    match call_of(body, b) {
        None => None,
        Some((ip, iargs, idest, bm)) => if !(idest.projection@.len() == 0 && is_slice_iter(ip) && iargs.len() == 1) {
            None
        } else {
            match resolve_slice(body, b, iargs[0]) {
                None => None,
                Some((sl, mv)) => match slice_elem_tag(body, sl) {
                    None => None,
                    Some(tag) => match call_of(body, bm as int) {
                        None => None,
                        Some((mp, margs, mdest, bc)) => if !(is_iterator_method(mp, "map"@) && margs.len() == 2
                            && bare_local(margs[0]) == Some(idest.local) && fn_arg_coercible(margs[1], facts[bm as int])) {
                            None
                        } else {
                            match collect_call(body, facts, bc as int, mdest.local) {
                                None => None,
                                Some((target, cdest, after)) => if target == tag {
                                    Some((false, tag, b as usize, after, (sl, mv), bm, (cdest.local, cdest.projection@)))
                                } else {
                                    None
                                },
                            }
                        },
                    },
                },
            }
        },
    }
}

pub open spec fn range_collects(body: Body, facts: Seq<CallFacts>, m: nat) -> Seq<CollectView>
    decreases m,
{
    if m == 0 {
        Seq::empty()
    } else {
        range_collects(body, facts, (m - 1) as nat) + match range_collect_at(body, facts, m - 1) {
            Some(p) => seq![p],
            None => Seq::empty(),
        }
    }
}

pub open spec fn slice_collects(body: Body, facts: Seq<CallFacts>, m: nat) -> Seq<CollectView>
    decreases m,
{
    if m == 0 {
        Seq::empty()
    } else {
        slice_collects(body, facts, (m - 1) as nat) + match slice_collect_at(body, facts, m - 1) {
            Some(p) => seq![p],
            None => Seq::empty(),
        }
    }
}

/// The chains of a body: the range chains, then the slice chains, each in
/// block order.
pub open spec fn collect_plans(body: Body, facts: Seq<CallFacts>) -> Seq<CollectView> {
    range_collects(body, facts, body.num_blocks()) + slice_collects(body, facts, body.num_blocks())
}

/// The helper a chain calls, if any.
pub open spec fn collect_helper(is_range: bool, tag: AccTyTag) -> Option<Seq<char>> {
    match (is_range, tag) {
        (true, AccTyTag::U64) => Some("parallel_runtime_parallel_collect_range_map_u64"@),
        (true, AccTyTag::U32) => Some("parallel_runtime_parallel_collect_range_map_u32"@),
        (true, AccTyTag::I64) => Some("parallel_runtime_parallel_collect_range_map_i64"@),
        (true, AccTyTag::I32) => Some("parallel_runtime_parallel_collect_range_map_i32"@),
        (false, AccTyTag::U64) => Some("parallel_runtime_parallel_collect_slice_map_u64"@),
        (false, AccTyTag::U32) => Some("parallel_runtime_parallel_collect_slice_map_u32"@),
        (false, AccTyTag::I64) => Some("parallel_runtime_parallel_collect_slice_map_i64"@),
        (false, AccTyTag::I32) => Some("parallel_runtime_parallel_collect_slice_map_i32"@),
        _ => None,
    }
}

/// A chain is rewritten when its helper exists in the runtime.
pub open spec fn collect_applies(p: CollectView, available: Seq<String>) -> bool {
    match collect_helper(p.0, p.1) {
        None => false,
        Some(name) => helper_listed(available, name),
    }
}

// ── Finding and rewriting the chains ───────────────────────────────────

fn range_end_of(stmts: &Vec<StatementKind>, target: usize) -> (r: Option<(Operand, AccTyTag)>)
    ensures
        match r {
            None => range_end(stmts@, target) is None,
            Some((e, t)) => range_end(stmts@, target) matches Some((e2, t2)) && same_operand(e, e2) && t == t2,
        },
{
    let mut i: usize = 0;
    assert(stmts@.skip(0) =~= stmts@);
    while i < stmts.len()
        invariant
            i <= stmts@.len(),
            range_end(stmts@.skip(i as int), target) == range_end(stmts@, target),
        decreases stmts@.len() - i,
    {
        let ghost rest = stmts@.skip(i as int);
        assert(rest[0] == stmts@[i as int]);
        assert(rest.drop_first() =~= stmts@.skip(i + 1));
        match &stmts[i] {
            StatementKind::Assign(place, Rvalue::Aggregate(AggregateKind::Adt { path, first_ty }, fields)) => {
                if place.local == target && place.projection.len() == 0 && ends_with_str(path.as_str(), "Range") {
                    let tag = match first_ty {
                        None => {
                            return None;
                        },
                        Some(t) => match AccTyTag::from_ty(*t) {
                            None => {
                                return None;
                            },
                            Some(tag) => tag,
                        },
                    };
                    if fields.len() == 2 {
                        let zero = match &fields[0] {
                            Operand::Constant(Const::Scalar { bits, .. }) => *bits == 0,
                            _ => false,
                        };
                        if zero {
                            return Some((copy_operand(&fields[1]), tag));
                        }
                    }
                }
            },
            _ => {},
        }
        i = i + 1;
    }
    assert(stmts@.skip(i as int).len() == 0);
    None
}

fn collect_call_of<'a>(body: &'a Body, facts: &Vec<CallFacts>, bc: usize, mapped: usize) -> (r: Option<(AccTyTag, &'a Place, usize)>)
    requires
        bc < body.num_blocks(),
        facts@.len() == body.num_blocks(),
    ensures
        match r {
            None => collect_call(*body, facts@, bc as int, mapped) is None,
            Some((t, d, a)) => collect_call(*body, facts@, bc as int, mapped) == Some((t, *d, a)),
        },
{
    let (cp, cargs, cdest, after) = match call_of_exec(body, bc) {
        Some(x) => x,
        None => {
            return None;
        },
    };
    if !(str_eq(last_path_segment(cp.as_str()), "collect") && cargs.len() == 1) {
        return None;
    }
    if bare_local_of(&cargs[0]) != Some(mapped) {
        return None;
    }
    let tag = match facts[bc].collect_vec_elem {
        Some(t) => AccTyTag::from_ty(t),
        None => None,
    };
    match tag {
        Some(t) => Some((t, cdest, after)),
        None => None,
    }
}

/// A chain to rewrite, with copies of the operands it needs.
#[derive(Debug)]
pub struct CollectPlan {
    pub is_range: bool,
    pub elem_tag: AccTyTag,
    pub bb: usize,
    pub after: usize,
    pub source: (usize, bool),
    pub map_block: usize,
    /// The mapping handed to `map`.
    pub map_fn: Operand,
    /// For a range, its end.
    pub end: Option<Operand>,
    pub dest: Place,
}

impl CollectPlan {
    pub open spec fn view_tuple(&self) -> CollectView {
        (self.is_range, self.elem_tag, self.bb, self.after, self.source, self.map_block, (self.dest.local, self.dest.projection@))
    }
}

/// The end of the range a range chain maps.
pub open spec fn collect_end(src: Body, p: CollectView) -> Operand {
    (range_end(stmts_of(src, p.2 as int), p.4.0)->0).0
}

/// The plan's copies are those of `src`.
pub open spec fn collect_data_ok(p: CollectPlan, src: Body) -> bool {
    &&& same_operand(p.map_fn, fn_arg(src, p.map_block))
    &&& p.is_range ==> (p.end is Some && range_end(stmts_of(src, p.bb as int), p.source.0) is Some && same_operand(
        p.end->0,
        collect_end(src, p.view_tuple()),
    ))
}

fn range_collect_from(body: &Body, facts: &Vec<CallFacts>, b: usize) -> (r: Option<CollectPlan>)
    requires
        body.targets_valid(),
        b < body.num_blocks(),
        facts@.len() == body.num_blocks(),
    ensures
        match r {
            None => range_collect_at(*body, facts@, b as int) is None,
            Some(p) => range_collect_at(*body, facts@, b as int) == Some(p.view_tuple()) && collect_data_ok(p, *body)
                && p.after < body.num_blocks() && p.bb < body.num_blocks(),
        },
{
    let (mp, margs, mdest, bc) = match call_of_exec(body, b) {
        Some(x) => x,
        None => {
            return None;
        },
    };
    proof {
        lemma_call_target_in(*body, b as int);
    }
    if !(str_eq(last_path_segment(mp.as_str()), "map") && contains_str(mp.as_str(), "Iterator") && margs.len() == 2) {
        return None;
    }
    let il = match bare_local_of(&margs[0]) {
        Some(l) => l,
        None => {
            return None;
        },
    };
    if !fn_arg_coercible_of(&margs[1], facts[b]) {
        return None;
    }
    let (target, cdest, after) = match collect_call_of(body, facts, bc, mdest.local) {
        Some(x) => x,
        None => {
            return None;
        },
    };
    proof {
        lemma_call_target_in(*body, bc as int);
    }
    let (end, tag) = match range_end_of(&body.basic_blocks[b].statements, il) {
        Some(x) => x,
        None => {
            return None;
        },
    };
    if !matches!(tag, AccTyTag::U64) {
        return None;
    }
    Some(
        CollectPlan {
            is_range: true,
            elem_tag: target,
            bb: b,
            after,
            source: (il, false),
            map_block: b,
            map_fn: copy_operand(&margs[1]),
            end: Some(end),
            dest: copy_place(cdest),
        },
    )
}

fn slice_collect_from(body: &Body, facts: &Vec<CallFacts>, b: usize) -> (r: Option<CollectPlan>)
    requires
        body.targets_valid(),
        b < body.num_blocks(),
        facts@.len() == body.num_blocks(),
    ensures
        match r {
            None => slice_collect_at(*body, facts@, b as int) is None,
            Some(p) => slice_collect_at(*body, facts@, b as int) == Some(p.view_tuple()) && collect_data_ok(p, *body)
                && p.after < body.num_blocks() && p.bb < body.num_blocks(),
        },
{
    let (ip, iargs, idest, bm) = match call_of_exec(body, b) {
        Some(x) => x,
        None => {
            return None;
        },
    };
    proof {
        lemma_call_target_in(*body, b as int);
    }
    if !(idest.projection.len() == 0 && str_eq(last_path_segment(ip.as_str()), "iter") && contains_str(ip.as_str(), "slice")
        && iargs.len() == 1) {
        return None;
    }
    let (sl, mv) = match resolve_slice_of(body, b, &iargs[0]) {
        Some(x) => x,
        None => {
            return None;
        },
    };
    let tag = match slice_elem_tag_of(body, sl) {
        Some(t) => t,
        None => {
            return None;
        },
    };
    let (mp, margs, mdest, bc) = match call_of_exec(body, bm) {
        Some(x) => x,
        None => {
            return None;
        },
    };
    proof {
        lemma_call_target_in(*body, bm as int);
    }
    if !(str_eq(last_path_segment(mp.as_str()), "map") && contains_str(mp.as_str(), "Iterator") && margs.len() == 2) {
        return None;
    }
    if bare_local_of(&margs[0]) != Some(idest.local) || !fn_arg_coercible_of(&margs[1], facts[bm]) {
        return None;
    }
    let (target, cdest, after) = match collect_call_of(body, facts, bc, mdest.local) {
        Some(x) => x,
        None => {
            return None;
        },
    };
    proof {
        lemma_call_target_in(*body, bc as int);
    }
    if target != tag {
        return None;
    }
    Some(
        CollectPlan {
            is_range: false,
            elem_tag: tag,
            bb: b,
            after,
            source: (sl, mv),
            map_block: bm,
            map_fn: copy_operand(&margs[1]),
            end: None,
            dest: copy_place(cdest),
        },
    )
}

/// Finds the chains of a body (see `collect_plans`); `facts` holds what the
/// compiler says of each block's call.
pub fn find_collect_plans(body: &Body, facts: &Vec<CallFacts>) -> (r: Vec<CollectPlan>)
    requires
        body.targets_valid(),
        facts@.len() == body.num_blocks(),
    ensures
        r@.len() == collect_plans(*body, facts@).len(),
        forall|k: int|
            0 <= k < r@.len() ==> (#[trigger] r@[k]).view_tuple() == collect_plans(*body, facts@)[k] && collect_data_ok(
                r@[k],
                *body,
            ) && r@[k].after < body.num_blocks() && r@[k].bb < body.num_blocks(),
{
    let mut plans: Vec<CollectPlan> = Vec::new();
    let mut bb: usize = 0;
    while bb < body.basic_blocks.len()
        invariant
            bb <= body.num_blocks(),
            body.targets_valid(),
            facts@.len() == body.num_blocks(),
            plans@.len() == range_collects(*body, facts@, bb as nat).len(),
            forall|k: int|
                0 <= k < plans@.len() ==> (#[trigger] plans@[k]).view_tuple() == range_collects(*body, facts@, bb as nat)[k]
                    && collect_data_ok(plans@[k], *body) && plans@[k].after < body.num_blocks() && plans@[k].bb
                    < body.num_blocks(),
        decreases body.num_blocks() - bb,
    {
        let ghost prev = plans@;
        match range_collect_from(body, facts, bb) {
            Some(p) => {
                plans.push(p);
            },
            None => {},
        }
        proof {
            let before = range_collects(*body, facts@, bb as nat);
            let next = range_collects(*body, facts@, (bb + 1) as nat);
            assert forall|k: int| 0 <= k < plans@.len() implies (#[trigger] plans@[k]).view_tuple() == next[k]
                && collect_data_ok(plans@[k], *body) && plans@[k].after < body.num_blocks() && plans@[k].bb
                < body.num_blocks() by {
                if k < prev.len() {
                    assert(next[k] == before[k]);
                    assert(plans@[k] == prev[k]);
                }
            }
        }
        bb = bb + 1;
    }
    let ghost fs = range_collects(*body, facts@, body.num_blocks());
    let ghost nf = plans@.len();
    let mut bb: usize = 0;
    while bb < body.basic_blocks.len()
        invariant
            bb <= body.num_blocks(),
            body.targets_valid(),
            facts@.len() == body.num_blocks(),
            fs == range_collects(*body, facts@, body.num_blocks()),
            nf == fs.len(),
            plans@.len() == nf + slice_collects(*body, facts@, bb as nat).len(),
            forall|k: int|
                0 <= k < plans@.len() ==> (#[trigger] plans@[k]).view_tuple() == (fs + slice_collects(
                    *body,
                    facts@,
                    bb as nat,
                ))[k] && collect_data_ok(plans@[k], *body) && plans@[k].after < body.num_blocks() && plans@[k].bb
                    < body.num_blocks(),
        decreases body.num_blocks() - bb,
    {
        let ghost prev = plans@;
        match slice_collect_from(body, facts, bb) {
            Some(p) => {
                plans.push(p);
            },
            None => {},
        }
        proof {
            let before = fs + slice_collects(*body, facts@, bb as nat);
            let next = fs + slice_collects(*body, facts@, (bb + 1) as nat);
            assert forall|k: int| 0 <= k < plans@.len() implies (#[trigger] plans@[k]).view_tuple() == next[k]
                && collect_data_ok(plans@[k], *body) && plans@[k].after < body.num_blocks() && plans@[k].bb
                < body.num_blocks() by {
                if k < prev.len() {
                    assert(next[k] == before[k]);
                    assert(plans@[k] == prev[k]);
                }
            }
        }
        bb = bb + 1;
    }
    plans
}

/// `b1` is `b0` with chain `p` rewritten, its operands read off `src`: a
/// function-pointer local is added and the mapping's cast appended to the
/// chain's first block, whose call becomes the helper call (for a range on
/// a zero `u64` start, the range's end and the pointer; for a slice on the
/// slice and the pointer) into the `collect` call's destination, returning
/// to the block after the chain and never unwinding; every other block is
/// unchanged.
pub open spec fn collect_rewritten(b0: Body, b1: Body, src: Body, p: CollectView, helper: Seq<char>) -> bool {
    let local = b0.local_tys@.len();
    let old = b0.basic_blocks@[p.2 as int];
    let new = b1.basic_blocks@[p.2 as int];
    let args = new.terminator->0->Call_args@;
    &&& b1.arg_count == b0.arg_count
    &&& b1.local_tys@ == b0.local_tys@.push(LocalTy::Other)
    &&& b1.basic_blocks@.len() == b0.basic_blocks@.len()
    &&& forall|i: int| 0 <= i < b0.basic_blocks@.len() && i != p.2 ==> #[trigger] b1.basic_blocks@[i] == b0.basic_blocks@[i]
    &&& new.statements@.len() == old.statements@.len() + 1
    &&& new.statements@.take(old.statements@.len() as int) == old.statements@
    &&& is_fn_value_cast(new.statements@.last(), local as int, src, p.5)
    &&& new.terminator matches Some(TerminatorKind::Call { func, args, destination, target, unwind })
    &&& new.terminator->0->Call_func matches Operand::Constant(Const::FnDef { path })
    &&& new.terminator->0->Call_func->Constant_0->FnDef_path@ == helper
    &&& if p.0 {
        &&& args.len() == 3
        &&& args[0] == Operand::Constant(Const::Scalar { bits: 0, size_bits: 64 })
        &&& same_operand(args[1], collect_end(src, p))
        &&& operand_is(args[2], local as usize, true)
    } else {
        &&& args.len() == 2
        &&& operand_is(args[0], p.4.0, p.4.1)
        &&& operand_is(args[1], local as usize, true)
    }
    &&& new.terminator->0->Call_destination.local == p.6.0
    &&& new.terminator->0->Call_destination.projection@ == p.6.1
    &&& new.terminator->0->Call_target == Some(p.3)
    &&& new.terminator->0->Call_unwind == UnwindAction::Unreachable
}

/// One step of the rewrite: a chain that applies is rewritten, any other
/// leaves the body as it was.
pub open spec fn collect_step(b0: Body, b1: Body, src: Body, p: CollectView, available: Seq<String>) -> bool {
    if collect_applies(p, available) {
        collect_rewritten(b0, b1, src, p, collect_helper(p.0, p.1)->0)
    } else {
        b1 == b0
    }
}

/// `b1` is `b0` with the chains `ps` rewritten one after the other, as far
/// as they apply.
pub open spec fn collects_applied(b0: Body, b1: Body, src: Body, ps: Seq<CollectView>, available: Seq<String>) -> bool {
    exists|bodies: Seq<Body>|
        {
            &&& bodies.len() == ps.len() + 1
            &&& bodies[0] == b0
            &&& bodies.last() == b1
            &&& forall|k: int| 0 <= k < ps.len() ==> #[trigger] collect_step(bodies[k], bodies[k + 1], src, ps[k], available)
        }
}

/// How many of the chains apply.
pub open spec fn collect_count(ps: Seq<CollectView>, available: Seq<String>) -> nat
    decreases ps.len(),
{
    if ps.len() == 0 {
        0
    } else {
        collect_count(ps.drop_last(), available) + if collect_applies(ps.last(), available) {
            1nat
        } else {
            0nat
        }
    }
}

/// The helper a chain calls, if any.
pub fn collect_helper_of(is_range: bool, tag: AccTyTag) -> (r: Option<&'static str>)
    ensures
        r is Some <==> collect_helper(is_range, tag) is Some,
        r matches Some(n) ==> n@ == collect_helper(is_range, tag)->0,
{
    match (is_range, tag) {
        (true, AccTyTag::U64) => {
            proof {
                reveal_strlit("parallel_runtime_parallel_collect_range_map_u64");
            }
            Some("parallel_runtime_parallel_collect_range_map_u64")
        },
        (true, AccTyTag::U32) => {
            proof {
                reveal_strlit("parallel_runtime_parallel_collect_range_map_u32");
            }
            Some("parallel_runtime_parallel_collect_range_map_u32")
        },
        (true, AccTyTag::I64) => {
            proof {
                reveal_strlit("parallel_runtime_parallel_collect_range_map_i64");
            }
            Some("parallel_runtime_parallel_collect_range_map_i64")
        },
        (true, AccTyTag::I32) => {
            proof {
                reveal_strlit("parallel_runtime_parallel_collect_range_map_i32");
            }
            Some("parallel_runtime_parallel_collect_range_map_i32")
        },
        (false, AccTyTag::U64) => {
            proof {
                reveal_strlit("parallel_runtime_parallel_collect_slice_map_u64");
            }
            Some("parallel_runtime_parallel_collect_slice_map_u64")
        },
        (false, AccTyTag::U32) => {
            proof {
                reveal_strlit("parallel_runtime_parallel_collect_slice_map_u32");
            }
            Some("parallel_runtime_parallel_collect_slice_map_u32")
        },
        (false, AccTyTag::I64) => {
            proof {
                reveal_strlit("parallel_runtime_parallel_collect_slice_map_i64");
            }
            Some("parallel_runtime_parallel_collect_slice_map_i64")
        },
        (false, AccTyTag::I32) => {
            proof {
                reveal_strlit("parallel_runtime_parallel_collect_slice_map_i32");
            }
            Some("parallel_runtime_parallel_collect_slice_map_i32")
        },
        _ => None,
    }
}

fn rewrite_collect_block(body: &mut Body, p: CollectPlan, helper: &str, Ghost(src): Ghost<Body>)
    requires
        p.bb < old(body).num_blocks(),
        collect_data_ok(p, src),
    ensures
        collect_rewritten(*old(body), *final(body), src, p.view_tuple(), helper@),
{
    let ghost pv = p.view_tuple();
    let local = body.local_tys.len();
    body.local_tys.push(LocalTy::Other);
    let mut args: Vec<Operand> = Vec::new();
    if p.is_range {
        args.push(Operand::Constant(Const::Scalar { bits: 0, size_bits: 64 }));
        match p.end {
            Some(e) => args.push(e),
            None => {},
        }
    } else {
        args.push(slice_operand(p.source.0, p.source.1));
    }
    args.push(Operand::Move(Place { local, projection: Vec::new() }));
    let ghost before = body.basic_blocks@[p.bb as int].statements@;
    body.basic_blocks[p.bb].statements.push(
        StatementKind::Assign(Place { local, projection: Vec::new() }, Rvalue::Cast(p.map_fn)),
    );
    body.basic_blocks[p.bb].terminator = Some(
        TerminatorKind::Call {
            func: Operand::Constant(Const::FnDef { path: helper.to_string() }),
            args,
            destination: p.dest,
            target: Some(p.after),
            unwind: UnwindAction::Unreachable,
        },
    );
    proof {
        let new = body.basic_blocks@[p.bb as int];
        assert(new.statements@.take(before.len() as int) =~= before);
    }
}

/// What the rewrite needs to know of the compilation: whether idiom
/// transforms are on, the crate's and the function's names, and which
/// runtime helpers exist.
pub struct CollectGates {
    pub enabled: bool,
    pub crate_name: String,
    pub fn_name: String,
    pub available_helpers: Vec<String>,
}

/// Bodies left alone: transforms off, a sysroot crate, fewer than two
/// blocks or no call, the runtime's own functions, or a runtime without the
/// u64 range collect helper.
pub open spec fn collect_gate_refuses(body: Body, g: CollectGates) -> bool {
    ||| !g.enabled
    ||| sysroot_crate(g.crate_name@)
    ||| quick_skip(body, 2, true, false)
    ||| contains_text(g.fn_name@, "parallel_runtime"@)
    ||| contains_text(g.fn_name@, "parallel_reduce_"@)
    ||| !helper_listed(g.available_helpers@, "parallel_runtime_parallel_collect_range_map_u64"@)
}

/// Rewrites the collect chains of a body (see `collect_plans` for which
/// chains are found and `collect_applies` for which are rewritten) and
/// returns how many it rewrote; `facts` holds what the compiler says of
/// each block's call.
pub fn try_transform_iterator_collect(body: &mut Body, gates: &CollectGates, facts: &Vec<CallFacts>) -> (n: usize)
    requires
        old(body).targets_valid(),
        facts@.len() == old(body).num_blocks(),
    ensures
        collect_gate_refuses(*old(body), *gates) ==> n == 0 && *final(body) == *old(body),
        !collect_gate_refuses(*old(body), *gates) ==> {
            let ps = collect_plans(*old(body), facts@);
            &&& n == collect_count(ps, gates.available_helpers@)
            &&& collects_applied(*old(body), *final(body), *old(body), ps, gates.available_helpers@)
        },
        final(body).targets_valid(),
        old(body).all_terminated() ==> final(body).all_terminated(),
{
    if !gates.enabled || is_in_sysroot_crate(gates.crate_name.as_str()) || parallel_pass_quick_skip(body, 2, true, false)
        || contains_str(gates.fn_name.as_str(), "parallel_runtime") || contains_str(gates.fn_name.as_str(), "parallel_reduce_")
        || !helper_available(&gates.available_helpers, "parallel_runtime_parallel_collect_range_map_u64") {
        return 0;
    }
    let plans = find_collect_plans(body, facts);
    let ghost src = *body;
    let ghost ps = collect_plans(src, facts@);
    let mut plans = plans;
    let ghost all = plans@;
    assert(plans@.len() == plans.len());
    let ghost mut bodies: Seq<Body> = seq![src];
    let ghost mut k: int = 0;
    let mut count: usize = 0;
    while plans.len() > 0
        invariant
            0 <= k <= ps.len(),
            all.len() == ps.len(),
            all.len() <= usize::MAX,
            plans@ == all.skip(k),
            forall|j: int|
                0 <= j < all.len() ==> (#[trigger] all[j]).view_tuple() == ps[j] && collect_data_ok(all[j], src)
                    && all[j].after < src.num_blocks() && all[j].bb < src.num_blocks(),
            bodies.len() == k + 1,
            bodies[0] == src,
            bodies.last() == *body,
            forall|j: int| 0 <= j < k ==> #[trigger] collect_step(bodies[j], bodies[j + 1], src, ps[j], gates.available_helpers@),
            count == collect_count(ps.take(k), gates.available_helpers@),
            count <= k,
            body.num_blocks() == src.num_blocks(),
            body.targets_valid(),
            src.all_terminated() ==> body.all_terminated(),
        decreases plans@.len(),
    {
        let p = plans.remove(0);
        let ghost mid = *body;
        assert(p == all[k]);
        assert(all[k].view_tuple() == ps[k] && collect_data_ok(all[k], src) && all[k].after < src.num_blocks()
            && all[k].bb < src.num_blocks());
        let ghost pv = p.view_tuple();
        let name = collect_helper_of(p.is_range, p.elem_tag);
        let applies = match name {
            None => false,
            Some(h) => helper_available(&gates.available_helpers, h),
        };
        if applies {
            let h = name.unwrap();
            rewrite_collect_block(body, p, h, Ghost(src));
            count = count + 1;
            proof {
                let nb = *body;
                assert forall|i: int| 0 <= i < nb.basic_blocks@.len() implies (#[trigger] nb.basic_blocks@[i]).terminator matches Some(
                    t,
                ) ==> crate::mir::terminator_targets_ok(t, nb.num_blocks()) by {
                    if i != pv.2 {
                        assert(nb.basic_blocks@[i] == mid.basic_blocks@[i]);
                    }
                }
                if src.all_terminated() {
                    assert forall|i: int| 0 <= i < nb.basic_blocks@.len() implies (#[trigger] nb.basic_blocks@[i]).terminator is Some by {
                        if i != pv.2 {
                            assert(nb.basic_blocks@[i] == mid.basic_blocks@[i]);
                        }
                    }
                }
            }
        }
        proof {
            assert(ps.take(k + 1).drop_last() =~= ps.take(k));
            let nb = bodies.push(*body);
            assert forall|j: int| 0 <= j < k + 1 implies #[trigger] collect_step(
                nb[j],
                nb[j + 1],
                src,
                ps[j],
                gates.available_helpers@,
            ) by {
                if j < k {
                    assert(nb[j] == bodies[j] && nb[j + 1] == bodies[j + 1]);
                } else {
                    assert(nb[j] == mid && nb[j + 1] == *body);
                }
            }
            bodies = nb;
            assert(plans@ =~= all.skip(k + 1));
            k = k + 1;
        }
    }
    proof {
        assert(ps.take(k) =~= ps);
    }
    count
}

/// The collect helper a chain calls is named by its kind and its element
/// type: the range or slice collect prefix followed by the element type's
/// name; only the four narrow integer types have one.
pub proof fn lemma_collect_helper_is_named_by_its_element_type(is_range: bool, tag: AccTyTag)
    ensures
        collect_helper(is_range, tag) == if is_narrow_int(tag) {
            Some(
                "parallel_runtime_parallel_collect_"@ + (if is_range {
                    "range_map_"@
                } else {
                    "slice_map_"@
                }) + tag_word(tag),
            )
        } else {
            None::<Seq<char>>
        },
{
        reveal_strlit("f64");
        reveal_strlit("i32");
        reveal_strlit("i64");
        reveal_strlit("isize");
        reveal_strlit("parallel_runtime_parallel_collect_");
        reveal_strlit("parallel_runtime_parallel_collect_range_map_i32");
        reveal_strlit("parallel_runtime_parallel_collect_range_map_i64");
        reveal_strlit("parallel_runtime_parallel_collect_range_map_u32");
        reveal_strlit("parallel_runtime_parallel_collect_range_map_u64");
        reveal_strlit("parallel_runtime_parallel_collect_slice_map_i32");
        reveal_strlit("parallel_runtime_parallel_collect_slice_map_i64");
        reveal_strlit("parallel_runtime_parallel_collect_slice_map_u32");
        reveal_strlit("parallel_runtime_parallel_collect_slice_map_u64");
        reveal_strlit("range_map_");
        reveal_strlit("slice_map_");
        reveal_strlit("u32");
        reveal_strlit("u64");
        reveal_strlit("usize");
    match (is_range, tag) {
        (true, AccTyTag::U64) => {
            assert("parallel_runtime_parallel_collect_range_map_u64"@ =~= "parallel_runtime_parallel_collect_"@ + "range_map_"@ + "u64"@);
        },
        (true, AccTyTag::U32) => {
            assert("parallel_runtime_parallel_collect_range_map_u32"@ =~= "parallel_runtime_parallel_collect_"@ + "range_map_"@ + "u32"@);
        },
        (true, AccTyTag::I64) => {
            assert("parallel_runtime_parallel_collect_range_map_i64"@ =~= "parallel_runtime_parallel_collect_"@ + "range_map_"@ + "i64"@);
        },
        (true, AccTyTag::I32) => {
            assert("parallel_runtime_parallel_collect_range_map_i32"@ =~= "parallel_runtime_parallel_collect_"@ + "range_map_"@ + "i32"@);
        },
        (false, AccTyTag::U64) => {
            assert("parallel_runtime_parallel_collect_slice_map_u64"@ =~= "parallel_runtime_parallel_collect_"@ + "slice_map_"@ + "u64"@);
        },
        (false, AccTyTag::U32) => {
            assert("parallel_runtime_parallel_collect_slice_map_u32"@ =~= "parallel_runtime_parallel_collect_"@ + "slice_map_"@ + "u32"@);
        },
        (false, AccTyTag::I64) => {
            assert("parallel_runtime_parallel_collect_slice_map_i64"@ =~= "parallel_runtime_parallel_collect_"@ + "slice_map_"@ + "i64"@);
        },
        (false, AccTyTag::I32) => {
            assert("parallel_runtime_parallel_collect_slice_map_i32"@ =~= "parallel_runtime_parallel_collect_"@ + "slice_map_"@ + "i32"@);
        },
        _ => {},
    }
}

} // verus!
