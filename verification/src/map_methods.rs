//! `s.iter().map(f).sum()` and `.product()` over slices of integers, where
//! `f` maps `&T` to `T`, become one call of the runtime's slice map-reduce
//! helper, handed `f` as a function pointer or, for a closure that captures
//! (and is `Fn`), as a `&dyn Fn`.
use vstd::prelude::*;
use crate::mir::{
    Body, StatementKind, TerminatorKind, Operand, Const, Place, Rvalue, BorrowKind, UnwindAction, LocalTy,
    ProjectionElem,
};
use crate::detect::stmts_of;
use crate::idioms::{AccTyTag, tag_word, is_narrow_int};
use crate::text::{last_segment, last_path_segment, str_eq, contains_str};
use crate::iter_methods::{
    IterMethod, iter_method_named, iter_method_of, acc_tag, bare_operand, bare_operand_of, slice_elem_tag,
    slice_elem_tag_of, operand_is, helper_listed, copy_place, copy_operand, same_operand, helper_available,
};
use crate::combinators::{
    CallFacts, bare_local, call_of, fn_arg, is_slice_iter, is_fn_value_cast, bare_local_of, call_of_exec,
    lemma_call_target_in, slice_operand,
};
use crate::fork::{same_stmts};

verus! {

/// The function value of a `map` call as the chain accepts it: a function
/// item constant or a bare local, with a signature `&T -> T` for the given
/// element type; gives whether it is a closure that captures.
pub open spec fn map_fn_ok(o: Operand, facts: CallFacts, tag: AccTyTag) -> Option<bool> {
    let shape_ok = match o {
        Operand::Constant(Const::FnDef { .. }) => true,
        Operand::Constant(_) => false,
        Operand::Copy(p) => p.projection@.len() == 0,
        Operand::Move(p) => p.projection@.len() == 0,
    };
    let captures = !(o is Constant) && facts.closure_with_captures;
    if !shape_ok {
        None
    } else if captures && !facts.shared_closure_with_captures {
        None
    } else {
        match facts.ref_to_same_scalar {
            Some(t) => if acc_tag(t) == Some(tag) {
                Some(captures)
            } else {
                None
            },
            None => None,
        }
    }
}

/// A map chain: (block whose call the helper call replaces, block after
/// the chain, slice (local, moved), element type, the reducing method,
/// whether the mapping goes as a `&dyn Fn`, block of the `map` call (whose
/// statements move ahead for a `&dyn Fn` and whose second argument is the
/// mapping), destination of the reducing call (local, projection)).
pub type MapView = (usize, usize, (usize, bool), AccTyTag, IterMethod, bool, usize, (usize, Seq<ProjectionElem>));

/// The `iter().map(f).{sum,product}()` chain whose `iter` call ends block
/// `b`.
pub open spec fn map_plan_at(body: Body, facts: Seq<CallFacts>, b: int) -> Option<MapView> {
    match call_of(body, b) {
        None => None,
        Some((ip, iargs, idest, mb)) => if !(idest.projection@.len() == 0 && is_slice_iter(ip) && iargs.len() == 1) {
            None
        } else {
            match bare_operand(iargs[0]) {
                None => None,
                Some((sl, mv)) => match slice_elem_tag(body, sl) {
                    None => None,
                    Some(tag) => match if mb < body.num_blocks() { call_of(body, mb as int) } else { None } {
                        None => None,
                        Some((mp, margs, mdest, rb)) => if !(mdest.projection@.len() == 0 && last_segment(mp) == "map"@
                            && margs.len() == 2 && bare_local(margs[0]) == Some(idest.local) && rb < body.num_blocks()) {
                            None
                        } else {
                            match map_fn_ok(margs[1], facts[mb as int], tag) {
                                None => None,
                                Some(dyn_fn) => match call_of(body, rb as int) {
                                    None => None,
                                    Some((rp, rargs, rdest, after)) => match iter_method_named(last_segment(rp)) {
                                        Some(method) => if method != IterMethod::Count && rargs.len() == 1 && bare_local(
                                            rargs[0],
                                        ) == Some(mdest.local) {
                                            Some((b as usize, after, (sl, mv), tag, method, dyn_fn, mb, (rdest.local, rdest.projection@)))
                                        } else {
                                            None
                                        },
                                        None => None,
                                    },
                                },
                            }
                        },
                    },
                },
            }
        },
    }
}

/// The chains found in the first `m` blocks, in block order.
pub open spec fn map_plans(body: Body, facts: Seq<CallFacts>, m: nat) -> Seq<MapView>
    decreases m,
{
    if m == 0 {
        Seq::empty()
    } else {
        map_plans(body, facts, (m - 1) as nat) + match map_plan_at(body, facts, m - 1) {
            Some(p) => seq![p],
            None => Seq::empty(),
        }
    }
}

/// The helper a chain calls, if any.
pub open spec fn map_helper(dyn_fn: bool, method: IterMethod, tag: AccTyTag) -> Option<Seq<char>> {
    match (dyn_fn, method, tag) {
        (true, IterMethod::Sum, AccTyTag::U64) => Some("parallel_runtime_parallel_reduce_sum_slice_map_closure_dyn_u64"@),
        (true, IterMethod::Sum, AccTyTag::U32) => Some("parallel_runtime_parallel_reduce_sum_slice_map_closure_dyn_u32"@),
        (true, IterMethod::Sum, AccTyTag::I64) => Some("parallel_runtime_parallel_reduce_sum_slice_map_closure_dyn_i64"@),
        (true, IterMethod::Sum, AccTyTag::I32) => Some("parallel_runtime_parallel_reduce_sum_slice_map_closure_dyn_i32"@),
        (true, IterMethod::Product, AccTyTag::U64) => Some("parallel_runtime_parallel_reduce_mul_slice_map_closure_dyn_u64"@),
        (true, IterMethod::Product, AccTyTag::U32) => Some("parallel_runtime_parallel_reduce_mul_slice_map_closure_dyn_u32"@),
        (true, IterMethod::Product, AccTyTag::I64) => Some("parallel_runtime_parallel_reduce_mul_slice_map_closure_dyn_i64"@),
        (true, IterMethod::Product, AccTyTag::I32) => Some("parallel_runtime_parallel_reduce_mul_slice_map_closure_dyn_i32"@),
        (false, IterMethod::Sum, AccTyTag::U32) => Some("parallel_runtime_parallel_reduce_sum_slice_map_u32"@),
        (false, IterMethod::Sum, AccTyTag::U64) => Some("parallel_runtime_parallel_reduce_sum_slice_map_u64"@),
        (false, IterMethod::Sum, AccTyTag::I32) => Some("parallel_runtime_parallel_reduce_sum_slice_map_i32"@),
        (false, IterMethod::Sum, AccTyTag::I64) => Some("parallel_runtime_parallel_reduce_sum_slice_map_i64"@),
        (false, IterMethod::Sum, AccTyTag::Usize) => Some("parallel_runtime_parallel_reduce_sum_slice_map_usize"@),
        (false, IterMethod::Sum, AccTyTag::Isize) => Some("parallel_runtime_parallel_reduce_sum_slice_map_isize"@),
        (false, IterMethod::Product, AccTyTag::U32) => Some("parallel_runtime_parallel_reduce_mul_slice_map_u32"@),
        (false, IterMethod::Product, AccTyTag::U64) => Some("parallel_runtime_parallel_reduce_mul_slice_map_u64"@),
        (false, IterMethod::Product, AccTyTag::I32) => Some("parallel_runtime_parallel_reduce_mul_slice_map_i32"@),
        (false, IterMethod::Product, AccTyTag::I64) => Some("parallel_runtime_parallel_reduce_mul_slice_map_i64"@),
        _ => None,
    }
}

/// A chain is rewritten when its helper exists in the runtime; a `&dyn Fn`
/// mapping also needs the runtime's dyn helpers to take two inputs.
pub open spec fn map_applies(p: MapView, dyn_two_inputs: bool, available: Seq<String>) -> bool {
    match map_helper(p.5, p.4, p.3) {
        None => false,
        Some(name) => helper_listed(available, name) && (p.5 ==> dyn_two_inputs),
    }
}

/// `b1` is `b0` with chain `p` rewritten, the mapping (and, for a
/// `&dyn Fn`, the `map` block's statements) read off `src`. A
/// function-pointer local is added and the cast appended to the chain's
/// first block; or, for a `&dyn Fn`, a reference local and a `&dyn Fn` local
/// are added and the block takes the `map` block's statements, the borrow of
/// the closure and its unsizing. The block's call becomes the helper call on
/// the slice and the mapping, into the reducing call's destination,
/// returning to the block after the chain and never unwinding; every other
/// block is unchanged.
pub open spec fn map_rewritten(b0: Body, b1: Body, src: Body, p: MapView, helper: Seq<char>) -> bool {
    let local = b0.local_tys@.len();
    let added: nat = if p.5 {
        2
    } else {
        1
    };
    let old = b0.basic_blocks@[p.0 as int];
    let new = b1.basic_blocks@[p.0 as int];
    let moved = if p.5 {
        stmts_of(src, p.6 as int)
    } else {
        Seq::empty()
    };
    let s = new.statements@;
    let at = old.statements@.len() + moved.len();
    &&& b1.arg_count == b0.arg_count
    &&& b1.local_tys@ == b0.local_tys@ + Seq::new(added, |i: int| LocalTy::Other)
    &&& b1.basic_blocks@.len() == b0.basic_blocks@.len()
    &&& forall|i: int| 0 <= i < b0.basic_blocks@.len() && i != p.0 ==> #[trigger] b1.basic_blocks@[i] == b0.basic_blocks@[i]
    &&& s.len() == at + added
    &&& s.take(old.statements@.len() as int) == old.statements@
    &&& same_stmts(s.subrange(old.statements@.len() as int, at as int), moved)
    &&& if p.5 {
        &&& s[at as int] matches StatementKind::Assign(dst, Rvalue::Ref(BorrowKind::Shared, q))
        &&& s[at as int]->Assign_0.local == local && s[at as int]->Assign_0.projection@.len() == 0
        &&& Some(s[at as int]->Assign_1->Ref_1.local) == bare_local(fn_arg(src, p.6))
        &&& s[at as int]->Assign_1->Ref_1.projection@.len() == 0
        &&& s[at + 1int] matches StatementKind::Assign(dst, Rvalue::Cast(o))
        &&& s[at + 1int]->Assign_0.local == local + 1 && s[at + 1int]->Assign_0.projection@.len() == 0
        &&& operand_is(s[at + 1int]->Assign_1->Cast_0, local as usize, false)
    } else {
        is_fn_value_cast(s[at as int], local as int, src, p.6)
    }
    &&& new.terminator matches Some(TerminatorKind::Call { func, args, destination, target, unwind })
    &&& new.terminator->0->Call_func matches Operand::Constant(Const::FnDef { path })
    &&& new.terminator->0->Call_func->Constant_0->FnDef_path@ == helper
    &&& new.terminator->0->Call_args@.len() == 2
    &&& operand_is(new.terminator->0->Call_args@[0], p.2.0, p.2.1)
    &&& operand_is(new.terminator->0->Call_args@[1], (local + added - 1) as usize, true)
    &&& new.terminator->0->Call_destination.local == p.7.0
    &&& new.terminator->0->Call_destination.projection@ == p.7.1
    &&& new.terminator->0->Call_target == Some(p.1)
    &&& new.terminator->0->Call_unwind == UnwindAction::Unreachable
}

/// One step of the rewrite: a chain that applies is rewritten, any other
/// leaves the body as it was.
pub open spec fn map_step(b0: Body, b1: Body, src: Body, p: MapView, dyn_two_inputs: bool, available: Seq<String>) -> bool {
    if map_applies(p, dyn_two_inputs, available) {
        map_rewritten(b0, b1, src, p, map_helper(p.5, p.4, p.3)->0)
    } else {
        b1 == b0
    }
}

/// `b1` is `b0` with the chains `ps` rewritten one after the other, as far
/// as they apply.
pub open spec fn maps_applied(
    b0: Body,
    b1: Body,
    src: Body,
    ps: Seq<MapView>,
    dyn_two_inputs: bool,
    available: Seq<String>,
) -> bool {
    exists|bodies: Seq<Body>|
        {
            &&& bodies.len() == ps.len() + 1
            &&& bodies[0] == b0
            &&& bodies.last() == b1
            &&& forall|k: int|
                0 <= k < ps.len() ==> #[trigger] map_step(bodies[k], bodies[k + 1], src, ps[k], dyn_two_inputs, available)
        }
}

/// How many of the chains apply.
pub open spec fn map_count(ps: Seq<MapView>, dyn_two_inputs: bool, available: Seq<String>) -> nat
    decreases ps.len(),
{
    if ps.len() == 0 {
        0
    } else {
        map_count(ps.drop_last(), dyn_two_inputs, available) + if map_applies(ps.last(), dyn_two_inputs, available) {
            1nat
        } else {
            0nat
        }
    }
}

// ── Finding and rewriting the chains ───────────────────────────────────

fn map_fn_ok_of(o: &Operand, facts: CallFacts, tag: AccTyTag) -> (r: Option<bool>)
    ensures
        r == map_fn_ok(*o, facts, tag),
{
    let shape_ok = match o {
        Operand::Constant(Const::FnDef { .. }) => true,
        Operand::Constant(_) => false,
        Operand::Copy(p) => p.projection.len() == 0,
        Operand::Move(p) => p.projection.len() == 0,
    };
    let captures = !matches!(o, Operand::Constant(_)) && facts.closure_with_captures;
    if !shape_ok {
        None
    } else if captures && !facts.shared_closure_with_captures {
        None
    } else {
        match facts.ref_to_same_scalar {
            Some(t) => if AccTyTag::from_ty(t) == Some(tag) {
                Some(captures)
            } else {
                None
            },
            None => None,
        }
    }
}

/// A chain to rewrite, with copies of what it moves.
#[derive(Debug)]
pub struct MapPlan {
    pub bb_iter: usize,
    pub after: usize,
    pub slice: (usize, bool),
    pub elem_tag: AccTyTag,
    pub method: IterMethod,
    pub dyn_fn: bool,
    pub bb_map: usize,
    /// The mapping handed to `map`.
    pub map_fn: Operand,
    /// The statements of the `map` call's block.
    pub moved: Vec<StatementKind>,
    pub dest: Place,
}

impl MapPlan {
    pub open spec fn view_tuple(&self) -> MapView {
        (
            self.bb_iter,
            self.after,
            self.slice,
            self.elem_tag,
            self.method,
            self.dyn_fn,
            self.bb_map,
            (self.dest.local, self.dest.projection@),
        )
    }
}

/// The plan's copies are those of `src`.
pub open spec fn map_data_ok(p: MapPlan, src: Body) -> bool {
    &&& same_operand(p.map_fn, fn_arg(src, p.bb_map))
    &&& same_stmts(p.moved@, stmts_of(src, p.bb_map as int))
    &&& p.dyn_fn ==> bare_local(fn_arg(src, p.bb_map)) is Some
}

fn map_plan_from(body: &Body, facts: &Vec<CallFacts>, b: usize) -> (r: Option<MapPlan>)
    requires
        b < body.num_blocks(),
        facts@.len() == body.num_blocks(),
    ensures
        match r {
            None => map_plan_at(*body, facts@, b as int) is None,
            Some(p) => map_plan_at(*body, facts@, b as int) == Some(p.view_tuple()) && map_data_ok(p, *body)
                && (body.targets_valid() ==> p.after < body.num_blocks()) && p.bb_iter < body.num_blocks(),
        },
{
    let (ip, iargs, idest, mb) = match call_of_exec(body, b) {
        Some(x) => x,
        None => {
            return None;
        },
    };
    if !(idest.projection.len() == 0 && str_eq(last_path_segment(ip.as_str()), "iter") && contains_str(ip.as_str(), "slice")
        && iargs.len() == 1) {
        return None;
    }
    let (sl, mv) = match bare_operand_of(&iargs[0]) {
        Some(x) => x,
        None => {
            return None;
        },
    };
    let tag = match slice_elem_tag_of(body, sl) {
        Some(t) => t,
        None => {
            return None;
        },
    };
    if mb >= body.basic_blocks.len() {
        return None;
    }
    let (mp, margs, mdest, rb) = match call_of_exec(body, mb) {
        Some(x) => x,
        None => {
            return None;
        },
    };
    if !(mdest.projection.len() == 0 && str_eq(last_path_segment(mp.as_str()), "map") && margs.len() == 2
        && rb < body.basic_blocks.len()) {
        return None;
    }
    if bare_local_of(&margs[0]) != Some(idest.local) {
        return None;
    }
    let dyn_fn = match map_fn_ok_of(&margs[1], facts[mb], tag) {
        Some(d) => d,
        None => {
            return None;
        },
    };
    let (rp, rargs, rdest, after) = match call_of_exec(body, rb) {
        Some(x) => x,
        None => {
            return None;
        },
    };
    proof {
        if body.targets_valid() {
            lemma_call_target_in(*body, rb as int);
        }
    }
    let method = match iter_method_of(last_path_segment(rp.as_str())) {
        Some(m) => m,
        None => {
            return None;
        },
    };
    if matches!(method, IterMethod::Count) || rargs.len() != 1 {
        return None;
    }
    if bare_local_of(&rargs[0]) != Some(mdest.local) {
        return None;
    }
    Some(
        MapPlan {
            bb_iter: b,
            after,
            slice: (sl, mv),
            elem_tag: tag,
            method,
            dyn_fn,
            bb_map: mb,
            map_fn: copy_operand(&margs[1]),
            moved: crate::for_each::copy_stmts(&body.basic_blocks[mb].statements),
            dest: copy_place(rdest),
        },
    )
}

/// Finds the chains of a body, in block order; `facts` holds what the
/// compiler says of each block's call.
pub fn find_map_plans(body: &Body, facts: &Vec<CallFacts>) -> (r: Vec<MapPlan>)
    requires
        facts@.len() == body.num_blocks(),
    ensures
        r@.len() == map_plans(*body, facts@, body.num_blocks()).len(),
        forall|k: int|
            0 <= k < r@.len() ==> (#[trigger] r@[k]).view_tuple() == map_plans(*body, facts@, body.num_blocks())[k]
                && map_data_ok(r@[k], *body) && (body.targets_valid() ==> r@[k].after < body.num_blocks())
                && r@[k].bb_iter < body.num_blocks(),
{
    let mut plans: Vec<MapPlan> = Vec::new();
    let mut bb: usize = 0;
    while bb < body.basic_blocks.len()
        invariant
            bb <= body.num_blocks(),
            facts@.len() == body.num_blocks(),
            plans@.len() == map_plans(*body, facts@, bb as nat).len(),
            forall|k: int|
                0 <= k < plans@.len() ==> (#[trigger] plans@[k]).view_tuple() == map_plans(*body, facts@, bb as nat)[k]
                    && map_data_ok(plans@[k], *body) && (body.targets_valid() ==> plans@[k].after < body.num_blocks())
                    && plans@[k].bb_iter < body.num_blocks(),
        decreases body.num_blocks() - bb,
    {
        let ghost prev = plans@;
        match map_plan_from(body, facts, bb) {
            Some(p) => {
                plans.push(p);
            },
            None => {},
        }
        proof {
            let before = map_plans(*body, facts@, bb as nat);
            let next = map_plans(*body, facts@, (bb + 1) as nat);
            assert forall|k: int| 0 <= k < plans@.len() implies (#[trigger] plans@[k]).view_tuple() == next[k]
                && map_data_ok(plans@[k], *body) && (body.targets_valid() ==> plans@[k].after < body.num_blocks())
                && plans@[k].bb_iter < body.num_blocks() by {
                if k < prev.len() {
                    assert(next[k] == before[k]);
                    assert(plans@[k] == prev[k]);
                }
            }
        }
        bb = bb + 1;
    }
    plans
}

/// The helper a chain calls, if any.
pub fn map_helper_of(dyn_fn: bool, method: IterMethod, tag: AccTyTag) -> (r: Option<&'static str>)
    ensures
        r is Some <==> map_helper(dyn_fn, method, tag) is Some,
        r matches Some(n) ==> n@ == map_helper(dyn_fn, method, tag)->0,
{
    match (dyn_fn, method, tag) {
        (true, IterMethod::Sum, AccTyTag::U64) => {
            proof {
                reveal_strlit("parallel_runtime_parallel_reduce_sum_slice_map_closure_dyn_u64");
            }
            Some("parallel_runtime_parallel_reduce_sum_slice_map_closure_dyn_u64")
        },
        (true, IterMethod::Sum, AccTyTag::U32) => {
            proof {
                reveal_strlit("parallel_runtime_parallel_reduce_sum_slice_map_closure_dyn_u32");
            }
            Some("parallel_runtime_parallel_reduce_sum_slice_map_closure_dyn_u32")
        },
        (true, IterMethod::Sum, AccTyTag::I64) => {
            proof {
                reveal_strlit("parallel_runtime_parallel_reduce_sum_slice_map_closure_dyn_i64");
            }
            Some("parallel_runtime_parallel_reduce_sum_slice_map_closure_dyn_i64")
        },
        (true, IterMethod::Sum, AccTyTag::I32) => {
            proof {
                reveal_strlit("parallel_runtime_parallel_reduce_sum_slice_map_closure_dyn_i32");
            }
            Some("parallel_runtime_parallel_reduce_sum_slice_map_closure_dyn_i32")
        },
        (true, IterMethod::Product, AccTyTag::U64) => {
            proof {
                reveal_strlit("parallel_runtime_parallel_reduce_mul_slice_map_closure_dyn_u64");
            }
            Some("parallel_runtime_parallel_reduce_mul_slice_map_closure_dyn_u64")
        },
        (true, IterMethod::Product, AccTyTag::U32) => {
            proof {
                reveal_strlit("parallel_runtime_parallel_reduce_mul_slice_map_closure_dyn_u32");
            }
            Some("parallel_runtime_parallel_reduce_mul_slice_map_closure_dyn_u32")
        },
        (true, IterMethod::Product, AccTyTag::I64) => {
            proof {
                reveal_strlit("parallel_runtime_parallel_reduce_mul_slice_map_closure_dyn_i64");
            }
            Some("parallel_runtime_parallel_reduce_mul_slice_map_closure_dyn_i64")
        },
        (true, IterMethod::Product, AccTyTag::I32) => {
            proof {
                reveal_strlit("parallel_runtime_parallel_reduce_mul_slice_map_closure_dyn_i32");
            }
            Some("parallel_runtime_parallel_reduce_mul_slice_map_closure_dyn_i32")
        },
        (false, IterMethod::Sum, AccTyTag::U32) => {
            proof {
                reveal_strlit("parallel_runtime_parallel_reduce_sum_slice_map_u32");
            }
            Some("parallel_runtime_parallel_reduce_sum_slice_map_u32")
        },
        (false, IterMethod::Sum, AccTyTag::U64) => {
            proof {
                reveal_strlit("parallel_runtime_parallel_reduce_sum_slice_map_u64");
            }
            Some("parallel_runtime_parallel_reduce_sum_slice_map_u64")
        },
        (false, IterMethod::Sum, AccTyTag::I32) => {
            proof {
                reveal_strlit("parallel_runtime_parallel_reduce_sum_slice_map_i32");
            }
            Some("parallel_runtime_parallel_reduce_sum_slice_map_i32")
        },
        (false, IterMethod::Sum, AccTyTag::I64) => {
            proof {
                reveal_strlit("parallel_runtime_parallel_reduce_sum_slice_map_i64");
            }
            Some("parallel_runtime_parallel_reduce_sum_slice_map_i64")
        },
        (false, IterMethod::Sum, AccTyTag::Usize) => {
            proof {
                reveal_strlit("parallel_runtime_parallel_reduce_sum_slice_map_usize");
            }
            Some("parallel_runtime_parallel_reduce_sum_slice_map_usize")
        },
        (false, IterMethod::Sum, AccTyTag::Isize) => {
            proof {
                reveal_strlit("parallel_runtime_parallel_reduce_sum_slice_map_isize");
            }
            Some("parallel_runtime_parallel_reduce_sum_slice_map_isize")
        },
        (false, IterMethod::Product, AccTyTag::U32) => {
            proof {
                reveal_strlit("parallel_runtime_parallel_reduce_mul_slice_map_u32");
            }
            Some("parallel_runtime_parallel_reduce_mul_slice_map_u32")
        },
        (false, IterMethod::Product, AccTyTag::U64) => {
            proof {
                reveal_strlit("parallel_runtime_parallel_reduce_mul_slice_map_u64");
            }
            Some("parallel_runtime_parallel_reduce_mul_slice_map_u64")
        },
        (false, IterMethod::Product, AccTyTag::I32) => {
            proof {
                reveal_strlit("parallel_runtime_parallel_reduce_mul_slice_map_i32");
            }
            Some("parallel_runtime_parallel_reduce_mul_slice_map_i32")
        },
        (false, IterMethod::Product, AccTyTag::I64) => {
            proof {
                reveal_strlit("parallel_runtime_parallel_reduce_mul_slice_map_i64");
            }
            Some("parallel_runtime_parallel_reduce_mul_slice_map_i64")
        },
        _ => None,
    }
}

fn rewrite_map_block(body: &mut Body, p: MapPlan, helper: &str, Ghost(src): Ghost<Body>)
    requires
        p.bb_iter < old(body).num_blocks(),
        map_data_ok(p, src),
    ensures
        map_rewritten(*old(body), *final(body), src, p.view_tuple(), helper@),
{
    let ghost b0 = *body;
    let local = body.local_tys.len();
    let mut p = p;
    let mut extra: Vec<StatementKind> = Vec::new();
    let arg: Operand;
    let ghost moved = if p.dyn_fn {
        p.moved@
    } else {
        Seq::empty()
    };
    if p.dyn_fn {
        body.local_tys.push(LocalTy::Other);
        let dyn_local = body.local_tys.len();
        body.local_tys.push(LocalTy::Other);
        let cl = match bare_local_of(&p.map_fn) {
            Some(l) => l,
            None => 0,
        };
        extra.append(&mut p.moved);
        extra.push(
            StatementKind::Assign(
                Place { local, projection: Vec::new() },
                Rvalue::Ref(BorrowKind::Shared, Place { local: cl, projection: Vec::new() }),
            ),
        );
        extra.push(
            StatementKind::Assign(
                Place { local: dyn_local, projection: Vec::new() },
                Rvalue::Cast(Operand::Copy(Place { local, projection: Vec::new() })),
            ),
        );
        arg = Operand::Move(Place { local: dyn_local, projection: Vec::new() });
        proof {
            assert(body.local_tys@ =~= b0.local_tys@ + Seq::new(2, |i: int| LocalTy::Other));
        }
    } else {
        body.local_tys.push(LocalTy::Other);
        extra.push(StatementKind::Assign(Place { local, projection: Vec::new() }, Rvalue::Cast(p.map_fn)));
        arg = Operand::Move(Place { local, projection: Vec::new() });
        proof {
            assert(body.local_tys@ =~= b0.local_tys@ + Seq::new(1, |i: int| LocalTy::Other));
        }
    }
    let ghost before = b0.basic_blocks@[p.bb_iter as int].statements@;
    let ghost ex = extra@;
    let mut args: Vec<Operand> = Vec::new();
    args.push(slice_operand(p.slice.0, p.slice.1));
    args.push(arg);
    let blk = &mut body.basic_blocks[p.bb_iter];
    blk.statements.append(&mut extra);
    blk.terminator = Some(
        TerminatorKind::Call {
            func: Operand::Constant(Const::FnDef { path: helper.to_string() }),
            args,
            destination: p.dest,
            target: Some(p.after),
            unwind: UnwindAction::Unreachable,
        },
    );
    proof {
        let s = body.basic_blocks@[p.bb_iter as int].statements@;
        assert(s =~= before + ex);
        assert(s.take(before.len() as int) =~= before);
        assert(s.subrange(before.len() as int, (before.len() + moved.len()) as int) =~= moved);
    }
}

/// Rewrites the map chains of a body (see `map_plan_at` for which chains
/// are found and `map_applies` for which are rewritten) and returns how many
/// it rewrote; `facts` holds what the compiler says of each block's call.
pub fn try_transform_map_iterator_methods(
    body: &mut Body,
    dyn_helpers_take_two: bool,
    available: &Vec<String>,
    facts: &Vec<CallFacts>,
) -> (n: usize)
    requires
        facts@.len() == old(body).num_blocks(),
    ensures
        ({
            let ps = map_plans(*old(body), facts@, old(body).num_blocks());
            &&& n == map_count(ps, dyn_helpers_take_two, available@)
            &&& maps_applied(*old(body), *final(body), *old(body), ps, dyn_helpers_take_two, available@)
        }),
        old(body).targets_valid() ==> final(body).targets_valid(),
        final(body).num_blocks() == old(body).num_blocks(),
        old(body).all_terminated() ==> final(body).all_terminated(),
{
    let plans = find_map_plans(body, facts);
    let ghost src = *body;
    let ghost ps = map_plans(src, facts@, src.num_blocks());
    let mut plans = plans;
    let ghost all = plans@;
    assert(plans@.len() == plans.len());
    let ghost mut bodies: Seq<Body> = seq![src];
    let ghost mut k: int = 0;
    let mut count: usize = 0;
    while plans.len() > 0
        invariant
            0 <= k <= ps.len(),
            all.len() == ps.len(),
            all.len() <= usize::MAX,
            plans@ == all.skip(k),
            forall|j: int|
                0 <= j < all.len() ==> (#[trigger] all[j]).view_tuple() == ps[j] && map_data_ok(all[j], src)
                    && (src.targets_valid() ==> all[j].after < src.num_blocks()) && all[j].bb_iter < src.num_blocks(),
            bodies.len() == k + 1,
            bodies[0] == src,
            bodies.last() == *body,
            forall|j: int|
                0 <= j < k ==> #[trigger] map_step(bodies[j], bodies[j + 1], src, ps[j], dyn_helpers_take_two, available@),
            count == map_count(ps.take(k), dyn_helpers_take_two, available@),
            count <= k,
            body.num_blocks() == src.num_blocks(),
            src.targets_valid() ==> body.targets_valid(),
            src.all_terminated() ==> body.all_terminated(),
        decreases plans@.len(),
    {
        let p = plans.remove(0);
        let ghost mid = *body;
        assert(p == all[k]);
        assert(all[k].view_tuple() == ps[k] && map_data_ok(all[k], src) && (src.targets_valid() ==> all[k].after
            < src.num_blocks()) && all[k].bb_iter < src.num_blocks());
        let ghost pv = p.view_tuple();
        let name = map_helper_of(p.dyn_fn, p.method, p.elem_tag);
        let applies = match name {
            None => false,
            Some(h) => helper_available(available, h) && (!p.dyn_fn || dyn_helpers_take_two),
        };
        if applies {
            let h = name.unwrap();
            rewrite_map_block(body, p, h, Ghost(src));
            count = count + 1;
            proof {
                let nb = *body;
                if src.targets_valid() {
                    assert forall|i: int| 0 <= i < nb.basic_blocks@.len() implies (#[trigger] nb.basic_blocks@[i]).terminator matches Some(
                        t,
                    ) ==> crate::mir::terminator_targets_ok(t, nb.num_blocks()) by {
                        if i != pv.0 {
                            assert(nb.basic_blocks@[i] == mid.basic_blocks@[i]);
                        }
                    }
                }
                if src.all_terminated() {
                    assert forall|i: int| 0 <= i < nb.basic_blocks@.len() implies (#[trigger] nb.basic_blocks@[i]).terminator is Some by {
                        if i != pv.0 {
                            assert(nb.basic_blocks@[i] == mid.basic_blocks@[i]);
                        }
                    }
                }
            }
        }
        proof {
            assert(ps.take(k + 1).drop_last() =~= ps.take(k));
            let nb = bodies.push(*body);
            assert forall|j: int| 0 <= j < k + 1 implies #[trigger] map_step(
                nb[j],
                nb[j + 1],
                src,
                ps[j],
                dyn_helpers_take_two,
                available@,
            ) by {
                if j < k {
                    assert(nb[j] == bodies[j] && nb[j + 1] == bodies[j + 1]);
                } else {
                    assert(nb[j] == mid && nb[j + 1] == *body);
                }
            }
            bodies = nb;
            assert(plans@ =~= all.skip(k + 1));
            k = k + 1;
        }
    }
    proof {
        assert(ps.take(k) =~= ps);
    }
    count
}

/// The map helper a chain calls is named by its reduction and its element
/// type: the reduce prefix, `sum` or `mul`, `_slice_map_`, `closure_dyn_`
/// for a `&dyn Fn` mapping, then the element type's name. Sums with a plain
/// mapping have one for every integer type; products, and sums with a
/// `&dyn Fn`, for the four narrow integer types.
pub proof fn lemma_map_helper_is_named_by_reduction_and_element_type(dyn_fn: bool, method: IterMethod, tag: AccTyTag)
    ensures
        map_helper(dyn_fn, method, tag) is Some <==> method != IterMethod::Count && if dyn_fn || method
            == IterMethod::Product {
            is_narrow_int(tag)
        } else {
            tag != AccTyTag::F64
        },
        map_helper(dyn_fn, method, tag) matches Some(n) ==> n == "parallel_runtime_parallel_reduce_"@ + (if method == IterMethod::Sum {
            "sum"@
        } else {
            "mul"@
        }) + "_slice_map_"@ + (if dyn_fn {
            "closure_dyn_"@ + tag_word(tag)
        } else {
            tag_word(tag)
        }),
{
        reveal_strlit("_slice_map_");
        reveal_strlit("closure_dyn_");
        reveal_strlit("f64");
        reveal_strlit("i32");
        reveal_strlit("i64");
        reveal_strlit("isize");
        reveal_strlit("mul");
        reveal_strlit("parallel_runtime_parallel_reduce_");
        reveal_strlit("parallel_runtime_parallel_reduce_mul_slice_map_closure_dyn_i32");
        reveal_strlit("parallel_runtime_parallel_reduce_mul_slice_map_closure_dyn_i64");
        reveal_strlit("parallel_runtime_parallel_reduce_mul_slice_map_closure_dyn_u32");
        reveal_strlit("parallel_runtime_parallel_reduce_mul_slice_map_closure_dyn_u64");
        reveal_strlit("parallel_runtime_parallel_reduce_mul_slice_map_i32");
        reveal_strlit("parallel_runtime_parallel_reduce_mul_slice_map_i64");
        reveal_strlit("parallel_runtime_parallel_reduce_mul_slice_map_isize");
        reveal_strlit("parallel_runtime_parallel_reduce_mul_slice_map_u32");
        reveal_strlit("parallel_runtime_parallel_reduce_mul_slice_map_u64");
        reveal_strlit("parallel_runtime_parallel_reduce_mul_slice_map_usize");
        reveal_strlit("parallel_runtime_parallel_reduce_sum_slice_map_closure_dyn_i32");
        reveal_strlit("parallel_runtime_parallel_reduce_sum_slice_map_closure_dyn_i64");
        reveal_strlit("parallel_runtime_parallel_reduce_sum_slice_map_closure_dyn_u32");
        reveal_strlit("parallel_runtime_parallel_reduce_sum_slice_map_closure_dyn_u64");
        reveal_strlit("parallel_runtime_parallel_reduce_sum_slice_map_i32");
        reveal_strlit("parallel_runtime_parallel_reduce_sum_slice_map_i64");
        reveal_strlit("parallel_runtime_parallel_reduce_sum_slice_map_isize");
        reveal_strlit("parallel_runtime_parallel_reduce_sum_slice_map_u32");
        reveal_strlit("parallel_runtime_parallel_reduce_sum_slice_map_u64");
        reveal_strlit("parallel_runtime_parallel_reduce_sum_slice_map_usize");
        reveal_strlit("sum");
        reveal_strlit("u32");
        reveal_strlit("u64");
        reveal_strlit("usize");
    match (dyn_fn, method, tag) {
        (true, IterMethod::Sum, AccTyTag::U64) => {
            assert("parallel_runtime_parallel_reduce_sum_slice_map_closure_dyn_u64"@ =~= "parallel_runtime_parallel_reduce_"@ + "sum"@ + "_slice_map_"@ + "closure_dyn_"@ + "u64"@);
        },
        (true, IterMethod::Sum, AccTyTag::U32) => {
            assert("parallel_runtime_parallel_reduce_sum_slice_map_closure_dyn_u32"@ =~= "parallel_runtime_parallel_reduce_"@ + "sum"@ + "_slice_map_"@ + "closure_dyn_"@ + "u32"@);
        },
        (true, IterMethod::Sum, AccTyTag::I64) => {
            assert("parallel_runtime_parallel_reduce_sum_slice_map_closure_dyn_i64"@ =~= "parallel_runtime_parallel_reduce_"@ + "sum"@ + "_slice_map_"@ + "closure_dyn_"@ + "i64"@);
        },
        (true, IterMethod::Sum, AccTyTag::I32) => {
            assert("parallel_runtime_parallel_reduce_sum_slice_map_closure_dyn_i32"@ =~= "parallel_runtime_parallel_reduce_"@ + "sum"@ + "_slice_map_"@ + "closure_dyn_"@ + "i32"@);
        },
        (true, IterMethod::Product, AccTyTag::U64) => {
            assert("parallel_runtime_parallel_reduce_mul_slice_map_closure_dyn_u64"@ =~= "parallel_runtime_parallel_reduce_"@ + "mul"@ + "_slice_map_"@ + "closure_dyn_"@ + "u64"@);
        },
        (true, IterMethod::Product, AccTyTag::U32) => {
            assert("parallel_runtime_parallel_reduce_mul_slice_map_closure_dyn_u32"@ =~= "parallel_runtime_parallel_reduce_"@ + "mul"@ + "_slice_map_"@ + "closure_dyn_"@ + "u32"@);
        },
        (true, IterMethod::Product, AccTyTag::I64) => {
            assert("parallel_runtime_parallel_reduce_mul_slice_map_closure_dyn_i64"@ =~= "parallel_runtime_parallel_reduce_"@ + "mul"@ + "_slice_map_"@ + "closure_dyn_"@ + "i64"@);
        },
        (true, IterMethod::Product, AccTyTag::I32) => {
            assert("parallel_runtime_parallel_reduce_mul_slice_map_closure_dyn_i32"@ =~= "parallel_runtime_parallel_reduce_"@ + "mul"@ + "_slice_map_"@ + "closure_dyn_"@ + "i32"@);
        },
        (false, IterMethod::Sum, AccTyTag::U64) => {
            assert("parallel_runtime_parallel_reduce_sum_slice_map_u64"@ =~= "parallel_runtime_parallel_reduce_"@ + "sum"@ + "_slice_map_"@ + "u64"@);
        },
        (false, IterMethod::Sum, AccTyTag::U32) => {
            assert("parallel_runtime_parallel_reduce_sum_slice_map_u32"@ =~= "parallel_runtime_parallel_reduce_"@ + "sum"@ + "_slice_map_"@ + "u32"@);
        },
        (false, IterMethod::Sum, AccTyTag::I64) => {
            assert("parallel_runtime_parallel_reduce_sum_slice_map_i64"@ =~= "parallel_runtime_parallel_reduce_"@ + "sum"@ + "_slice_map_"@ + "i64"@);
        },
        (false, IterMethod::Sum, AccTyTag::I32) => {
            assert("parallel_runtime_parallel_reduce_sum_slice_map_i32"@ =~= "parallel_runtime_parallel_reduce_"@ + "sum"@ + "_slice_map_"@ + "i32"@);
        },
        (false, IterMethod::Sum, AccTyTag::Usize) => {
            assert("parallel_runtime_parallel_reduce_sum_slice_map_usize"@ =~= "parallel_runtime_parallel_reduce_"@ + "sum"@ + "_slice_map_"@ + "usize"@);
        },
        (false, IterMethod::Sum, AccTyTag::Isize) => {
            assert("parallel_runtime_parallel_reduce_sum_slice_map_isize"@ =~= "parallel_runtime_parallel_reduce_"@ + "sum"@ + "_slice_map_"@ + "isize"@);
        },
        (false, IterMethod::Product, AccTyTag::U64) => {
            assert("parallel_runtime_parallel_reduce_mul_slice_map_u64"@ =~= "parallel_runtime_parallel_reduce_"@ + "mul"@ + "_slice_map_"@ + "u64"@);
        },
        (false, IterMethod::Product, AccTyTag::U32) => {
            assert("parallel_runtime_parallel_reduce_mul_slice_map_u32"@ =~= "parallel_runtime_parallel_reduce_"@ + "mul"@ + "_slice_map_"@ + "u32"@);
        },
        (false, IterMethod::Product, AccTyTag::I64) => {
            assert("parallel_runtime_parallel_reduce_mul_slice_map_i64"@ =~= "parallel_runtime_parallel_reduce_"@ + "mul"@ + "_slice_map_"@ + "i64"@);
        },
        (false, IterMethod::Product, AccTyTag::I32) => {
            assert("parallel_runtime_parallel_reduce_mul_slice_map_i32"@ =~= "parallel_runtime_parallel_reduce_"@ + "mul"@ + "_slice_map_"@ + "i32"@);
        },
        (false, IterMethod::Product, AccTyTag::Usize) => {
            assert("parallel_runtime_parallel_reduce_mul_slice_map_usize"@ =~= "parallel_runtime_parallel_reduce_"@ + "mul"@ + "_slice_map_"@ + "usize"@);
        },
        (false, IterMethod::Product, AccTyTag::Isize) => {
            assert("parallel_runtime_parallel_reduce_mul_slice_map_isize"@ =~= "parallel_runtime_parallel_reduce_"@ + "mul"@ + "_slice_map_"@ + "isize"@);
        },
        _ => {},
    }
}

} // verus!
