//! `map.iter().for_each(f)` over a `HashMap`, with `f` a function item or
//! an `Fn` closure, becomes one call of the runtime's parallel hash-map
//! for-each helper, handed the map and the closure as a `&dyn Fn`.
use vstd::prelude::*;
use crate::mir::{
    Body, StatementKind, TerminatorKind, Operand, Const, Place, Rvalue, BorrowKind, UnwindAction, LocalTy, local_ty,
    local_ty_of, ProjectionElem,
};
use crate::detect::stmts_of;
use crate::text::{last_segment, last_path_segment, str_eq, contains_text, contains_str};
use crate::gates::{sysroot_crate, is_in_sysroot_crate, quick_skip, parallel_pass_quick_skip};
use crate::iter_methods::{operand_is, helper_listed, copy_place, copy_operand, same_operand, helper_available};
use crate::combinators::{
    CallFacts, bare_local, resolve_slice, call_of, fn_arg, bare_local_of, resolve_slice_of, call_of_exec,
    lemma_call_target_in, slice_operand,
};
use crate::fork::same_stmts;

verus! {

/// The operand is a function item or an `Fn` closure.
pub open spec fn fn_callable(o: Operand, facts: CallFacts) -> bool {
    match o {
        Operand::Constant(Const::FnDef { .. }) => true,
        Operand::Constant(_) => false,
        _ => facts.fn_callable,
    }
}

/// A hash-map for-each chain: (block whose call the helper call replaces,
/// block after the chain, the map (local, moved), block of the `for_each`
/// call (whose statements move ahead and whose second argument is the
/// closure), destination of the `for_each` call (local, projection)).
pub type MapForEachView = (usize, usize, (usize, bool), usize, (usize, Seq<ProjectionElem>));

/// The `map.iter().for_each(f)` chain whose `iter` call ends block `b`.
pub open spec fn map_for_each_at(body: Body, facts: Seq<CallFacts>, b: int) -> Option<MapForEachView> {
    match call_of(body, b) {
        None => None,
        Some((ip, iargs, idest, bm)) => if !(idest.projection@.len() == 0 && last_segment(ip) == "iter"@ && contains_text(
            ip,
            "HashMap"@,
        ) && iargs.len() == 1 && bm < body.num_blocks()) {
            None
        } else {
            match resolve_slice(body, b, iargs[0]) {
                None => None,
                Some((ml, mv)) => if local_ty(body, ml) != LocalTy::HashMap {
                    None
                } else {
                    match call_of(body, bm as int) {
                        None => None,
                        Some((mp, margs, mdest, after)) => if last_segment(mp) == "for_each"@ && contains_text(
                            mp,
                            "Iterator"@,
                        ) && margs.len() == 2 && bare_local(margs[0]) == Some(idest.local) && fn_callable(
                            margs[1],
                            facts[bm as int],
                        ) {
                            Some((b as usize, after, (ml, mv), bm, (mdest.local, mdest.projection@)))
                        } else {
                            None
                        },
                    }
                },
            }
        },
    }
}

/// The chains found in the first `m` blocks, in block order.
pub open spec fn map_for_each_plans(body: Body, facts: Seq<CallFacts>, m: nat) -> Seq<MapForEachView>
    decreases m,
{
    if m == 0 {
        Seq::empty()
    } else {
        map_for_each_plans(body, facts, (m - 1) as nat) + match map_for_each_at(body, facts, m - 1) {
            Some(p) => seq![p],
            None => Seq::empty(),
        }
    }
}

/// A chain is rewritten when the runtime's helper takes two inputs (the map
/// and the closure) and the closure is a bare local (a function item has no
/// place to borrow).
pub open spec fn map_for_each_applies(p: MapForEachView, src: Body, helper_takes_two: bool) -> bool {
    helper_takes_two && bare_local(fn_arg(src, p.3)) is Some
}

/// The runtime's hash-map for-each helper.
pub open spec fn map_for_each_helper() -> Seq<char> {
    "parallel_runtime_parallel_for_each_hashmap_iter_dyn"@
}

/// `b1` is `b0` with chain `p` rewritten, the moved statements and the
/// closure read off `src`: a reference local and a `&dyn Fn` local are
/// added; the `iter` call's block takes the `for_each` block's statements,
/// the borrow of the closure and its unsizing; its call becomes the helper
/// call on the map and the `&dyn Fn`, into the `for_each` call's
/// destination, returning to the block after the chain and never unwinding;
/// every other block is unchanged.
pub open spec fn map_for_each_rewritten(b0: Body, b1: Body, src: Body, p: MapForEachView) -> bool {
    let local = b0.local_tys@.len();
    let old = b0.basic_blocks@[p.0 as int];
    let new = b1.basic_blocks@[p.0 as int];
    let moved = stmts_of(src, p.3 as int);
    let s = new.statements@;
    let at = old.statements@.len() + moved.len();
    &&& b1.arg_count == b0.arg_count
    &&& b1.local_tys@ == b0.local_tys@ + seq![LocalTy::Other, LocalTy::Other]
    &&& b1.basic_blocks@.len() == b0.basic_blocks@.len()
    &&& forall|i: int| 0 <= i < b0.basic_blocks@.len() && i != p.0 ==> #[trigger] b1.basic_blocks@[i] == b0.basic_blocks@[i]
    &&& s.len() == at + 2
    &&& s.take(old.statements@.len() as int) == old.statements@
    &&& same_stmts(s.subrange(old.statements@.len() as int, at as int), moved)
    &&& s[at as int] matches StatementKind::Assign(dst, Rvalue::Ref(BorrowKind::Shared, q))
    &&& s[at as int]->Assign_0.local == local && s[at as int]->Assign_0.projection@.len() == 0
    &&& Some(s[at as int]->Assign_1->Ref_1.local) == bare_local(fn_arg(src, p.3))
    &&& s[at as int]->Assign_1->Ref_1.projection@.len() == 0
    &&& s[at + 1int] matches StatementKind::Assign(dst, Rvalue::Cast(o))
    &&& s[at + 1int]->Assign_0.local == local + 1 && s[at + 1int]->Assign_0.projection@.len() == 0
    &&& operand_is(s[at + 1int]->Assign_1->Cast_0, local as usize, false)
    &&& new.terminator matches Some(TerminatorKind::Call { func, args, destination, target, unwind })
    &&& new.terminator->0->Call_func matches Operand::Constant(Const::FnDef { path })
    &&& new.terminator->0->Call_func->Constant_0->FnDef_path@ == map_for_each_helper()
    &&& new.terminator->0->Call_args@.len() == 2
    &&& operand_is(new.terminator->0->Call_args@[0], p.2.0, p.2.1)
    &&& operand_is(new.terminator->0->Call_args@[1], (local + 1) as usize, true)
    &&& new.terminator->0->Call_destination.local == p.4.0
    &&& new.terminator->0->Call_destination.projection@ == p.4.1
    &&& new.terminator->0->Call_target == Some(p.1)
    &&& new.terminator->0->Call_unwind == UnwindAction::Unreachable
}

/// One step of the rewrite: a chain that applies is rewritten, any other
/// leaves the body as it was.
pub open spec fn map_for_each_step(b0: Body, b1: Body, src: Body, p: MapForEachView, helper_takes_two: bool) -> bool {
    if map_for_each_applies(p, src, helper_takes_two) {
        map_for_each_rewritten(b0, b1, src, p)
    } else {
        b1 == b0
    }
}

/// `b1` is `b0` with the chains `ps` rewritten one after the other, as far
/// as they apply.
pub open spec fn map_for_each_applied(b0: Body, b1: Body, src: Body, ps: Seq<MapForEachView>, helper_takes_two: bool) -> bool {
    exists|bodies: Seq<Body>|
        {
            &&& bodies.len() == ps.len() + 1
            &&& bodies[0] == b0
            &&& bodies.last() == b1
            &&& forall|k: int|
                0 <= k < ps.len() ==> #[trigger] map_for_each_step(bodies[k], bodies[k + 1], src, ps[k], helper_takes_two)
        }
}

/// How many of the chains apply.
pub open spec fn map_for_each_count(ps: Seq<MapForEachView>, src: Body, helper_takes_two: bool) -> nat
    decreases ps.len(),
{
    if ps.len() == 0 {
        0
    } else {
        map_for_each_count(ps.drop_last(), src, helper_takes_two) + if map_for_each_applies(
            ps.last(),
            src,
            helper_takes_two,
        ) {
            1nat
        } else {
            0nat
        }
    }
}

// ── Finding and rewriting the chains ───────────────────────────────────

fn fn_callable_of(o: &Operand, facts: CallFacts) -> (r: bool)
    ensures
        r == fn_callable(*o, facts),
{
    match o {
        Operand::Constant(Const::FnDef { .. }) => true,
        Operand::Constant(_) => false,
        _ => facts.fn_callable,
    }
}

/// A chain to rewrite, with copies of what it moves.
#[derive(Debug)]
pub struct MapForEachPlan {
    pub bb_iter: usize,
    pub after: usize,
    pub map: (usize, bool),
    pub bb_method: usize,
    /// The closure handed to `for_each`.
    pub body_fn: Operand,
    /// The statements of the `for_each` call's block.
    pub moved: Vec<StatementKind>,
    pub dest: Place,
}

impl MapForEachPlan {
    pub open spec fn view_tuple(&self) -> MapForEachView {
        (self.bb_iter, self.after, self.map, self.bb_method, (self.dest.local, self.dest.projection@))
    }
}

/// The plan's copies are those of `src`.
pub open spec fn map_for_each_data_ok(p: MapForEachPlan, src: Body) -> bool {
    &&& same_operand(p.body_fn, fn_arg(src, p.bb_method))
    &&& same_stmts(p.moved@, stmts_of(src, p.bb_method as int))
}

fn map_for_each_from(body: &Body, facts: &Vec<CallFacts>, b: usize) -> (r: Option<MapForEachPlan>)
    requires
        b < body.num_blocks(),
        facts@.len() == body.num_blocks(),
    ensures
        match r {
            None => map_for_each_at(*body, facts@, b as int) is None,
            Some(p) => map_for_each_at(*body, facts@, b as int) == Some(p.view_tuple()) && map_for_each_data_ok(p, *body)
                && (body.targets_valid() ==> p.after < body.num_blocks()) && p.bb_iter < body.num_blocks(),
        },
{
    let (ip, iargs, idest, bm) = match call_of_exec(body, b) {
        Some(x) => x,
        None => {
            return None;
        },
    };
    if !(idest.projection.len() == 0 && str_eq(last_path_segment(ip.as_str()), "iter") && contains_str(ip.as_str(), "HashMap")
        && iargs.len() == 1 && bm < body.basic_blocks.len()) {
        return None;
    }
    let (ml, mv) = match resolve_slice_of(body, b, &iargs[0]) {
        Some(x) => x,
        None => {
            return None;
        },
    };
    if local_ty_of(body, ml) != LocalTy::HashMap {
        return None;
    }
    let (mp, margs, mdest, after) = match call_of_exec(body, bm) {
        Some(x) => x,
        None => {
            return None;
        },
    };
    proof {
        if body.targets_valid() {
            lemma_call_target_in(*body, bm as int);
        }
    }
    if !(str_eq(last_path_segment(mp.as_str()), "for_each") && contains_str(mp.as_str(), "Iterator") && margs.len() == 2) {
        return None;
    }
    if bare_local_of(&margs[0]) != Some(idest.local) || !fn_callable_of(&margs[1], facts[bm]) {
        return None;
    }
    Some(
        MapForEachPlan {
            bb_iter: b,
            after,
            map: (ml, mv),
            bb_method: bm,
            body_fn: copy_operand(&margs[1]),
            moved: crate::for_each::copy_stmts(&body.basic_blocks[bm].statements),
            dest: copy_place(mdest),
        },
    )
}

/// Finds the chains of a body, in block order; `facts` holds what the
/// compiler says of each block's call.
pub fn find_map_for_each_plans(body: &Body, facts: &Vec<CallFacts>) -> (r: Vec<MapForEachPlan>)
    requires
        facts@.len() == body.num_blocks(),
    ensures
        r@.len() == map_for_each_plans(*body, facts@, body.num_blocks()).len(),
        forall|k: int|
            0 <= k < r@.len() ==> (#[trigger] r@[k]).view_tuple() == map_for_each_plans(*body, facts@, body.num_blocks())[k]
                && map_for_each_data_ok(r@[k], *body) && (body.targets_valid() ==> r@[k].after < body.num_blocks())
                && r@[k].bb_iter < body.num_blocks(),
{
    let mut plans: Vec<MapForEachPlan> = Vec::new();
    let mut bb: usize = 0;
    while bb < body.basic_blocks.len()
        invariant
            bb <= body.num_blocks(),
            facts@.len() == body.num_blocks(),
            plans@.len() == map_for_each_plans(*body, facts@, bb as nat).len(),
            forall|k: int|
                0 <= k < plans@.len() ==> (#[trigger] plans@[k]).view_tuple() == map_for_each_plans(*body, facts@, bb as nat)[k]
                    && map_for_each_data_ok(plans@[k], *body) && (body.targets_valid() ==> plans@[k].after < body.num_blocks())
                    && plans@[k].bb_iter < body.num_blocks(),
        decreases body.num_blocks() - bb,
    {
        let ghost prev = plans@;
        match map_for_each_from(body, facts, bb) {
            Some(p) => {
                plans.push(p);
            },
            None => {},
        }
        proof {
            let before = map_for_each_plans(*body, facts@, bb as nat);
            let next = map_for_each_plans(*body, facts@, (bb + 1) as nat);
            assert forall|k: int| 0 <= k < plans@.len() implies (#[trigger] plans@[k]).view_tuple() == next[k]
                && map_for_each_data_ok(plans@[k], *body) && (body.targets_valid() ==> plans@[k].after < body.num_blocks())
                && plans@[k].bb_iter < body.num_blocks() by {
                if k < prev.len() {
                    assert(next[k] == before[k]);
                    assert(plans@[k] == prev[k]);
                }
            }
        }
        bb = bb + 1;
    }
    plans
}

fn rewrite_map_for_each_block(body: &mut Body, p: MapForEachPlan, Ghost(src): Ghost<Body>)
    requires
        p.bb_iter < old(body).num_blocks(),
        map_for_each_data_ok(p, src),
        bare_local(fn_arg(src, p.bb_method)) is Some,
    ensures
        map_for_each_rewritten(*old(body), *final(body), src, p.view_tuple()),
{
    let ghost b0 = *body;
    let local = body.local_tys.len();
    let mut p = p;
    body.local_tys.push(LocalTy::Other);
    let dyn_local = body.local_tys.len();
    body.local_tys.push(LocalTy::Other);
    let cl = match bare_local_of(&p.body_fn) {
        Some(l) => l,
        None => 0,
    };
    let mut extra: Vec<StatementKind> = Vec::new();
    extra.push(
        StatementKind::Assign(
            Place { local, projection: Vec::new() },
            Rvalue::Ref(BorrowKind::Shared, Place { local: cl, projection: Vec::new() }),
        ),
    );
    extra.push(
        StatementKind::Assign(
            Place { local: dyn_local, projection: Vec::new() },
            Rvalue::Cast(Operand::Copy(Place { local, projection: Vec::new() })),
        ),
    );
    proof {
        assert(body.local_tys@ =~= b0.local_tys@ + seq![LocalTy::Other, LocalTy::Other]);
    }
    let ghost before = b0.basic_blocks@[p.bb_iter as int].statements@;
    let ghost moved = p.moved@;
    let ghost ex = extra@;
    let mut args: Vec<Operand> = Vec::new();
    args.push(slice_operand(p.map.0, p.map.1));
    args.push(Operand::Move(Place { local: dyn_local, projection: Vec::new() }));
    let blk = &mut body.basic_blocks[p.bb_iter];
    blk.statements.append(&mut p.moved);
    blk.statements.append(&mut extra);
    blk.terminator = Some(
        TerminatorKind::Call {
            func: Operand::Constant(Const::FnDef { path: "parallel_runtime_parallel_for_each_hashmap_iter_dyn".to_string() }),
            args,
            destination: p.dest,
            target: Some(p.after),
            unwind: UnwindAction::Unreachable,
        },
    );
    proof {
        reveal_strlit("parallel_runtime_parallel_for_each_hashmap_iter_dyn");
        let s = body.basic_blocks@[p.bb_iter as int].statements@;
        assert(s =~= before + moved + ex);
        assert(s.take(before.len() as int) =~= before);
        assert(s.subrange(before.len() as int, (before.len() + moved.len()) as int) =~= moved);
    }
}

/// What the rewrite needs to know of the compilation: whether idiom
/// transforms are on, the crate's and the function's names, whether the
/// runtime's hash-map for-each helper takes two inputs (the map and the
/// closure), and which runtime helpers exist.
pub struct MapForEachGates {
    pub enabled: bool,
    pub crate_name: String,
    pub fn_name: String,
    pub helper_takes_two: bool,
    pub available_helpers: Vec<String>,
}

/// Bodies left alone: transforms off, a sysroot crate, fewer than two
/// blocks or no call, the runtime's own functions, or a runtime without the
/// hash-map for-each helper.
pub open spec fn map_for_each_gate_refuses(body: Body, g: MapForEachGates) -> bool {
    ||| !g.enabled
    ||| sysroot_crate(g.crate_name@)
    ||| quick_skip(body, 2, true, false)
    ||| contains_text(g.fn_name@, "parallel_runtime"@)
    ||| contains_text(g.fn_name@, "parallel_reduce_"@)
    ||| !helper_listed(g.available_helpers@, map_for_each_helper())
}

/// Rewrites the hash-map for-each chains of a body (see `map_for_each_at`
/// for which chains are found and `map_for_each_applies` for which are
/// rewritten) and returns how many it rewrote; `facts` holds what the
/// compiler says of each block's call.
pub fn try_transform_hashmap_for_each(body: &mut Body, gates: &MapForEachGates, facts: &Vec<CallFacts>) -> (n: usize)
    requires
        facts@.len() == old(body).num_blocks(),
    ensures
        map_for_each_gate_refuses(*old(body), *gates) ==> n == 0 && *final(body) == *old(body),
        !map_for_each_gate_refuses(*old(body), *gates) ==> {
            let ps = map_for_each_plans(*old(body), facts@, old(body).num_blocks());
            &&& n == map_for_each_count(ps, *old(body), gates.helper_takes_two)
            &&& map_for_each_applied(*old(body), *final(body), *old(body), ps, gates.helper_takes_two)
        },
        old(body).targets_valid() ==> final(body).targets_valid(),
        old(body).all_terminated() ==> final(body).all_terminated(),
{
    proof {
        reveal_strlit("parallel_runtime_parallel_for_each_hashmap_iter_dyn");
    }
    if !gates.enabled || is_in_sysroot_crate(gates.crate_name.as_str()) || parallel_pass_quick_skip(body, 2, true, false)
        || contains_str(gates.fn_name.as_str(), "parallel_runtime") || contains_str(gates.fn_name.as_str(), "parallel_reduce_")
        || !helper_available(&gates.available_helpers, "parallel_runtime_parallel_for_each_hashmap_iter_dyn") {
        return 0;
    }
    let plans = find_map_for_each_plans(body, facts);
    let ghost src = *body;
    let ghost ps = map_for_each_plans(src, facts@, src.num_blocks());
    let mut plans = plans;
    let ghost all = plans@;
    assert(plans@.len() == plans.len());
    let ghost mut bodies: Seq<Body> = seq![src];
    let ghost mut k: int = 0;
    let mut count: usize = 0;
    while plans.len() > 0
        invariant
            0 <= k <= ps.len(),
            all.len() == ps.len(),
            all.len() <= usize::MAX,
            plans@ == all.skip(k),
            forall|j: int|
                0 <= j < all.len() ==> (#[trigger] all[j]).view_tuple() == ps[j] && map_for_each_data_ok(all[j], src)
                    && (src.targets_valid() ==> all[j].after < src.num_blocks()) && all[j].bb_iter < src.num_blocks(),
            bodies.len() == k + 1,
            bodies[0] == src,
            bodies.last() == *body,
            forall|j: int| 0 <= j < k ==> #[trigger] map_for_each_step(bodies[j], bodies[j + 1], src, ps[j], gates.helper_takes_two),
            count == map_for_each_count(ps.take(k), src, gates.helper_takes_two),
            count <= k,
            body.num_blocks() == src.num_blocks(),
            src.targets_valid() ==> body.targets_valid(),
            src.all_terminated() ==> body.all_terminated(),
        decreases plans@.len(),
    {
        let p = plans.remove(0);
        let ghost mid = *body;
        assert(p == all[k]);
        assert(all[k].view_tuple() == ps[k] && map_for_each_data_ok(all[k], src) && (src.targets_valid() ==> all[k].after
            < src.num_blocks()) && all[k].bb_iter < src.num_blocks());
        let ghost pv = p.view_tuple();
        let applies = gates.helper_takes_two && bare_local_of(&p.body_fn).is_some();
        assert(bare_local(p.body_fn) == bare_local(fn_arg(src, p.bb_method)));
        if applies {
            rewrite_map_for_each_block(body, p, Ghost(src));
            count = count + 1;
            proof {
                let nb = *body;
                if src.targets_valid() {
                    assert forall|i: int| 0 <= i < nb.basic_blocks@.len() implies (#[trigger] nb.basic_blocks@[i]).terminator matches Some(
                        t,
                    ) ==> crate::mir::terminator_targets_ok(t, nb.num_blocks()) by {
                        if i != pv.0 {
                            assert(nb.basic_blocks@[i] == mid.basic_blocks@[i]);
                        }
                    }
                }
                if src.all_terminated() {
                    assert forall|i: int| 0 <= i < nb.basic_blocks@.len() implies (#[trigger] nb.basic_blocks@[i]).terminator is Some by {
                        if i != pv.0 {
                            assert(nb.basic_blocks@[i] == mid.basic_blocks@[i]);
                        }
                    }
                }
            }
        }
        proof {
            assert(ps.take(k + 1).drop_last() =~= ps.take(k));
            let nb = bodies.push(*body);
            assert forall|j: int| 0 <= j < k + 1 implies #[trigger] map_for_each_step(
                nb[j],
                nb[j + 1],
                src,
                ps[j],
                gates.helper_takes_two,
            ) by {
                if j < k {
                    assert(nb[j] == bodies[j] && nb[j + 1] == bodies[j + 1]);
                } else {
                    assert(nb[j] == mid && nb[j + 1] == *body);
                }
            }
            bodies = nb;
            assert(plans@ =~= all.skip(k + 1));
            k = k + 1;
        }
    }
    proof {
        assert(ps.take(k) =~= ps);
    }
    count
}

} // verus!
