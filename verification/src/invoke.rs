//! Finding independent calls that can be forked: a call, possibly some
//! passthrough blocks, and a second call that does not depend on the first
//! (the 2-way form), or longer chains of such calls (the N-way form). What
//! only the compiler knows of a callee (where it is defined, its signature,
//! its purity and cost) comes in as a `CalleeInfo` per block.
use vstd::prelude::*;
use crate::mir::{Body, StatementKind, TerminatorKind, Operand, Const};
use crate::detect::{stmts_of, term_of};
use crate::shape::{
    any_op_reads, rvalue_reads, rvalue_reads_local, op_reads, passthrough, walk_passthrough_blocks,
};
use crate::gates::{
    trivial_callee, is_trivial_callee, times_ten_sat, MIN_PARALLEL_INVOKE_BODY_COST,
    sysroot_crate, is_in_sysroot_crate, runtime_fn_name, is_runtime_fn_name, quick_skip,
    parallel_pass_quick_skip, invoke_costs_ok, costs_balanced,
};

verus! {

/// What the compiler says of the function that a block's call terminator
/// calls: whether it is defined in this crate or in a sysroot crate, how
/// many inputs its signature has, whether its output type is the
/// destination's type (once regions are erased, and as declared), whether
/// its body passes the parallel-invoke purity check, and its weighted cost.
#[derive(Clone, Copy, Debug)]
pub struct CalleeInfo {
    pub is_local: bool,
    pub in_sysroot: bool,
    pub sig_inputs: usize,
    pub output_matches_dest: bool,
    pub dest_ty_identical: bool,
    pub invoke_pure: bool,
    pub cost: usize,
}

/// A block whose terminator calls a function item into a bare local and
/// then continues: (callee path, arguments, destination, return block).
pub open spec fn call_parts(body: Body, bb: int) -> Option<(Seq<char>, Seq<Operand>, usize, usize)> {
    match term_of(body, bb) {
        Some(TerminatorKind::Call { func, args, destination, target, .. }) => match (func, target) {
            (Operand::Constant(Const::FnDef { path }), Some(t)) => if destination.projection@.len() == 0 {
                Some((path@, args@, destination.local, t))
            } else {
                None
            },
            _ => None,
        },
        _ => None,
    }
}

/// A callee that may be forked: defined in this crate, outside the sysroot,
/// and not a trivial function.
pub open spec fn callee_allowed(info: CalleeInfo, path: Seq<char>, chain: bool) -> bool {
    info.is_local && !info.in_sysroot && !trivial_callee(path, chain)
}

/// Some statement assigns (a place rooted at) `l`.
pub open spec fn assigns_local(stmts: Seq<StatementKind>, l: usize) -> bool {
    exists|i: int| 0 <= i < stmts.len() && (#[trigger] stmts[i] matches StatementKind::Assign(place, _) && place.local == l)
}

/// Some statement of the given blocks assigns `l`.
pub open spec fn blocks_assign(body: Body, blocks: Seq<usize>, l: usize) -> bool {
    exists|k: int| 0 <= k < blocks.len() && #[trigger] assigns_local(stmts_of(body, blocks[k] as int), l)
}

/// The statements before the second call: assignments neither to `b` nor
/// reading `a`, storage markers and no-ops.
pub open spec fn second_stmts_ok(stmts: Seq<StatementKind>, a: usize, b: usize) -> bool {
    forall|i: int|
        0 <= i < stmts.len() ==> match #[trigger] stmts[i] {
            StatementKind::Assign(place, rv) => place.local != b && !rvalue_reads(rv, a),
            StatementKind::StorageLive(_) => true,
            StatementKind::StorageDead(_) => true,
            StatementKind::Nop => true,
            _ => false,
        }
}

/// The pair of calls starting at block `bb_a` that the 2-way form forks:
/// (first block, second block, block after, arity, first destination,
/// second destination, passthrough blocks between them).
pub open spec fn invoke_pair_at(body: Body, infos: Seq<CalleeInfo>, helpers: Seq<bool>, bb_a: int) -> Option<
    (usize, usize, usize, usize, usize, usize, Seq<usize>),
> {
    match call_parts(body, bb_a) {
        None => None,
        Some((p1, args1, a, after)) => {
            let arity = args1.len();
            let walk = passthrough(body, after, a, None, 8);
            if arity > 4 {
                None
            } else {
                match walk.0 {
                    None => None,
                    Some(bb_b) => match call_parts(body, bb_b as int) {
                        None => None,
                        Some((p2, args2, b, bb_c)) => {
                            let i1 = infos[bb_a];
                            let i2 = infos[bb_b as int];
                            if args2.len() == arity && arity < helpers.len() && helpers[arity as int] && a != b
                                && !blocks_assign(body, walk.1, b) && callee_allowed(i1, p1, false)
                                && callee_allowed(i2, p2, false) && !any_op_reads(args2, a) && second_stmts_ok(
                                stmts_of(body, bb_b as int),
                                a,
                                b,
                            ) && i1.invoke_pure && i2.invoke_pure && i1.cost >= MIN_PARALLEL_INVOKE_BODY_COST
                                && i2.cost >= MIN_PARALLEL_INVOKE_BODY_COST && i1.cost <= times_ten_sat(i2.cost)
                                && i2.cost <= times_ten_sat(i1.cost) && i1.sig_inputs == arity && i2.sig_inputs
                                == arity && i1.output_matches_dest && i2.output_matches_dest {
                                Some((bb_a as usize, bb_b, bb_c, arity as usize, a, b, walk.1))
                            } else {
                                None
                            }
                        },
                    },
                }
            }
        },
    }
}

/// The pairs found in the first `m` blocks, in block order.
pub open spec fn invoke_pairs(body: Body, infos: Seq<CalleeInfo>, helpers: Seq<bool>, m: nat) -> Seq<
    (usize, usize, usize, usize, usize, usize, Seq<usize>),
>
    decreases m,
{
    if m == 0 {
        Seq::empty()
    } else {
        invoke_pairs(body, infos, helpers, (m - 1) as nat) + match invoke_pair_at(body, infos, helpers, m - 1) {
            Some(p) => seq![p],
            None => Seq::empty(),
        }
    }
}

/// Two independent calls to fork.
#[derive(Clone, Debug)]
pub struct InvokePair {
    pub bb_a: usize,
    pub bb_b: usize,
    pub bb_c: usize,
    pub arity: usize,
    pub a_local: usize,
    pub b_local: usize,
    /// Blocks passed through between the calls, whose statements move
    /// ahead of the fork.
    pub passthrough: Vec<usize>,
}

impl InvokePair {
    pub open spec fn view_tuple(&self) -> (usize, usize, usize, usize, usize, usize, Seq<usize>) {
        (self.bb_a, self.bb_b, self.bb_c, self.arity, self.a_local, self.b_local, self.passthrough@)
    }
}

/// The passthrough result stays inside the body.
pub(crate) proof fn lemma_passthrough_in_range(body: Body, current: usize, tainted: usize, forbidden: Option<usize>, steps: nat)
    requires
        body.targets_valid(),
        body.all_terminated(),
        current < body.num_blocks(),
    ensures
        passthrough(body, current, tainted, forbidden, steps).0 matches Some(b) ==> b < body.num_blocks(),
        forall|k: int|
            0 <= k < passthrough(body, current, tainted, forbidden, steps).1.len() ==> #[trigger] passthrough(
                body,
                current,
                tainted,
                forbidden,
                steps,
            ).1[k] < body.num_blocks(),
    decreases steps,
{
    if steps > 0 {
        if crate::shape::block_passes(stmts_of(body, current as int), tainted, forbidden) {
            match term_of(body, current as int) {
                Some(TerminatorKind::Goto { target }) => {
                    assert(crate::mir::terminator_targets_ok(body.basic_blocks@[current as int].terminator->0, body.num_blocks()));
                    lemma_passthrough_in_range(body, target, tainted, forbidden, (steps - 1) as nat);
                    let rest = passthrough(body, target, tainted, forbidden, (steps - 1) as nat);
                    assert forall|k: int| 0 <= k < (seq![current] + rest.1).len() implies #[trigger] (seq![current] + rest.1)[k] < body.num_blocks() by {
                        if k > 0 {
                            assert((seq![current] + rest.1)[k] == rest.1[k - 1]);
                        }
                    }
                },
                _ => {},
            }
        }
    }
}

pub(crate) fn call_parts_of(body: &Body, bb: usize) -> (r: Option<(&String, &Vec<Operand>, usize, usize)>)
    requires
        bb < body.num_blocks(),
    ensures
        match r {
            None => call_parts(*body, bb as int) is None,
            Some((p, args, d, t)) => call_parts(*body, bb as int) == Some((p@, args@, d, t)),
        },
{
    match &body.basic_blocks[bb].terminator {
        Some(TerminatorKind::Call { func, args, destination, target, .. }) => {
            if destination.projection.len() != 0 {
                return None;
            }
            match (func, target) {
                (Operand::Constant(Const::FnDef { path }), Some(t)) => Some((path, args, destination.local, *t)),
                _ => None,
            }
        },
        _ => None,
    }
}

fn args_read_local(args: &Vec<Operand>, l: usize) -> (r: bool)
    ensures
        r == any_op_reads(args@, l),
{
    let mut i: usize = 0;
    while i < args.len()
        invariant
            i <= args@.len(),
            forall|j: int| 0 <= j < i ==> !#[trigger] op_reads(args@[j], l),
        decreases args@.len() - i,
    {
        match &args[i] {
            Operand::Copy(p) | Operand::Move(p) => {
                if p.local == l {
                    assert(op_reads(args@[i as int], l));
                    return true;
                }
            },
            _ => {},
        }
        i = i + 1;
    }
    false
}

fn stmts_assign_local(stmts: &Vec<StatementKind>, l: usize) -> (r: bool)
    ensures
        r == assigns_local(stmts@, l),
{
    let mut i: usize = 0;
    while i < stmts.len()
        invariant
            i <= stmts@.len(),
            forall|j: int| 0 <= j < i ==> !(#[trigger] stmts@[j] matches StatementKind::Assign(place, _) && place.local == l),
        decreases stmts@.len() - i,
    {
        match &stmts[i] {
            StatementKind::Assign(place, _) => {
                if place.local == l {
                    assert(stmts@[i as int] matches StatementKind::Assign(place, _) && place.local == l);
                    return true;
                }
            },
            _ => {},
        }
        i = i + 1;
    }
    false
}

fn blocks_assign_local(body: &Body, blocks: &Vec<usize>, l: usize) -> (r: bool)
    requires
        forall|k: int| 0 <= k < blocks@.len() ==> #[trigger] blocks@[k] < body.num_blocks(),
    ensures
        r == blocks_assign(*body, blocks@, l),
{
    let mut k: usize = 0;
    while k < blocks.len()
        invariant
            k <= blocks@.len(),
            forall|j: int| 0 <= j < blocks@.len() ==> #[trigger] blocks@[j] < body.num_blocks(),
            forall|j: int| 0 <= j < k ==> !#[trigger] assigns_local(stmts_of(*body, blocks@[j] as int), l),
        decreases blocks@.len() - k,
    {
        if stmts_assign_local(&body.basic_blocks[blocks[k]].statements, l) {
            assert(assigns_local(stmts_of(*body, blocks@[k as int] as int), l));
            return true;
        }
        k = k + 1;
    }
    false
}

fn second_stmts_ok_exec(stmts: &Vec<StatementKind>, a: usize, b: usize) -> (r: bool)
    ensures
        r == second_stmts_ok(stmts@, a, b),
{
    let mut i: usize = 0;
    while i < stmts.len()
        invariant
            i <= stmts@.len(),
            forall|j: int|
                0 <= j < i ==> match #[trigger] stmts@[j] {
                    StatementKind::Assign(place, rv) => place.local != b && !rvalue_reads(rv, a),
                    StatementKind::StorageLive(_) => true,
                    StatementKind::StorageDead(_) => true,
                    StatementKind::Nop => true,
                    _ => false,
                },
        decreases stmts@.len() - i,
    {
        let ok = match &stmts[i] {
            StatementKind::Assign(place, rvalue) => place.local != b && !rvalue_reads_local(rvalue, a),
            StatementKind::StorageLive(_) | StatementKind::StorageDead(_) | StatementKind::Nop => true,
            _ => false,
        };
        if !ok {
            return false;
        }
        i = i + 1;
    }
    true
}

fn pair_costs_ok(c1: usize, c2: usize) -> (r: bool)
    ensures
        r == (c1 >= MIN_PARALLEL_INVOKE_BODY_COST && c2 >= MIN_PARALLEL_INVOKE_BODY_COST && c1
            <= times_ten_sat(c2) && c2 <= times_ten_sat(c1)),
{
    let costs = vec![c1, c2];
    let r = invoke_costs_ok(&costs);
    proof {
        assert(costs@[0] == c1);
        assert(costs@[1] == c2);
        if r {
            assert(costs@[0] <= times_ten_sat(costs@[1]));
            assert(costs@[1] <= times_ten_sat(costs@[0]));
        } else if c1 >= MIN_PARALLEL_INVOKE_BODY_COST && c2 >= MIN_PARALLEL_INVOKE_BODY_COST {
            assert(costs@[0] <= times_ten_sat(costs@[0]));
            assert(costs@[1] <= times_ten_sat(costs@[1]));
        }
    }
    r
}

/// The pair of calls starting at `bb_a`, if the 2-way form forks them.
fn invoke_pair_from(body: &Body, infos: &Vec<CalleeInfo>, helpers: &Vec<bool>, bb_a: usize) -> (r: Option<InvokePair>)
    requires
        body.targets_valid(),
        body.all_terminated(),
        bb_a < body.num_blocks(),
        infos@.len() == body.num_blocks(),
    ensures
        match r {
            None => invoke_pair_at(*body, infos@, helpers@, bb_a as int) is None,
            Some(p) => invoke_pair_at(*body, infos@, helpers@, bb_a as int) == Some(p.view_tuple()),
        },
{
    let (p1, args1, a_local, after) = match call_parts_of(body, bb_a) {
        Some(parts) => parts,
        None => {
            return None;
        },
    };
    proof {
        assert(body.basic_blocks@[bb_a as int].terminator is Some);
        assert(crate::mir::terminator_targets_ok(body.basic_blocks@[bb_a as int].terminator->0, body.num_blocks()));
    }
    // arity 0..=4 only
    let arity = args1.len();
    if arity > 4 {
        return None;
    }
    // skip Goto passthroughs to bb_b
    let mut between: Vec<usize> = Vec::new();
    proof {
        lemma_passthrough_in_range(*body, after, a_local, None, 8);
    }
    let bb_b = match walk_passthrough_blocks(body, after, a_local, None, 8, &mut between) {
        Some(b) => b,
        None => {
            return None;
        },
    };
    assert(between@ =~= passthrough(*body, after, a_local, None, 8).1);
    let (p2, args2, b_local, bb_c) = match call_parts_of(body, bb_b) {
        Some(parts) => parts,
        None => {
            return None;
        },
    };
    // same arity only; the helper for it must exist
    if args2.len() != arity || arity >= helpers.len() || !helpers[arity] || a_local == b_local {
        return None;
    }
    // re-check passthrough stmts against b_local
    if blocks_assign_local(body, &between, b_local) {
        return None;
    }
    let i1 = infos[bb_a];
    let i2 = infos[bb_b];
    // reject trivial, cross-crate, sysroot callees
    if !i1.is_local || i1.in_sysroot || is_trivial_callee(p1.as_str(), false) {
        return None;
    }
    if !i2.is_local || i2.in_sysroot || is_trivial_callee(p2.as_str(), false) {
        return None;
    }
    // independence: f2 args must not read _a
    if args_read_local(args2, a_local) {
        return None;
    }
    // bb_b pre-call stmts, same independence rules
    if !second_stmts_ok_exec(&body.basic_blocks[bb_b].statements, a_local, b_local) {
        return None;
    }
    if !i1.invoke_pure || !i2.invoke_pure {
        return None;
    }
    // cost gate, weighted estimator at depth 1
    if !pair_costs_ok(i1.cost, i2.cost) {
        return None;
    }
    if i1.sig_inputs != arity || i2.sig_inputs != arity || !i1.output_matches_dest || !i2.output_matches_dest {
        return None;
    }
    Some(
        InvokePair {
            bb_a,
            bb_b,
            bb_c,
            arity,
            a_local,
            b_local,
            passthrough: between,
        },
    )
}

/// The pairs of independent calls that the 2-way form forks, in block order.
/// `infos` holds what the compiler says of each block's callee, and
/// `helpers[m]` whether the runtime has a 2-way helper for arity `m`.
pub fn find_invoke_pairs(body: &Body, infos: &Vec<CalleeInfo>, helpers: &Vec<bool>) -> (r: Vec<InvokePair>)
    requires
        body.targets_valid(),
        body.all_terminated(),
        infos@.len() == body.num_blocks(),
    ensures
        r@.len() == invoke_pairs(*body, infos@, helpers@, body.num_blocks()).len(),
        forall|k: int| 0 <= k < r@.len() ==> (#[trigger] r@[k]).view_tuple() == invoke_pairs(
            *body,
            infos@,
            helpers@,
            body.num_blocks(),
        )[k],
{
    let mut plans: Vec<InvokePair> = Vec::new();
    let mut bb: usize = 0;
    while bb < body.basic_blocks.len()
        invariant
            bb <= body.num_blocks(),
            body.targets_valid(),
            body.all_terminated(),
            infos@.len() == body.num_blocks(),
            plans@.len() == invoke_pairs(*body, infos@, helpers@, bb as nat).len(),
            forall|k: int| 0 <= k < plans@.len() ==> (#[trigger] plans@[k]).view_tuple() == invoke_pairs(
                *body,
                infos@,
                helpers@,
                bb as nat,
            )[k],
        decreases body.num_blocks() - bb,
    {
        let ghost prev = invoke_pairs(*body, infos@, helpers@, bb as nat);
        match invoke_pair_from(body, infos, helpers, bb) {
            Some(p) => {
                plans.push(p);
            },
            None => {},
        }
        proof {
            let next = invoke_pairs(*body, infos@, helpers@, (bb + 1) as nat);
            assert forall|k: int| 0 <= k < plans@.len() implies (#[trigger] plans@[k]).view_tuple() == next[k] by {
                if k < prev.len() {
                    assert(next[k] == prev[k]);
                }
            }
        }
        bb = bb + 1;
    }
    plans
}

/// The pairs that the 2-way form forks in a body, or none when the
/// transformation is off, the body's crate is a sysroot crate, its function
/// belongs to the parallel runtime, or the body cannot match (fewer than 3
/// blocks, always-inline or naked, or no call).
pub fn parallel_invoke_pairs(
    body: &Body,
    enabled: bool,
    crate_name: &str,
    fn_name: &str,
    inline_always_or_naked: bool,
    infos: &Vec<CalleeInfo>,
    helpers: &Vec<bool>,
) -> (r: Vec<InvokePair>)
    requires
        body.targets_valid(),
        body.all_terminated(),
        infos@.len() == body.num_blocks(),
    ensures
        (!enabled || sysroot_crate(crate_name@) || runtime_fn_name(fn_name@, true) || quick_skip(
            *body,
            3,
            true,
            inline_always_or_naked,
        )) ==> r@.len() == 0,
        !(!enabled || sysroot_crate(crate_name@) || runtime_fn_name(fn_name@, true) || quick_skip(
            *body,
            3,
            true,
            inline_always_or_naked,
        )) ==> {
            &&& r@.len() == invoke_pairs(*body, infos@, helpers@, body.num_blocks()).len()
            &&& forall|k: int| 0 <= k < r@.len() ==> (#[trigger] r@[k]).view_tuple() == invoke_pairs(
                *body,
                infos@,
                helpers@,
                body.num_blocks(),
            )[k]
        },
{
    if !enabled || is_in_sysroot_crate(crate_name) || is_runtime_fn_name(fn_name, true) {
        return Vec::new();
    }
    // pre-filter: need 3 blocks and a Call
    if parallel_pass_quick_skip(body, 3, true, inline_always_or_naked) {
        return Vec::new();
    }
    find_invoke_pairs(body, infos, helpers)
}

// ── N-way chains ──────────────────────────────────────────────────────

/// Longest chain of calls forked at once.
pub const MAX_INVOKE_CHAIN: usize = 16;

/// Largest callee arity with runtime helpers.
pub const MAX_INVOKE_ARITY: usize = 20;

/// The runtime has an N-way helper for `n` calls of arity `m`
/// (`helpers[n - 3][m]`, for 3 to 16 calls and arities up to 20).
pub open spec fn helper_ok(helpers: Seq<Seq<bool>>, n: int, m: int) -> bool {
    3 <= n <= 16 && 0 <= m <= 20 && n - 3 < helpers.len() && m < helpers[n - 3].len() && helpers[n - 3][m]
}

/// A call that a chain may hold: to a function item of this crate outside
/// the sysroot, not trivial nor a runtime helper, with at most 20 arguments
/// matching its signature, and an output of the destination's type:
/// (arguments, destination, return block).
pub open spec fn chain_call(body: Body, infos: Seq<CalleeInfo>, bb: int) -> Option<(Seq<Operand>, usize, usize)> {
    match call_parts(body, bb) {
        None => None,
        Some((path, args, d, t)) => {
            let info = infos[bb];
            if info.is_local && !info.in_sysroot && !trivial_callee(path, true) && args.len() <= 20
                && info.sig_inputs == args.len() && info.output_matches_dest {
                Some((args, d, t))
            } else {
                None
            }
        },
    }
}

/// Some argument reads one of `ds`.
pub open spec fn reads_any(args: Seq<Operand>, ds: Seq<usize>) -> bool {
    exists|k: int| 0 <= k < ds.len() && #[trigger] any_op_reads(args, ds[k])
}

/// No assignment among `stmts` writes a local of `w` or reads one of `r`.
pub open spec fn stmts_clean(stmts: Seq<StatementKind>, w: Seq<usize>, r: Seq<usize>) -> bool {
    forall|i: int|
        0 <= i < stmts.len() ==> match #[trigger] stmts[i] {
            StatementKind::Assign(place, rv) => !w.contains(place.local) && !reads_any_rvalue(rv, r),
            _ => true,
        }
}

/// The right-hand side reads one of `ds`.
pub open spec fn reads_any_rvalue(rv: crate::mir::Rvalue, ds: Seq<usize>) -> bool {
    exists|k: int| 0 <= k < ds.len() && #[trigger] rvalue_reads(rv, ds[k])
}

/// The next call of a chain after block `after`, whose calls so far write
/// `dests` and cost `costs`: passthrough blocks (not reading the last
/// destination, at most 4), then a chain call of the same arity into a new
/// destination, reading none of `dests`, after statements that neither write
/// the destinations nor read the earlier ones, to a pure callee keeping the
/// costs balanced (and, when `identical` is asked, whose output is the
/// destination's declared type). Gives (block, passthrough blocks,
/// destination, return block, cost).
pub open spec fn next_link(
    body: Body,
    infos: Seq<CalleeInfo>,
    after: usize,
    dests: Seq<usize>,
    arity: nat,
    costs: Seq<usize>,
    identical: bool,
) -> Option<(usize, Seq<usize>, usize, usize, usize)> {
    let walk = passthrough(body, after, dests.last(), None, 4);
    match walk.0 {
        None => None,
        Some(nb) => match chain_call(body, infos, nb as int) {
            None => None,
            Some((args, d, t)) => {
                let info = infos[nb as int];
                if args.len() == arity && !dests.contains(d) && !reads_any(args, dests) && stmts_clean(
                    stmts_of(body, nb as int),
                    dests.push(d),
                    dests,
                ) && info.invoke_pure && costs_balanced(costs.push(info.cost)) && (!identical
                    || info.dest_ty_identical) {
                    Some((nb, walk.1, d, t, info.cost))
                } else {
                    None
                }
            },
        },
    }
}

/// A chain being built: (return block of its last call, destinations,
/// costs, call blocks, intermediate blocks whose statements move ahead).
pub type ChainState = (usize, Seq<usize>, Seq<usize>, Seq<usize>, Seq<usize>);

/// Extends a chain greedily, at most `fuel` more calls.
pub open spec fn extend_chain(body: Body, infos: Seq<CalleeInfo>, arity: nat, st: ChainState, fuel: nat) -> ChainState
    decreases fuel,
{
    if fuel == 0 {
        st
    } else {
        match next_link(body, infos, st.0, st.1, arity, st.2, true) {
            None => st,
            Some((nb, inter, d, t, c)) => extend_chain(
                body,
                infos,
                arity,
                (t, st.1.push(d), st.2.push(c), st.3.push(nb), st.4 + inter + seq![nb]),
                (fuel - 1) as nat,
            ),
        }
    }
}

/// The largest chain length from 3 to `len` with a helper, or 2 if none.
pub open spec fn best_n(helpers: Seq<Seq<bool>>, len: int, arity: int) -> int
    decreases len,
{
    if len < 3 {
        2
    } else if helper_ok(helpers, len, arity) {
        len
    } else {
        best_n(helpers, len - 1, arity)
    }
}

/// A chain of calls to fork: (first block, block after, number of calls,
/// arity, destinations, intermediate blocks, call blocks).
pub type ChainView = (usize, usize, usize, usize, Seq<usize>, Seq<usize>, Seq<usize>);

/// The chain starting at block `bb_a`, with the blocks it consumes: three
/// calls at least (with pure callees of balanced costs), extended to four
/// and greedily beyond when a 4-way helper exists, cut to the longest
/// length with a helper; else the 3-way chain when its helper exists.
pub open spec fn chain_at(body: Body, infos: Seq<CalleeInfo>, helpers: Seq<Seq<bool>>, bb_a: int) -> Option<(ChainView, Seq<usize>)> {
    match chain_call(body, infos, bb_a) {
        None => None,
        Some((args1, d1, t1)) => {
            let arity = args1.len();
            let i1 = infos[bb_a];
            if !(i1.invoke_pure && i1.cost >= MIN_PARALLEL_INVOKE_BODY_COST) {
                None
            } else {
                match next_link(body, infos, t1, seq![d1], arity, seq![i1.cost], false) {
                    None => None,
                    Some((bb_b, inter1, d2, t2, c2)) => match next_link(
                        body,
                        infos,
                        t2,
                        seq![d1, d2],
                        arity,
                        seq![i1.cost, c2],
                        false,
                    ) {
                        None => None,
                        Some((bb_c, inter2, d3, t3, c3)) => {
                            let base = inter1 + seq![bb_b] + inter2 + seq![bb_c];
                            let four = if helper_ok(helpers, 4, arity as int) {
                                next_link(body, infos, t3, seq![d1, d2, d3], arity, seq![i1.cost, c2, c3], false)
                            } else {
                                None
                            };
                            match four {
                                Some((bb_d, inter3, d4, t4, c4)) => if !infos[bb_d as int].dest_ty_identical {
                                    None
                                } else {
                                    let st = extend_chain(
                                        body,
                                        infos,
                                        arity,
                                        (
                                            t4,
                                            seq![d1, d2, d3, d4],
                                            seq![i1.cost, c2, c3, c4],
                                            seq![bb_a as usize, bb_b, bb_c, bb_d],
                                            base + inter3 + seq![bb_d],
                                        ),
                                        (MAX_INVOKE_CHAIN - 4) as nat,
                                    );
                                    let n = best_n(helpers, st.1.len() as int, arity as int);
                                    if n < 3 {
                                        None
                                    } else {
                                        Some(((bb_a as usize, st.0, n as usize, arity as usize, st.1.take(n), st.4, st.3.take(n)), st.3))
                                    }
                                },
                                None => if helper_ok(helpers, 3, arity as int) {
                                    Some(((bb_a as usize, t3, 3usize, arity as usize, seq![d1, d2, d3], base, seq![bb_a as usize, bb_b, bb_c]), seq![bb_a as usize, bb_b]))
                                } else {
                                    None
                                },
                            }
                        },
                    },
                }
            }
        },
    }
}

/// The chains found scanning the first `m` blocks, skipping blocks an
/// earlier chain consumed, with the consumed blocks.
pub open spec fn chains_upto(body: Body, infos: Seq<CalleeInfo>, helpers: Seq<Seq<bool>>, m: nat) -> (Seq<ChainView>, Set<usize>)
    decreases m,
{
    if m == 0 {
        (Seq::empty(), Set::empty())
    } else {
        let prev = chains_upto(body, infos, helpers, (m - 1) as nat);
        if prev.1.contains((m - 1) as usize) {
            prev
        } else {
            match chain_at(body, infos, helpers, m - 1) {
                None => prev,
                Some((c, used)) => (prev.0.push(c), prev.1 + used.to_set()),
            }
        }
    }
}

/// A chain of independent calls to fork.
#[derive(Clone, Debug)]
pub struct InvokeChain {
    pub bb_a: usize,
    /// The return block of the chain's last call.
    pub bb_after: usize,
    pub n_calls: usize,
    pub arity: usize,
    pub dest_locals: Vec<usize>,
    /// Blocks whose statements move ahead of the fork, in order.
    pub intermediate: Vec<usize>,
    /// The blocks whose terminators are the forked calls, in order.
    pub call_blocks: Vec<usize>,
}

impl InvokeChain {
    pub open spec fn view_tuple(&self) -> ChainView {
        (self.bb_a, self.bb_after, self.n_calls, self.arity, self.dest_locals@, self.intermediate@, self.call_blocks@)
    }
}

fn helper_ok_exec(helpers: &Vec<Vec<bool>>, n: usize, m: usize) -> (r: bool)
    ensures
        r == helper_ok(helpers@.map_values(|v: Vec<bool>| v@), n as int, m as int),
{
    if n < 3 || n > 16 || m > 20 || n - 3 >= helpers.len() || m >= helpers[n - 3].len() {
        return false;
    }
    helpers[n - 3][m]
}

fn chain_call_of<'a>(body: &'a Body, infos: &Vec<CalleeInfo>, bb: usize) -> (r: Option<(&'a Vec<Operand>, usize, usize)>)
    requires
        bb < body.num_blocks(),
        infos@.len() == body.num_blocks(),
    ensures
        match r {
            None => chain_call(*body, infos@, bb as int) is None,
            Some((args, d, t)) => chain_call(*body, infos@, bb as int) == Some((args@, d, t)),
        },
{
    let (path, args, d, t) = match call_parts_of(body, bb) {
        Some(parts) => parts,
        None => {
            return None;
        },
    };
    let info = infos[bb];
    if info.is_local && !info.in_sysroot && !is_trivial_callee(path.as_str(), true) && args.len() <= 20
        && info.sig_inputs == args.len() && info.output_matches_dest {
        Some((args, d, t))
    } else {
        None
    }
}

fn reads_any_exec(args: &Vec<Operand>, ds: &Vec<usize>) -> (r: bool)
    ensures
        r == reads_any(args@, ds@),
{
    let mut k: usize = 0;
    while k < ds.len()
        invariant
            k <= ds@.len(),
            forall|j: int| 0 <= j < k ==> !#[trigger] any_op_reads(args@, ds@[j]),
        decreases ds@.len() - k,
    {
        if args_read_local(args, ds[k]) {
            return true;
        }
        k = k + 1;
    }
    false
}

fn rvalue_reads_any(rv: &crate::mir::Rvalue, ds: &Vec<usize>) -> (r: bool)
    ensures
        r == reads_any_rvalue(*rv, ds@),
{
    let mut k: usize = 0;
    while k < ds.len()
        invariant
            k <= ds@.len(),
            forall|j: int| 0 <= j < k ==> !#[trigger] rvalue_reads(*rv, ds@[j]),
        decreases ds@.len() - k,
    {
        if rvalue_reads_local(rv, ds[k]) {
            return true;
        }
        k = k + 1;
    }
    false
}

fn stmts_clean_exec(stmts: &Vec<StatementKind>, w: &Vec<usize>, r: &Vec<usize>) -> (res: bool)
    ensures
        res == stmts_clean(stmts@, w@, r@),
{
    let mut i: usize = 0;
    while i < stmts.len()
        invariant
            i <= stmts@.len(),
            forall|j: int|
                0 <= j < i ==> match #[trigger] stmts@[j] {
                    StatementKind::Assign(place, rv) => !w@.contains(place.local) && !reads_any_rvalue(rv, r@),
                    _ => true,
                },
        decreases stmts@.len() - i,
    {
        match &stmts[i] {
            StatementKind::Assign(place, rvalue) => {
                if crate::detect::contains_usize(w, place.local) || rvalue_reads_any(rvalue, r) {
                    return false;
                }
            },
            _ => {},
        }
        i = i + 1;
    }
    true
}

fn vec_push_copy(v: &Vec<usize>, x: usize) -> (r: Vec<usize>)
    ensures
        r@ == v@.push(x),
{
    let mut r: Vec<usize> = Vec::new();
    let mut i: usize = 0;
    while i < v.len()
        invariant
            i <= v@.len(),
            r@ == v@.take(i as int),
        decreases v@.len() - i,
    {
        r.push(v[i]);
        assert(v@.take(i + 1) =~= v@.take(i as int).push(v@[i as int]));
        i = i + 1;
    }
    assert(v@.take(i as int) =~= v@);
    r.push(x);
    r
}

fn next_link_exec(
    body: &Body,
    infos: &Vec<CalleeInfo>,
    after: usize,
    dests: &Vec<usize>,
    arity: usize,
    costs: &Vec<usize>,
    identical: bool,
) -> (r: Option<(usize, Vec<usize>, usize, usize, usize)>)
    requires
        body.targets_valid(),
        body.all_terminated(),
        infos@.len() == body.num_blocks(),
        after < body.num_blocks(),
        dests@.len() >= 1,
    ensures
        match r {
            None => next_link(*body, infos@, after, dests@, arity as nat, costs@, identical) is None,
            Some((nb, inter, d, t, c)) => next_link(*body, infos@, after, dests@, arity as nat, costs@, identical)
                == Some((nb, inter@, d, t, c)) && nb < body.num_blocks() && t < body.num_blocks() && (forall|k: int|
                0 <= k < inter@.len() ==> #[trigger] inter@[k] < body.num_blocks()),
        },
{
    let last = dests[dests.len() - 1];
    let mut inter: Vec<usize> = Vec::new();
    proof {
        lemma_passthrough_in_range(*body, after, last, None, 4);
    }
    let nb = match walk_passthrough_blocks(body, after, last, None, 4, &mut inter) {
        Some(b) => b,
        None => {
            return None;
        },
    };
    assert(inter@ =~= passthrough(*body, after, last, None, 4).1);
    let (args, d, t) = match chain_call_of(body, infos, nb) {
        Some(c) => c,
        None => {
            return None;
        },
    };
    proof {
        assert(body.basic_blocks@[nb as int].terminator is Some);
        assert(crate::mir::terminator_targets_ok(body.basic_blocks@[nb as int].terminator->0, body.num_blocks()));
    }
    if args.len() != arity || crate::detect::contains_usize(dests, d) || reads_any_exec(args, dests) {
        return None;
    }
    let w = vec_push_copy(dests, d);
    if !stmts_clean_exec(&body.basic_blocks[nb].statements, &w, dests) {
        return None;
    }
    let info = infos[nb];
    if !info.invoke_pure {
        return None;
    }
    let cs = vec_push_copy(costs, info.cost);
    if !invoke_costs_ok(&cs) {
        return None;
    }
    if identical && !info.dest_ty_identical {
        return None;
    }
    Some((nb, inter, d, t, info.cost))
}

fn vec_copy(v: &Vec<usize>) -> (r: Vec<usize>)
    ensures
        r@ == v@,
{
    let mut r: Vec<usize> = Vec::new();
    append_blocks(&mut r, v);
    assert(r@ =~= v@);
    r
}

fn append_blocks(v: &mut Vec<usize>, more: &Vec<usize>)
    ensures
        final(v)@ == old(v)@ + more@,
{
    let mut i: usize = 0;
    while i < more.len()
        invariant
            i <= more@.len(),
            v@ == old(v)@ + more@.take(i as int),
        decreases more@.len() - i,
    {
        v.push(more[i]);
        assert(more@.take(i + 1) =~= more@.take(i as int).push(more@[i as int]));
        i = i + 1;
    }
    assert(more@.take(i as int) =~= more@);
}

pub(crate) proof fn lemma_best_n(helpers: Seq<Seq<bool>>, len: int, arity: int)
    ensures
        best_n(helpers, len, arity) >= 2,
        best_n(helpers, len, arity) >= 3 ==> best_n(helpers, len, arity) <= len,
    decreases len,
{
    if len >= 3 && !helper_ok(helpers, len, arity) {
        lemma_best_n(helpers, len - 1, arity);
    }
}

fn best_n_exec(helpers: &Vec<Vec<bool>>, len: usize, arity: usize) -> (r: usize)
    ensures
        r == best_n(helpers@.map_values(|v: Vec<bool>| v@), len as int, arity as int),
{
    let mut n = len;
    while n >= 3
        invariant
            n <= len,
            best_n(helpers@.map_values(|v: Vec<bool>| v@), len as int, arity as int) == best_n(
                helpers@.map_values(|v: Vec<bool>| v@),
                n as int,
                arity as int,
            ),
        decreases n,
    {
        if helper_ok_exec(helpers, n, arity) {
            return n;
        }
        n = n - 1;
    }
    2
}

/// The state of a chain being extended, with its facts.
pub open spec fn chain_state_ok(body: Body, st: ChainState) -> bool {
    &&& st.0 < body.num_blocks()
    &&& st.1.len() >= 1
    &&& forall|k: int| 0 <= k < st.3.len() ==> #[trigger] st.3[k] < body.num_blocks()
}

/// The chain starting at block `bb_a`, with the blocks it consumes.
fn chain_from(body: &Body, infos: &Vec<CalleeInfo>, helpers: &Vec<Vec<bool>>, bb_a: usize) -> (r: Option<(InvokeChain, Vec<usize>)>)
    requires
        body.targets_valid(),
        body.all_terminated(),
        bb_a < body.num_blocks(),
        infos@.len() == body.num_blocks(),
    ensures
        match r {
            None => chain_at(*body, infos@, helpers@.map_values(|v: Vec<bool>| v@), bb_a as int) is None,
            Some((c, used)) => chain_at(*body, infos@, helpers@.map_values(|v: Vec<bool>| v@), bb_a as int)
                == Some((c.view_tuple(), used@)) && forall|k: int| 0 <= k < used@.len() ==> #[trigger] used@[k]
                < body.num_blocks(),
        },
{
    let ghost hv = helpers@.map_values(|v: Vec<bool>| v@);
    let (args1, d1, t1) = match chain_call_of(body, infos, bb_a) {
        Some(c) => c,
        None => {
            return None;
        },
    };
    proof {
        assert(body.basic_blocks@[bb_a as int].terminator is Some);
        assert(crate::mir::terminator_targets_ok(body.basic_blocks@[bb_a as int].terminator->0, body.num_blocks()));
    }
    // first callee sets arity, rest must match
    let arity = args1.len();
    let i1 = infos[bb_a];
    if !(i1.invoke_pure && i1.cost >= MIN_PARALLEL_INVOKE_BODY_COST) {
        return None;
    }
    let dests1 = vec![d1];
    let costs1 = vec![i1.cost];
    proof {
        assert(dests1@ =~= seq![d1]);
        assert(costs1@ =~= seq![i1.cost]);
    }
    let (bb_b, inter1, d2, t2, c2) = match next_link_exec(body, infos, t1, &dests1, arity, &costs1, false) {
        Some(l) => l,
        None => {
            return None;
        },
    };
    let dests2 = vec![d1, d2];
    let costs2 = vec![i1.cost, c2];
    proof {
        assert(dests2@ =~= seq![d1, d2]);
        assert(costs2@ =~= seq![i1.cost, c2]);
    }
    let (bb_c, inter2, d3, t3, c3) = match next_link_exec(body, infos, t2, &dests2, arity, &costs2, false) {
        Some(l) => l,
        None => {
            return None;
        },
    };
    let mut intermediate: Vec<usize> = Vec::new();
    append_blocks(&mut intermediate, &inter1);
    intermediate.push(bb_b);
    append_blocks(&mut intermediate, &inter2);
    intermediate.push(bb_c);
    proof {
        assert(intermediate@ =~= inter1@ + seq![bb_b] + inter2@ + seq![bb_c]);
    }
    let dests3 = vec![d1, d2, d3];
    let costs3 = vec![i1.cost, c2, c3];
    proof {
        assert(dests3@ =~= seq![d1, d2, d3]);
        assert(costs3@ =~= seq![i1.cost, c2, c3]);
    }
    let four = if helper_ok_exec(helpers, 4, arity) {
        next_link_exec(body, infos, t3, &dests3, arity, &costs3, false)
    } else {
        None
    };
    match four {
        Some((bb_d, inter3, d4, t4, c4)) => {
            if !infos[bb_d].dest_ty_identical {
                return None;
            }
            // 4-way base plan, greedily extend to 5..16
            append_blocks(&mut intermediate, &inter3);
            intermediate.push(bb_d);
            let mut dests = vec![d1, d2, d3, d4];
            let mut costs = vec![i1.cost, c2, c3, c4];
            let mut chain_bbs = vec![bb_a, bb_b, bb_c, bb_d];
            let mut after_target = t4;
            let ghost st0: ChainState = (t4, seq![d1, d2, d3, d4], seq![i1.cost, c2, c3, c4], seq![bb_a, bb_b, bb_c, bb_d], inter1@ + seq![bb_b] + inter2@ + seq![bb_c] + inter3@ + seq![bb_d]);
            proof {
                assert(dests@ =~= st0.1);
                assert(costs@ =~= st0.2);
                assert(chain_bbs@ =~= st0.3);
                assert(intermediate@ =~= st0.4);
            }
            while dests.len() < MAX_INVOKE_CHAIN
                invariant
                    body.targets_valid(),
                    body.all_terminated(),
                    infos@.len() == body.num_blocks(),
                    4 <= dests@.len() <= MAX_INVOKE_CHAIN,
                    chain_bbs@.len() == dests@.len(),
                    after_target < body.num_blocks(),
                    forall|k: int| 0 <= k < chain_bbs@.len() ==> #[trigger] chain_bbs@[k] < body.num_blocks(),
                    extend_chain(*body, infos@, arity as nat, st0, (MAX_INVOKE_CHAIN - 4) as nat) == extend_chain(
                        *body,
                        infos@,
                        arity as nat,
                        (after_target, dests@, costs@, chain_bbs@, intermediate@),
                        (MAX_INVOKE_CHAIN - dests@.len()) as nat,
                    ),
                ensures
                    after_target < body.num_blocks(),
                    4 <= dests@.len() <= MAX_INVOKE_CHAIN,
                    chain_bbs@.len() == dests@.len(),
                    forall|k: int| 0 <= k < chain_bbs@.len() ==> #[trigger] chain_bbs@[k] < body.num_blocks(),
                    extend_chain(*body, infos@, arity as nat, st0, (MAX_INVOKE_CHAIN - 4) as nat) == (
                        after_target,
                        dests@,
                        costs@,
                        chain_bbs@,
                        intermediate@,
                    ),
                decreases MAX_INVOKE_CHAIN - dests@.len(),
            {
                let link = next_link_exec(body, infos, after_target, &dests, arity, &costs, true);
                let ghost cur: ChainState = (after_target, dests@, costs@, chain_bbs@, intermediate@);
                match link {
                    None => {
                        break;
                    },
                    Some((nb, inter, d, t, c)) => {
                        dests.push(d);
                        costs.push(c);
                        chain_bbs.push(nb);
                        append_blocks(&mut intermediate, &inter);
                        intermediate.push(nb);
                        after_target = t;
                        proof {
                            assert((after_target, dests@, costs@, chain_bbs@, intermediate@) == (t, cur.1.push(d), cur.2.push(c), cur.3.push(nb), cur.4 + inter@ + seq![nb]));
                        }
                    },
                }
            }
            // largest N with helper, drop trailing entries
            let n = best_n_exec(helpers, dests.len(), arity);
            proof {
                lemma_best_n(hv, dests@.len() as int, arity as int);
            }
            if n < 3 {
                return None;
            }
            dests.truncate(n);
            let mut calls = vec_copy(&chain_bbs);
            calls.truncate(n);
            Some((InvokeChain { bb_a, bb_after: after_target, n_calls: n, arity, dest_locals: dests, intermediate, call_blocks: calls }, chain_bbs))
        },
        None => {
            if helper_ok_exec(helpers, 3, arity) {
                // 3-way plan (no 4th call available).
                let used = vec![bb_a, bb_b];
                let calls = vec![bb_a, bb_b, bb_c];
                proof {
                    assert(used@ =~= seq![bb_a, bb_b]);
                    assert(calls@ =~= seq![bb_a, bb_b, bb_c]);
                }
                Some((InvokeChain { bb_a, bb_after: t3, n_calls: 3, arity, dest_locals: dests3, intermediate, call_blocks: calls }, used))
            } else {
                None
            }
        },
    }
}



/// The chains of independent calls that the N-way form forks, in block
/// order, each starting at a block no earlier chain consumed. `infos` holds
/// what the compiler says of each block's callee, and `helpers[n - 3][m]`
/// whether the runtime has a helper for `n` calls of arity `m`.
pub fn find_invoke_chains(body: &Body, infos: &Vec<CalleeInfo>, helpers: &Vec<Vec<bool>>) -> (r: Vec<InvokeChain>)
    requires
        body.targets_valid(),
        body.all_terminated(),
        infos@.len() == body.num_blocks(),
    ensures
        r@.len() == chains_upto(*body, infos@, helpers@.map_values(|v: Vec<bool>| v@), body.num_blocks()).0.len(),
        forall|k: int| 0 <= k < r@.len() ==> (#[trigger] r@[k]).view_tuple() == chains_upto(
            *body,
            infos@,
            helpers@.map_values(|v: Vec<bool>| v@),
            body.num_blocks(),
        ).0[k],
{
    let ghost hv = helpers@.map_values(|v: Vec<bool>| v@);
    let n = body.basic_blocks.len();
    let mut consumed: Vec<bool> = vec![false; n];
    let mut plans: Vec<InvokeChain> = Vec::new();
    let mut bb: usize = 0;
    while bb < n
        invariant
            n == body.num_blocks(),
            bb <= n,
            body.targets_valid(),
            body.all_terminated(),
            infos@.len() == body.num_blocks(),
            hv == helpers@.map_values(|v: Vec<bool>| v@),
            consumed@.len() == n,
            forall|b: usize| #[trigger] chains_upto(*body, infos@, hv, bb as nat).1.contains(b) ==> b < n,
            forall|b: int| 0 <= b < n ==> (#[trigger] consumed@[b] <==> chains_upto(*body, infos@, hv, bb as nat).1.contains(b as usize)),
            plans@.len() == chains_upto(*body, infos@, hv, bb as nat).0.len(),
            forall|k: int| 0 <= k < plans@.len() ==> (#[trigger] plans@[k]).view_tuple() == chains_upto(
                *body,
                infos@,
                hv,
                bb as nat,
            ).0[k],
        decreases n - bb,
    {
        let ghost prev = chains_upto(*body, infos@, hv, bb as nat);
        if !consumed[bb] {
            match chain_from(body, infos, helpers, bb) {
                Some((c, used)) => {
                    plans.push(c);
                    let mut u: usize = 0;
                    while u < used.len()
                        invariant
                            u <= used@.len(),
                            consumed@.len() == n,
                            n == body.num_blocks(),
                            forall|k: int| 0 <= k < used@.len() ==> #[trigger] used@[k] < n,
                            forall|b: int|
                                0 <= b < n ==> (#[trigger] consumed@[b] <==> (prev.1.contains(b as usize)
                                    || used@.take(u as int).contains(b as usize))),
                        decreases used@.len() - u,
                    {
                        let ub = used[u];
                        consumed.set(ub, true);
                        proof {
                            assert(used@.take(u + 1) =~= used@.take(u as int).push(ub));
                            assert forall|b: int| 0 <= b < n implies (#[trigger] consumed@[b] <==> (prev.1.contains(b as usize)
                                || used@.take(u + 1).contains(b as usize))) by {
                                let t0 = used@.take(u as int);
                                let t1 = used@.take(u + 1);
                                if b == ub {
                                    assert(t1[u as int] == ub);
                                } else if t0.contains(b as usize) {
                                    let j = choose|j: int| 0 <= j < t0.len() && t0[j] == b as usize;
                                    assert(t1[j] == b as usize);
                                } else if t1.contains(b as usize) {
                                    let j = choose|j: int| 0 <= j < t1.len() && t1[j] == b as usize;
                                    assert(j < u);
                                    assert(t0[j] == b as usize);
                                }
                            }
                        }
                        u = u + 1;
                    }
                    proof {
                        assert(used@.take(u as int) =~= used@);
                        let next = chains_upto(*body, infos@, hv, (bb + 1) as nat);
                        assert(next.1 == prev.1 + used@.to_set());
                        assert forall|b: usize| #[trigger] next.1.contains(b) implies b < n by {
                            if used@.to_set().contains(b) {
                                assert(used@.contains(b));
                            }
                        }
                        assert forall|b: int| 0 <= b < n implies (#[trigger] consumed@[b] <==> next.1.contains(b as usize)) by {
                            if used@.contains(b as usize) {
                                assert(used@.to_set().contains(b as usize));
                            }
                            if used@.to_set().contains(b as usize) {
                                assert(used@.contains(b as usize));
                            }
                        }
                        assert forall|k: int| 0 <= k < plans@.len() implies (#[trigger] plans@[k]).view_tuple() == next.0[k] by {
                            if k < prev.0.len() {
                                assert(next.0[k] == prev.0[k]);
                            }
                        }
                    }
                },
                None => {},
            }
        }
        bb = bb + 1;
    }
    plans
}

/// The chains that the N-way form forks in a body, or none when the
/// transformation is off, the body's crate is a sysroot crate, its function
/// belongs to the parallel runtime, or the body cannot match (fewer than 4
/// blocks, always-inline or naked, or no call).
pub fn parallel_invoke_chains(
    body: &Body,
    enabled: bool,
    crate_name: &str,
    fn_name: &str,
    inline_always_or_naked: bool,
    infos: &Vec<CalleeInfo>,
    helpers: &Vec<Vec<bool>>,
) -> (r: Vec<InvokeChain>)
    requires
        body.targets_valid(),
        body.all_terminated(),
        infos@.len() == body.num_blocks(),
    ensures
        (!enabled || sysroot_crate(crate_name@) || runtime_fn_name(fn_name@, true) || quick_skip(
            *body,
            4,
            true,
            inline_always_or_naked,
        )) ==> r@.len() == 0,
        !(!enabled || sysroot_crate(crate_name@) || runtime_fn_name(fn_name@, true) || quick_skip(
            *body,
            4,
            true,
            inline_always_or_naked,
        )) ==> {
            &&& r@.len() == chains_upto(*body, infos@, helpers@.map_values(|v: Vec<bool>| v@), body.num_blocks()).0.len()
            &&& forall|k: int| 0 <= k < r@.len() ==> (#[trigger] r@[k]).view_tuple() == chains_upto(
                *body,
                infos@,
                helpers@.map_values(|v: Vec<bool>| v@),
                body.num_blocks(),
            ).0[k]
        },
{
    if !enabled || is_in_sysroot_crate(crate_name) || is_runtime_fn_name(fn_name, true) {
        return Vec::new();
    }
    if parallel_pass_quick_skip(body, 4, true, inline_always_or_naked) {
        return Vec::new();
    }
    find_invoke_chains(body, infos, helpers)
}


// ── Independence ──────────────────────────────────────────────────────

/// Block `bb` calls into destination `d` without reading any of `earlier`,
/// and its callee passed the purity check.
pub open spec fn call_ok(body: Body, infos: Seq<CalleeInfo>, bb: usize, d: usize, earlier: Seq<usize>) -> bool {
    match chain_call(body, infos, bb as int) {
        Some((args, dd, _t)) => dd == d && !reads_any(args, earlier) && infos[bb as int].invoke_pure,
        None => false,
    }
}

/// The calls of a chain: one destination each, pairwise distinct, each call
/// reading no earlier destination, each callee pure.
pub open spec fn chain_calls_ok(body: Body, infos: Seq<CalleeInfo>, dests: Seq<usize>, calls: Seq<usize>) -> bool {
    &&& dests.len() == calls.len()
    &&& forall|k: int| 0 <= k < calls.len() ==> #[trigger] call_ok(body, infos, calls[k], dests[k], dests.take(k))
    &&& forall|i: int, j: int| 0 <= i < j < dests.len() ==> dests[i] != dests[j]
}

proof fn lemma_next_link_ok(
    body: Body,
    infos: Seq<CalleeInfo>,
    after: usize,
    dests: Seq<usize>,
    arity: nat,
    costs: Seq<usize>,
    identical: bool,
)
    requires
        next_link(body, infos, after, dests, arity, costs, identical) is Some,
    ensures
        ({
            let l = next_link(body, infos, after, dests, arity, costs, identical)->0;
            &&& call_ok(body, infos, l.0, l.2, dests)
            &&& !dests.contains(l.2)
        }),
{
}

proof fn lemma_push_ok(body: Body, infos: Seq<CalleeInfo>, dests: Seq<usize>, calls: Seq<usize>, nb: usize, d: usize)
    requires
        chain_calls_ok(body, infos, dests, calls),
        call_ok(body, infos, nb, d, dests),
        !dests.contains(d),
    ensures
        chain_calls_ok(body, infos, dests.push(d), calls.push(nb)),
{
    let nd = dests.push(d);
    let nc = calls.push(nb);
    assert forall|k: int| 0 <= k < nc.len() implies #[trigger] call_ok(body, infos, nc[k], nd[k], nd.take(k)) by {
        if k < calls.len() {
            assert(nd.take(k) =~= dests.take(k));
            assert(nc[k] == calls[k] && nd[k] == dests[k]);
        } else {
            assert(nd.take(k) =~= dests);
        }
    }
    assert forall|i: int, j: int| 0 <= i < j < nd.len() implies nd[i] != nd[j] by {
        if j == dests.len() {
            assert(nd[i] == dests[i]);
            assert(dests.contains(dests[i]));
        }
    }
}

proof fn lemma_extend_ok(body: Body, infos: Seq<CalleeInfo>, arity: nat, st: ChainState, fuel: nat)
    requires
        chain_calls_ok(body, infos, st.1, st.3),
        st.1.len() >= 1,
    ensures
        chain_calls_ok(body, infos, extend_chain(body, infos, arity, st, fuel).1, extend_chain(body, infos, arity, st, fuel).3),
        extend_chain(body, infos, arity, st, fuel).1.len() >= st.1.len(),
    decreases fuel,
{
    if fuel > 0 {
        match next_link(body, infos, st.0, st.1, arity, st.2, true) {
            None => {},
            Some((nb, inter, d, t, c)) => {
                lemma_next_link_ok(body, infos, st.0, st.1, arity, st.2, true);
                lemma_push_ok(body, infos, st.1, st.3, nb, d);
                lemma_extend_ok(
                    body,
                    infos,
                    arity,
                    (t, st.1.push(d), st.2.push(c), st.3.push(nb), st.4 + inter + seq![nb]),
                    (fuel - 1) as nat,
                );
            },
        }
    }
}

proof fn lemma_take_ok(body: Body, infos: Seq<CalleeInfo>, dests: Seq<usize>, calls: Seq<usize>, n: int)
    requires
        chain_calls_ok(body, infos, dests, calls),
        0 <= n <= dests.len(),
    ensures
        chain_calls_ok(body, infos, dests.take(n), calls.take(n)),
{
    let td = dests.take(n);
    let tc = calls.take(n);
    assert forall|k: int| 0 <= k < tc.len() implies #[trigger] call_ok(body, infos, tc[k], td[k], td.take(k)) by {
        assert(td.take(k) =~= dests.take(k));
        assert(tc[k] == calls[k] && td[k] == dests[k]);
    }
    assert forall|i: int, j: int| 0 <= i < j < td.len() implies td[i] != td[j] by {
        assert(td[i] == dests[i] && td[j] == dests[j]);
    }
}

proof fn lemma_best_n_helper(helpers: Seq<Seq<bool>>, len: int, arity: int)
    requires
        best_n(helpers, len, arity) >= 3,
    ensures
        helper_ok(helpers, best_n(helpers, len, arity), arity),
    decreases len,
{
    if len >= 3 && !helper_ok(helpers, len, arity) {
        lemma_best_n_helper(helpers, len - 1, arity);
    }
}

/// Calls forked together are independent and pure: a chain holds at least
/// three calls, one destination per call, pairwise distinct; no call reads
/// the destination of an earlier one; every callee passed the purity check;
/// and the runtime has a helper for that many calls of that arity.
pub proof fn lemma_chain_independent(body: Body, infos: Seq<CalleeInfo>, helpers: Seq<Seq<bool>>, bb_a: int)
    requires
        0 <= bb_a < body.basic_blocks.len(),
        chain_at(body, infos, helpers, bb_a) is Some,
    ensures
        ({
            let c = (chain_at(body, infos, helpers, bb_a)->0).0;
            &&& c.2 >= 3
            &&& c.4.len() == c.2
            &&& c.6.len() == c.2
            &&& c.6[0] == bb_a
            &&& chain_calls_ok(body, infos, c.4, c.6)
            &&& helper_ok(helpers, c.2 as int, c.3 as int)
        }),
{
    let (args1, d1, t1) = chain_call(body, infos, bb_a)->0;
    let arity = args1.len();
    let i1 = infos[bb_a];
    let l2 = next_link(body, infos, t1, seq![d1], arity, seq![i1.cost], false)->0;
    let (bb_b, inter1, d2, t2, c2) = l2;
    let l3 = next_link(body, infos, t2, seq![d1, d2], arity, seq![i1.cost, c2], false)->0;
    let (bb_c, inter2, d3, t3, c3) = l3;
    lemma_next_link_ok(body, infos, t1, seq![d1], arity, seq![i1.cost], false);
    lemma_next_link_ok(body, infos, t2, seq![d1, d2], arity, seq![i1.cost, c2], false);
    let empty = Seq::<usize>::empty();
    assert(chain_calls_ok(body, infos, empty, empty));
    assert(call_ok(body, infos, bb_a as usize, d1, empty)) by {
        assert(!reads_any(args1, empty));
    }
    lemma_push_ok(body, infos, empty, empty, bb_a as usize, d1);
    assert(empty.push(d1) =~= seq![d1]);
    assert(empty.push(bb_a as usize) =~= seq![bb_a as usize]);
    lemma_push_ok(body, infos, seq![d1], seq![bb_a as usize], bb_b, d2);
    assert(seq![d1].push(d2) =~= seq![d1, d2]);
    assert(seq![bb_a as usize].push(bb_b) =~= seq![bb_a as usize, bb_b]);
    lemma_push_ok(body, infos, seq![d1, d2], seq![bb_a as usize, bb_b], bb_c, d3);
    assert(seq![d1, d2].push(d3) =~= seq![d1, d2, d3]);
    assert(seq![bb_a as usize, bb_b].push(bb_c) =~= seq![bb_a as usize, bb_b, bb_c]);
    let four = if helper_ok(helpers, 4, arity as int) {
        next_link(body, infos, t3, seq![d1, d2, d3], arity, seq![i1.cost, c2, c3], false)
    } else {
        None
    };
    match four {
        Some((bb_d, inter3, d4, t4, c4)) => {
            lemma_next_link_ok(body, infos, t3, seq![d1, d2, d3], arity, seq![i1.cost, c2, c3], false);
            lemma_push_ok(body, infos, seq![d1, d2, d3], seq![bb_a as usize, bb_b, bb_c], bb_d, d4);
            assert(seq![d1, d2, d3].push(d4) =~= seq![d1, d2, d3, d4]);
            assert(seq![bb_a as usize, bb_b, bb_c].push(bb_d) =~= seq![bb_a as usize, bb_b, bb_c, bb_d]);
            let base = inter1 + seq![bb_b] + inter2 + seq![bb_c];
            let st0: ChainState = (
                t4,
                seq![d1, d2, d3, d4],
                seq![i1.cost, c2, c3, c4],
                seq![bb_a as usize, bb_b, bb_c, bb_d],
                base + inter3 + seq![bb_d],
            );
            lemma_extend_ok(body, infos, arity, st0, (MAX_INVOKE_CHAIN - 4) as nat);
            let st = extend_chain(body, infos, arity, st0, (MAX_INVOKE_CHAIN - 4) as nat);
            let n = best_n(helpers, st.1.len() as int, arity as int);
            if n >= 3 {
                lemma_best_n(helpers, st.1.len() as int, arity as int);
                lemma_best_n_helper(helpers, st.1.len() as int, arity as int);
                lemma_take_ok(body, infos, st.1, st.3, n);
                lemma_extend_first(body, infos, arity, st0, (MAX_INVOKE_CHAIN - 4) as nat);
            }
        },
        None => {},
    }
}

proof fn lemma_extend_first(body: Body, infos: Seq<CalleeInfo>, arity: nat, st: ChainState, fuel: nat)
    requires
        st.3.len() >= 1,
    ensures
        extend_chain(body, infos, arity, st, fuel).3.len() >= 1,
        extend_chain(body, infos, arity, st, fuel).3[0] == st.3[0],
    decreases fuel,
{
    if fuel > 0 {
        match next_link(body, infos, st.0, st.1, arity, st.2, true) {
            None => {},
            Some((nb, inter, d, t, c)) => {
                lemma_extend_first(
                    body,
                    infos,
                    arity,
                    (t, st.1.push(d), st.2.push(c), st.3.push(nb), st.4 + inter + seq![nb]),
                    (fuel - 1) as nat,
                );
            },
        }
    }
}

/// Every chain that the N-way form finds is independent and pure, as
/// `lemma_chain_independent` states for one chain.
pub proof fn lemma_chains_independent(body: Body, infos: Seq<CalleeInfo>, helpers: Seq<Seq<bool>>, m: nat)
    requires
        m <= body.basic_blocks.len(),
    ensures
        forall|k: int|
            0 <= k < chains_upto(body, infos, helpers, m).0.len() ==> {
                let c = #[trigger] chains_upto(body, infos, helpers, m).0[k];
                &&& c.2 >= 3
                &&& c.4.len() == c.2
                &&& c.6.len() == c.2
                &&& chain_calls_ok(body, infos, c.4, c.6)
                &&& helper_ok(helpers, c.2 as int, c.3 as int)
            },
    decreases m,
{
    if m > 0 {
        lemma_chains_independent(body, infos, helpers, (m - 1) as nat);
        let prev = chains_upto(body, infos, helpers, (m - 1) as nat);
        if !prev.1.contains((m - 1) as usize) {
            match chain_at(body, infos, helpers, m - 1) {
                Some((c, used)) => {
                    lemma_chain_independent(body, infos, helpers, m - 1);
                    let cur = chains_upto(body, infos, helpers, m).0;
                    assert forall|k: int| 0 <= k < cur.len() implies {
                        let c = #[trigger] cur[k];
                        &&& c.2 >= 3
                        &&& c.4.len() == c.2
                        &&& c.6.len() == c.2
                        &&& chain_calls_ok(body, infos, c.4, c.6)
                        &&& helper_ok(helpers, c.2 as int, c.3 as int)
                    } by {
                        if k < prev.0.len() {
                            assert(cur[k] == prev.0[k]);
                        }
                    }
                },
                None => {},
            }
        }
    }
}

/// A pair of calls forked by the 2-way form is independent and pure: the
/// destinations differ, the second call reads nothing of the first one's
/// destination (in its arguments, in the statements before it, or as a
/// write in the blocks between them), both callees passed the purity check
/// and are defined in this crate outside the sysroot, and a helper exists
/// for their arity.
pub proof fn lemma_pair_independent(body: Body, infos: Seq<CalleeInfo>, helpers: Seq<bool>, bb_a: int)
    requires
        0 <= bb_a < body.basic_blocks.len(),
        invoke_pair_at(body, infos, helpers, bb_a) is Some,
    ensures
        ({
            let p = invoke_pair_at(body, infos, helpers, bb_a)->0;
            &&& p.4 != p.5
            &&& call_parts(body, p.0 as int) matches Some((_p1, args1, a, _t1)) && a == p.4 && args1.len() == p.3
            &&& call_parts(body, p.1 as int) matches Some((_p2, args2, b, c)) && b == p.5 && c == p.2
                && args2.len() == p.3 && !any_op_reads(args2, p.4)
            &&& second_stmts_ok(stmts_of(body, p.1 as int), p.4, p.5)
            &&& !blocks_assign(body, p.6, p.5)
            &&& infos[p.0 as int].invoke_pure && infos[p.1 as int].invoke_pure
            &&& infos[p.0 as int].is_local && infos[p.1 as int].is_local
            &&& !infos[p.0 as int].in_sysroot && !infos[p.1 as int].in_sysroot
            &&& p.3 < helpers.len() && helpers[p.3 as int]
        }),
{
}

} // verus!
