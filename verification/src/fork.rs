//! Rewriting a body so that independent calls run through one fork helper
//! of the parallel runtime. The first call's block takes the statements of
//! the blocks in between, casts each callee to a function pointer and calls
//! the helper into a fresh tuple local; a new block moves the tuple's fields
//! into the calls' destinations and continues where the last call returned.
use vstd::prelude::*;
use crate::mir::{
    Body, BasicBlockData, Place, Operand, Const, Rvalue, StatementKind, TerminatorKind, UnwindAction,
    ProjectionElem, LocalTy, AggregateKind,
};
use crate::detect::stmts_of;
use crate::iter_methods::{copy_place, copy_operand, same_operand};
use crate::invoke::{
    call_parts, CalleeInfo, invoke_pair_at, invoke_pairs, InvokePair, parallel_invoke_pairs, lemma_pair_independent,
    lemma_passthrough_in_range, chain_call, next_link, extend_chain, ChainState, ChainView, chain_at, chains_upto,
    best_n, helper_ok, InvokeChain, parallel_invoke_chains, lemma_chains_independent, MAX_INVOKE_CHAIN,
};
use crate::text::push_decimal;
use crate::shape::passthrough;
use crate::gates::{sysroot_crate, runtime_fn_name, quick_skip};
use crate::text::decimal;
use crate::idioms::invoke_helper_name_for_arity;

verus! {

/// Two places name the same local through the same projection.
pub open spec fn same_place(a: Place, b: Place) -> bool {
    a.local == b.local && a.projection@ == b.projection@
}

/// Two operand lists agree element by element.
pub open spec fn same_operands(a: Seq<Operand>, b: Seq<Operand>) -> bool {
    &&& a.len() == b.len()
    &&& forall|i: int| 0 <= i < a.len() ==> #[trigger] same_operand(a[i], b[i])
}

/// Two right-hand sides agree: same variant, same fields, operands and
/// places compared by their contents.
pub open spec fn same_rvalue(a: Rvalue, b: Rvalue) -> bool {
    match (a, b) {
        (Rvalue::Use(x), Rvalue::Use(y)) => same_operand(x, y),
        (Rvalue::Repeat(x), Rvalue::Repeat(y)) => same_operand(x, y),
        (Rvalue::Ref(k, p), Rvalue::Ref(l, q)) => k == l && same_place(p, q),
        (Rvalue::ThreadLocalRef, Rvalue::ThreadLocalRef) => true,
        (Rvalue::RawPtr(p), Rvalue::RawPtr(q)) => same_place(p, q),
        (Rvalue::Cast(x), Rvalue::Cast(y)) => same_operand(x, y),
        (Rvalue::BinaryOp(o, x1, x2), Rvalue::BinaryOp(p, y1, y2)) => o == p && same_operand(x1, y1)
            && same_operand(x2, y2),
        (Rvalue::UnaryOp(o, x), Rvalue::UnaryOp(p, y)) => o == p && same_operand(x, y),
        (Rvalue::Discriminant(p), Rvalue::Discriminant(q)) => same_place(p, q),
        (Rvalue::Aggregate(k, xs), Rvalue::Aggregate(l, ys)) => k == l && same_operands(xs@, ys@),
        (Rvalue::ShallowInitBox(x), Rvalue::ShallowInitBox(y)) => same_operand(x, y),
        (Rvalue::CopyForDeref(p), Rvalue::CopyForDeref(q)) => same_place(p, q),
        (Rvalue::WrapUnsafeBinder(x), Rvalue::WrapUnsafeBinder(y)) => same_operand(x, y),
        _ => false,
    }
}

/// Two statements agree: assignments to the same place of the same
/// right-hand side, or equal statements of another kind.
pub open spec fn same_stmt(a: StatementKind, b: StatementKind) -> bool {
    match (a, b) {
        (StatementKind::Assign(p, x), StatementKind::Assign(q, y)) => same_place(p, q) && same_rvalue(x, y),
        _ => !(a is Assign) && a == b,
    }
}

/// Two statement lists agree element by element.
pub open spec fn same_stmts(a: Seq<StatementKind>, b: Seq<StatementKind>) -> bool {
    &&& a.len() == b.len()
    &&& forall|i: int| 0 <= i < a.len() ==> #[trigger] same_stmt(a[i], b[i])
}

/// A copy of an operand list.
pub fn copy_operands(v: &Vec<Operand>) -> (r: Vec<Operand>)
    ensures
        same_operands(r@, v@),
{
    let mut out: Vec<Operand> = Vec::new();
    let mut k: usize = 0;
    while k < v.len()
        invariant
            k <= v@.len(),
            same_operands(out@, v@.take(k as int)),
        decreases v@.len() - k,
    {
        let o = copy_operand(&v[k]);
        out.push(o);
        k = k + 1;
        proof {
            let t = v@.take(k as int);
            assert forall|i: int| 0 <= i < out@.len() implies #[trigger] same_operand(out@[i], t[i]) by {
                if i < k - 1 {
                    assert(t[i] == v@.take(k - 1)[i]);
                }
            }
        }
    }
    assert(v@.take(k as int) =~= v@);
    out
}

fn copy_rvalue(rv: &Rvalue) -> (r: Rvalue)
    ensures
        same_rvalue(r, *rv),
{
    match rv {
        Rvalue::Use(x) => Rvalue::Use(copy_operand(x)),
        Rvalue::Repeat(x) => Rvalue::Repeat(copy_operand(x)),
        Rvalue::Ref(k, p) => Rvalue::Ref(*k, copy_place(p)),
        Rvalue::ThreadLocalRef => Rvalue::ThreadLocalRef,
        Rvalue::RawPtr(p) => Rvalue::RawPtr(copy_place(p)),
        Rvalue::Cast(x) => Rvalue::Cast(copy_operand(x)),
        Rvalue::BinaryOp(o, x, y) => Rvalue::BinaryOp(*o, copy_operand(x), copy_operand(y)),
        Rvalue::UnaryOp(o, x) => Rvalue::UnaryOp(*o, copy_operand(x)),
        Rvalue::Discriminant(p) => Rvalue::Discriminant(copy_place(p)),
        Rvalue::Aggregate(k, xs) => {
            let kind = match k {
                AggregateKind::Adt { path, first_ty } => AggregateKind::Adt { path: path.clone(), first_ty: *first_ty },
                AggregateKind::Other => AggregateKind::Other,
            };
            Rvalue::Aggregate(kind, copy_operands(xs))
        },
        Rvalue::ShallowInitBox(x) => Rvalue::ShallowInitBox(copy_operand(x)),
        Rvalue::CopyForDeref(p) => Rvalue::CopyForDeref(copy_place(p)),
        Rvalue::WrapUnsafeBinder(x) => Rvalue::WrapUnsafeBinder(copy_operand(x)),
    }
}

/// A copy of a statement.
pub fn copy_stmt(s: &StatementKind) -> (r: StatementKind)
    ensures
        same_stmt(r, *s),
{
    match s {
        StatementKind::Assign(p, rv) => StatementKind::Assign(copy_place(p), copy_rvalue(rv)),
        StatementKind::FakeRead => StatementKind::FakeRead,
        StatementKind::SetDiscriminant => StatementKind::SetDiscriminant,
        StatementKind::StorageLive(l) => StatementKind::StorageLive(*l),
        StatementKind::StorageDead(l) => StatementKind::StorageDead(*l),
        StatementKind::Retag => StatementKind::Retag,
        StatementKind::PlaceMention => StatementKind::PlaceMention,
        StatementKind::AscribeUserType => StatementKind::AscribeUserType,
        StatementKind::Coverage => StatementKind::Coverage,
        StatementKind::Intrinsic => StatementKind::Intrinsic,
        StatementKind::ConstEvalCounter => StatementKind::ConstEvalCounter,
        StatementKind::Nop => StatementKind::Nop,
        StatementKind::BackwardIncompatibleDropHint => StatementKind::BackwardIncompatibleDropHint,
    }
}

// ── What a fork does to a body ─────────────────────────────────────────

/// The callee path of the call ending block `bb`.
pub open spec fn call_path(src: Body, bb: usize) -> Seq<char> {
    (call_parts(src, bb as int)->0).0
}

/// The arguments of the call ending block `bb`.
pub open spec fn call_args(src: Body, bb: usize) -> Seq<Operand> {
    (call_parts(src, bb as int)->0).1
}

/// The statements of the given blocks, block after block.
pub open spec fn moved_stmts(src: Body, blocks: Seq<usize>) -> Seq<StatementKind>
    decreases blocks.len(),
{
    if blocks.len() == 0 {
        Seq::empty()
    } else {
        moved_stmts(src, blocks.drop_last()) + stmts_of(src, blocks.last() as int)
    }
}

/// A fork: (block of the first call, block where the last call returned,
/// blocks whose calls are forked, their destinations, blocks whose
/// statements move ahead of the fork, path of the runtime helper, number of
/// arguments of each call).
pub type ForkView = (usize, usize, Seq<usize>, Seq<usize>, Seq<usize>, Seq<char>, usize);

/// The fork can be read off `src`: its blocks exist, each forked block ends
/// in a call of a function item with `f.6` arguments into a bare local, and
/// there is one destination per call.
pub open spec fn fork_ready(src: Body, f: ForkView) -> bool {
    &&& f.0 < src.num_blocks()
    &&& f.2.len() == f.3.len()
    &&& forall|k: int|
        0 <= k < f.2.len() ==> #[trigger] f.2[k] < src.num_blocks() && call_parts(src, f.2[k] as int) is Some
            && call_args(src, f.2[k]).len() == f.6
    &&& forall|k: int| 0 <= k < f.4.len() ==> #[trigger] f.4[k] < src.num_blocks()
}

/// `s` stores the function item at `path`, cast to a function pointer, in
/// the bare local `local`.
pub open spec fn is_fn_cast(s: StatementKind, local: int, path: Seq<char>) -> bool {
    &&& s matches StatementKind::Assign(place, Rvalue::Cast(Operand::Constant(Const::FnDef { path: p })))
    &&& s->Assign_0.local == local
    &&& s->Assign_0.projection@.len() == 0
    &&& s->Assign_1->Cast_0->Constant_0->FnDef_path@ == path
}

/// The helper's arguments for the first `k` calls of the fork: for each
/// call, its function pointer (the bare local `ptr_base` plus the call's
/// index, moved), then the call's own arguments.
pub open spec fn fork_args(args: Seq<Operand>, src: Body, f: ForkView, ptr_base: int, k: nat) -> bool
    decreases k,
{
    if k == 0 {
        args.len() == 0
    } else {
        let w = f.6 + 1;
        let head = args.take(args.len() - w);
        let tail = args.skip(args.len() - w);
        &&& args.len() >= w
        &&& fork_args(head, src, f, ptr_base, (k - 1) as nat)
        &&& tail[0] matches Operand::Move(p) && p.local == ptr_base + k - 1 && p.projection@.len() == 0
        &&& same_operands(tail.skip(1), call_args(src, f.2[k - 1]))
    }
}

/// The block that unpacks the helper's result: the i-th destination takes
/// field i of the bare local `tuple`, moved, then control goes to `f.1`.
pub open spec fn unpack_block(blk: BasicBlockData, f: ForkView, tuple: int) -> bool {
    &&& blk.statements@.len() == f.3.len()
    &&& forall|i: int|
        0 <= i < f.3.len() ==> {
            let s = #[trigger] blk.statements@[i];
            &&& s matches StatementKind::Assign(place, Rvalue::Use(Operand::Move(p)))
            &&& s->Assign_0.local == f.3[i]
            &&& s->Assign_0.projection@.len() == 0
            &&& s->Assign_1->Use_0->Move_0.local == tuple
            &&& s->Assign_1->Use_0->Move_0.projection@ == seq![ProjectionElem::Field(i as usize)]
        }
    &&& blk.terminator == Some(TerminatorKind::Goto { target: f.1 })
}

/// The first call's block after the fork: its statements `before`, then
/// the moved statements, then one function-pointer cast per call (into the
/// locals after `locals`); it ends in a call of the helper into the bare
/// local `locals`, returning to block `unpack` and never unwinding.
pub open spec fn forked_block(
    blk: BasicBlockData,
    before: Seq<StatementKind>,
    src: Body,
    f: ForkView,
    locals: int,
    unpack: int,
) -> bool {
    let moved = moved_stmts(src, f.4);
    let s = blk.statements@;
    let n = f.2.len();
    &&& s.len() == before.len() + moved.len() + n
    &&& s.take(before.len() as int) == before
    &&& same_stmts(s.subrange(before.len() as int, (before.len() + moved.len()) as int), moved)
    &&& forall|k: int|
        0 <= k < n ==> #[trigger] is_fn_cast(s[before.len() + moved.len() + k], locals + 1 + k, call_path(src, f.2[k]))
    &&& blk.terminator matches Some(TerminatorKind::Call { func, args, destination, target, unwind })
    &&& blk.terminator->0->Call_func matches Operand::Constant(Const::FnDef { path })
    &&& blk.terminator->0->Call_func->Constant_0->FnDef_path@ == f.5
    &&& blk.terminator->0->Call_destination.local == locals
    &&& blk.terminator->0->Call_destination.projection@.len() == 0
    &&& blk.terminator->0->Call_target == Some(unpack as usize)
    &&& blk.terminator->0->Call_unwind == UnwindAction::Unreachable
    &&& fork_args(blk.terminator->0->Call_args@, src, f, locals + 1, n)
}

/// `b1` is `b0` with fork `f` applied, its calls and moved statements read
/// off `src`: one tuple local and one function-pointer local per call are
/// added, the first call's block is rewritten, a block that unpacks the
/// tuple is added at the end, and every other block is unchanged.
pub open spec fn fork_applied(b0: Body, b1: Body, src: Body, f: ForkView) -> bool {
    let locals = b0.local_tys@.len();
    let blocks = b0.num_blocks();
    &&& b1.arg_count == b0.arg_count
    &&& b1.local_tys@ == b0.local_tys@ + Seq::new((f.2.len() + 1) as nat, |i: int| LocalTy::Other)
    &&& b1.basic_blocks@.len() == blocks + 1
    &&& forall|i: int| 0 <= i < blocks && i != f.0 ==> #[trigger] b1.basic_blocks@[i] == b0.basic_blocks@[i]
    &&& forked_block(b1.basic_blocks@[f.0 as int], b0.basic_blocks@[f.0 as int].statements@, src, f, locals as int, blocks as int)
    &&& unpack_block(b1.basic_blocks@[blocks as int], f, locals as int)
}

/// `bodies` are the states of a body while the forks `fs` are applied one
/// after the other.
pub open spec fn fork_steps(bodies: Seq<Body>, src: Body, fs: Seq<ForkView>) -> bool {
    &&& bodies.len() == fs.len() + 1
    &&& forall|k: int| 0 <= k < fs.len() ==> #[trigger] fork_applied(bodies[k], bodies[k + 1], src, fs[k])
}

/// `b1` is `b0` with the forks `fs` applied one after the other, their data
/// read off `src`.
pub open spec fn forks_applied(b0: Body, b1: Body, src: Body, fs: Seq<ForkView>) -> bool {
    exists|bodies: Seq<Body>| #[trigger] fork_steps(bodies, src, fs) && bodies[0] == b0 && bodies.last() == b1
}

// ── Applying forks ─────────────────────────────────────────────────────

/// A fork's data, read off the body before any fork is applied.
struct Fork {
    bb_a: usize,
    bb_after: usize,
    helper: String,
    arity: usize,
    callees: Vec<String>,
    args: Vec<Vec<Operand>>,
    dests: Vec<usize>,
    moved: Vec<StatementKind>,
}

spec fn fork_data_ok(fk: Fork, src: Body, f: ForkView) -> bool {
    &&& fk.bb_a == f.0
    &&& fk.bb_after == f.1
    &&& fk.helper@ == f.5
    &&& fk.arity == f.6
    &&& fk.dests@ == f.3
    &&& fk.callees@.len() == f.2.len()
    &&& fk.args@.len() == f.2.len()
    &&& f.3.len() == f.2.len()
    &&& forall|k: int|
        0 <= k < f.2.len() ==> #[trigger] fk.callees@[k]@ == call_path(src, f.2[k]) && same_operands(
            fk.args@[k]@,
            call_args(src, f.2[k]),
        ) && fk.args@[k]@.len() == f.6
    &&& same_stmts(fk.moved@, moved_stmts(src, f.4))
}

fn copy_indices(v: &Vec<usize>) -> (r: Vec<usize>)
    ensures
        r@ == v@,
{
    let mut out: Vec<usize> = Vec::new();
    let mut k: usize = 0;
    while k < v.len()
        invariant
            k <= v@.len(),
            out@ == v@.take(k as int),
        decreases v@.len() - k,
    {
        out.push(v[k]);
        k = k + 1;
        assert(out@ =~= v@.take(k as int));
    }
    assert(v@.take(k as int) =~= v@);
    out
}

/// Copies of the statements of `blocks`, block after block.
fn collect_moved(src: &Body, blocks: &Vec<usize>) -> (r: Vec<StatementKind>)
    requires
        forall|k: int| 0 <= k < blocks@.len() ==> #[trigger] blocks@[k] < src.num_blocks(),
    ensures
        same_stmts(r@, moved_stmts(*src, blocks@)),
{
    let mut out: Vec<StatementKind> = Vec::new();
    let mut k: usize = 0;
    while k < blocks.len()
        invariant
            k <= blocks@.len(),
            forall|j: int| 0 <= j < blocks@.len() ==> #[trigger] blocks@[j] < src.num_blocks(),
            same_stmts(out@, moved_stmts(*src, blocks@.take(k as int))),
        decreases blocks@.len() - k,
    {
        let b = blocks[k];
        let stmts = &src.basic_blocks[b].statements;
        let ghost base = out@;
        let ghost done = moved_stmts(*src, blocks@.take(k as int));
        let mut j: usize = 0;
        while j < stmts.len()
            invariant
                j <= stmts@.len(),
                stmts@ == stmts_of(*src, b as int),
                out@.len() == base.len() + j,
                same_stmts(base, done),
                out@.take(base.len() as int) == base,
                forall|i: int| 0 <= i < j ==> #[trigger] same_stmt(out@[base.len() + i], stmts@[i]),
            decreases stmts@.len() - j,
        {
            let s = copy_stmt(&stmts[j]);
            out.push(s);
            j = j + 1;
            assert(out@.take(base.len() as int) =~= base);
        }
        proof {
            let t = blocks@.take(k + 1);
            assert(t.drop_last() =~= blocks@.take(k as int));
            assert(t.last() == b);
            let want = moved_stmts(*src, t);
            assert(want == done + stmts@);
            assert forall|i: int| 0 <= i < out@.len() implies #[trigger] same_stmt(out@[i], want[i]) by {
                if i < base.len() {
                    assert(out@[i] == base[i]);
                } else {
                    assert(same_stmt(out@[base.len() + (i - base.len())], stmts@[i - base.len()]));
                }
            }
        }
        k = k + 1;
    }
    assert(blocks@.take(k as int) =~= blocks@);
    out
}

/// Reads the fork's data off `src`.
fn read_fork(
    src: &Body,
    bb_a: usize,
    bb_after: usize,
    calls: &Vec<usize>,
    dests: &Vec<usize>,
    inter: &Vec<usize>,
    helper: String,
    arity: usize,
) -> (r: Fork)
    requires
        fork_ready(*src, (bb_a, bb_after, calls@, dests@, inter@, helper@, arity)),
    ensures
        fork_data_ok(r, *src, (bb_a, bb_after, calls@, dests@, inter@, helper@, arity)),
{
    let ghost f: ForkView = (bb_a, bb_after, calls@, dests@, inter@, helper@, arity);
    let mut callees: Vec<String> = Vec::new();
    let mut args: Vec<Vec<Operand>> = Vec::new();
    let mut k: usize = 0;
    while k < calls.len()
        invariant
            k <= calls@.len(),
            fork_ready(*src, f),
            f.2 == calls@,
            f.6 == arity,
            callees@.len() == k,
            args@.len() == k,
            forall|i: int|
                0 <= i < k ==> #[trigger] callees@[i]@ == call_path(*src, calls@[i]) && same_operands(
                    args@[i]@,
                    call_args(*src, calls@[i]),
                ) && args@[i]@.len() == arity,
        decreases calls@.len() - k,
    {
        let bb = calls[k];
        assert(bb < src.num_blocks() && call_parts(*src, bb as int) is Some && call_args(*src, bb).len() == arity) by {
            assert(f.2[k as int] == bb);
        }
        let parts = crate::invoke::call_parts_of(src, bb);
        let (p, a, _d, _t) = parts.unwrap();
        let ghost (gp, ga, _gd, _gt) = call_parts(*src, bb as int)->0;
        assert(p@ == gp && a@ == ga);
        let pc = p.clone();
        let ac = copy_operands(a);
        let ghost prev_c = callees@;
        let ghost prev_a = args@;
        callees.push(pc);
        args.push(ac);
        proof {
            assert forall|i: int|
                0 <= i < k + 1 implies #[trigger] callees@[i]@ == call_path(*src, calls@[i]) && same_operands(
                    args@[i]@,
                    call_args(*src, calls@[i]),
                ) && args@[i]@.len() == arity by {
                if i < k {
                    assert(callees@[i] == prev_c[i] && args@[i] == prev_a[i]);
                } else {
                    assert(calls@[i] == bb);
                }
            }
        }
        k = k + 1;
    }
    assert forall|j: int| 0 <= j < inter@.len() implies #[trigger] inter@[j] < src.num_blocks() by {
        assert(f.4[j] == inter@[j]);
    }
    let moved = collect_moved(src, inter);
    Fork { bb_a, bb_after, helper, arity, callees, args, dests: copy_indices(dests), moved }
}

/// Applies one fork whose data were read off `src`.
fn apply_fork(body: &mut Body, fk: Fork, Ghost(src): Ghost<Body>, Ghost(f): Ghost<ForkView>)
    requires
        fork_data_ok(fk, src, f),
        f.0 < old(body).num_blocks(),
    ensures
        fork_applied(*old(body), *final(body), src, f),
{
    let mut fk = fk;
    let ghost b0 = *body;
    let locals = body.local_tys.len();
    let blocks = body.basic_blocks.len();
    let n = fk.callees.len();
    // the tuple local, then one function-pointer local per call
    body.local_tys.push(LocalTy::Other);
    let mut casts: Vec<StatementKind> = Vec::new();
    let mut args: Vec<Operand> = Vec::new();
    let mut k: usize = 0;
    while k < n
        invariant
            k <= n,
            n == f.2.len(),
            fork_data_ok(fk, src, f),
            fk.callees@.len() == n,
            body.local_tys@ == b0.local_tys@ + Seq::new((k + 1) as nat, |i: int| LocalTy::Other),
            body.basic_blocks == b0.basic_blocks,
            body.arg_count == b0.arg_count,
            locals == b0.local_tys@.len(),
            casts@.len() == k,
            forall|i: int| 0 <= i < k ==> #[trigger] is_fn_cast(casts@[i], locals + 1 + i, call_path(src, f.2[i])),
            fork_args(args@, src, f, locals + 1, k as nat),
        decreases n - k,
    {
        let ptr = body.local_tys.len();
        body.local_tys.push(LocalTy::Other);
        proof {
            assert(body.local_tys@ =~= b0.local_tys@ + Seq::new((k + 2) as nat, |i: int| LocalTy::Other));
        }
        let callee = fk.callees[k].clone();
        let ghost prev_casts = casts@;
        casts.push(
            StatementKind::Assign(
                Place { local: ptr, projection: Vec::new() },
                Rvalue::Cast(Operand::Constant(Const::FnDef { path: callee })),
            ),
        );
        let ghost prev_args = args@;
        args.push(Operand::Move(Place { local: ptr, projection: Vec::new() }));
        let mut mine = copy_operands(&fk.args[k]);
        let ghost own = mine@;
        args.append(&mut mine);
        proof {
            assert forall|i: int| 0 <= i < k + 1 implies #[trigger] is_fn_cast(
                casts@[i],
                locals + 1 + i,
                call_path(src, f.2[i]),
            ) by {
                if i < k {
                    assert(casts@[i] == prev_casts[i]);
                }
            }
            let w = f.6 + 1;
            assert(fk.callees@[k as int]@ == call_path(src, f.2[k as int]));
            assert(fk.args@[k as int]@.len() == f.6);
            assert(args@.len() == prev_args.len() + w);
            assert(args@.take(args@.len() - w) =~= prev_args);
            let tail = args@.skip(args@.len() - w);
            assert(tail.skip(1) =~= own);
            assert(tail[0] == args@[prev_args.len() as int]);
            assert forall|i: int| 0 <= i < own.len() implies #[trigger] same_operand(own[i], call_args(src, f.2[k as int])[i]) by {
                assert(same_operand(own[i], fk.args@[k as int]@[i]));
                assert(same_operand(fk.args@[k as int]@[i], call_args(src, f.2[k as int])[i]));
            }
        }
        k = k + 1;
    }
    // the block that unpacks the tuple into the destinations
    let mut unpack: Vec<StatementKind> = Vec::new();
    let mut i: usize = 0;
    while i < n
        invariant
            i <= n,
            n == f.3.len(),
            fk.dests@ == f.3,
            unpack@.len() == i,
            forall|j: int|
                0 <= j < i ==> {
                    let s = #[trigger] unpack@[j];
                    &&& s matches StatementKind::Assign(place, Rvalue::Use(Operand::Move(p)))
                    &&& s->Assign_0.local == f.3[j]
                    &&& s->Assign_0.projection@.len() == 0
                    &&& s->Assign_1->Use_0->Move_0.local == locals
                    &&& s->Assign_1->Use_0->Move_0.projection@ == seq![ProjectionElem::Field(j as usize)]
                },
        decreases n - i,
    {
        let mut proj: Vec<ProjectionElem> = Vec::new();
        proj.push(ProjectionElem::Field(i));
        assert(proj@ =~= seq![ProjectionElem::Field(i)]);
        let ghost prev = unpack@;
        unpack.push(
            StatementKind::Assign(
                Place { local: fk.dests[i], projection: Vec::new() },
                Rvalue::Use(Operand::Move(Place { local: locals, projection: proj })),
            ),
        );
        proof {
            assert forall|j: int| 0 <= j < i + 1 implies {
                let s = #[trigger] unpack@[j];
                &&& s matches StatementKind::Assign(place, Rvalue::Use(Operand::Move(p)))
                &&& s->Assign_0.local == f.3[j]
                &&& s->Assign_0.projection@.len() == 0
                &&& s->Assign_1->Use_0->Move_0.local == locals
                &&& s->Assign_1->Use_0->Move_0.projection@ == seq![ProjectionElem::Field(j as usize)]
            } by {
                if j < i {
                    assert(unpack@[j] == prev[j]);
                }
            }
        }
        i = i + 1;
    }
    body.basic_blocks.push(BasicBlockData { statements: unpack, terminator: Some(TerminatorKind::Goto { target: fk.bb_after }) });
    let ghost before = b0.basic_blocks@[f.0 as int].statements@;
    let ghost moved = fk.moved@;
    let ghost cast_seq = casts@;
    let blk = &mut body.basic_blocks[fk.bb_a];
    blk.statements.append(&mut fk.moved);
    blk.statements.append(&mut casts);
    blk.terminator = Some(
        TerminatorKind::Call {
            func: Operand::Constant(Const::FnDef { path: fk.helper }),
            args,
            destination: Place { local: locals, projection: Vec::new() },
            target: Some(blocks),
            unwind: UnwindAction::Unreachable,
        },
    );
    proof {
        let b1 = *body;
        let s = b1.basic_blocks@[f.0 as int].statements@;
        assert(s =~= before + moved + cast_seq);
        assert(s.take(before.len() as int) =~= before);
        assert(s.subrange(before.len() as int, (before.len() + moved.len()) as int) =~= moved);
        assert forall|k: int| 0 <= k < n implies #[trigger] is_fn_cast(
            s[before.len() + moved.len() + k],
            locals + 1 + k,
            call_path(src, f.2[k]),
        ) by {
            assert(s[before.len() + moved.len() + k] == cast_seq[k]);
        }
        assert forall|i: int| 0 <= i < blocks && i != f.0 implies #[trigger] b1.basic_blocks@[i] == b0.basic_blocks@[i] by {
        }
    }
}

pub(crate) proof fn lemma_targets_grow(k: TerminatorKind, n: nat, m: nat)
    requires
        crate::mir::terminator_targets_ok(k, n),
        n <= m,
    ensures
        crate::mir::terminator_targets_ok(k, m),
{
}

/// A fork keeps a body well formed: when every terminator of `b0` names
/// existing blocks and the fork's blocks exist, the same holds of `b1`.
pub proof fn lemma_fork_keeps_targets(b0: Body, b1: Body, src: Body, f: ForkView)
    requires
        b0.targets_valid(),
        b0.all_terminated(),
        fork_applied(b0, b1, src, f),
        f.0 < b0.num_blocks(),
        f.1 < b0.num_blocks(),
    ensures
        b1.targets_valid(),
        b1.all_terminated(),
{
    let n0 = b0.num_blocks();
    assert forall|i: int| 0 <= i < b1.basic_blocks@.len() implies (#[trigger] b1.basic_blocks@[i]).terminator is Some
        && crate::mir::terminator_targets_ok(b1.basic_blocks@[i].terminator->0, b1.num_blocks()) by {
        if i < n0 && i != f.0 {
            assert(b1.basic_blocks@[i] == b0.basic_blocks@[i]);
            lemma_targets_grow(b0.basic_blocks@[i].terminator->0, n0, b1.num_blocks());
        }
    }
}

/// Applies the forks one after the other.
fn apply_forks(body: &mut Body, forks: Vec<Fork>, Ghost(src): Ghost<Body>, Ghost(fs): Ghost<Seq<ForkView>>)
    requires
        forks@.len() == fs.len(),
        forall|k: int|
            0 <= k < fs.len() ==> #[trigger] fork_data_ok(forks@[k], src, fs[k]) && fs[k].0 < old(body).num_blocks()
                && fs[k].1 < old(body).num_blocks(),
        old(body).targets_valid(),
        old(body).all_terminated(),
    ensures
        forks_applied(*old(body), *final(body), src, fs),
        final(body).targets_valid(),
        final(body).all_terminated(),
{
    let mut forks = forks;
    let ghost all = forks@;
    let ghost b0 = *body;
    let ghost mut k: int = 0;
    let ghost mut bodies: Seq<Body> = seq![b0];
    assert(fork_steps(bodies, src, fs.take(0)));
    while forks.len() > 0
        invariant
            0 <= k <= fs.len(),
            all.len() == fs.len(),
            forks@ == all.skip(k),
            forall|j: int| 0 <= j < fs.len() ==> #[trigger] fork_data_ok(all[j], src, fs[j]) && fs[j].0 < b0.num_blocks()
                && fs[j].1 < b0.num_blocks(),
            body.num_blocks() >= b0.num_blocks(),
            body.targets_valid(),
            body.all_terminated(),
            fork_steps(bodies, src, fs.take(k)),
            bodies[0] == b0,
            bodies.last() == *body,
        decreases forks@.len(),
    {
        let fk = forks.remove(0);
        let ghost mid = *body;
        assert(fk == all[k]);
        assert(fork_data_ok(all[k], src, fs[k]) && fs[k].0 < b0.num_blocks() && fs[k].1 < b0.num_blocks());
        apply_fork(body, fk, Ghost(src), Ghost(fs[k]));
        proof {
            lemma_fork_keeps_targets(mid, *body, src, fs[k]);
            let nb = bodies.push(*body);
            let t = fs.take(k + 1);
            assert forall|j: int| 0 <= j < t.len() implies #[trigger] fork_applied(nb[j], nb[j + 1], src, t[j]) by {
                if j < k {
                    assert(nb[j] == bodies[j] && nb[j + 1] == bodies[j + 1] && t[j] == fs.take(k)[j]);
                    assert(fork_applied(bodies[j], bodies[j + 1], src, fs.take(k)[j]));
                } else {
                    assert(nb[j] == mid && nb[j + 1] == *body && t[j] == fs[k]);
                }
            }
            bodies = nb;
            assert(forks@ =~= all.skip(k + 1));
            k = k + 1;
        }
    }
    assert(fs.take(k) =~= fs);
    assert(fork_steps(bodies, src, fs));
}

// ── The 2-way form ─────────────────────────────────────────────────────

/// The 2-way helper for calls of `arity` arguments.
pub open spec fn pair_helper(arity: usize) -> Seq<char> {
    "parallel_runtime_parallel_invoke_2_fn"@ + decimal(arity as nat)
}

/// The fork of a pair found by `invoke_pairs`: both calls, the statements of
/// the blocks between them and of the second call's block move ahead, and
/// control goes on where the second call returned.
pub open spec fn pair_fork(p: (usize, usize, usize, usize, usize, usize, Seq<usize>)) -> ForkView {
    (p.0, p.2, seq![p.0, p.1], seq![p.4, p.5], p.6.push(p.1), pair_helper(p.3), p.3)
}

/// The body is left alone by the invoke transformations: they are off, the
/// body's crate is a sysroot crate, its function belongs to the parallel
/// runtime, or the body cannot match (fewer than `min_blocks` blocks,
/// always-inline or naked, or no call).
pub open spec fn invoke_gated(
    body: Body,
    enabled: bool,
    crate_name: Seq<char>,
    fn_name: Seq<char>,
    inline_always_or_naked: bool,
    min_blocks: usize,
) -> bool {
    !enabled || sysroot_crate(crate_name) || runtime_fn_name(fn_name, true) || quick_skip(
        body,
        min_blocks,
        true,
        inline_always_or_naked,
    )
}

proof fn lemma_pair_ready(body: Body, infos: Seq<CalleeInfo>, helpers: Seq<bool>, bb_a: int)
    requires
        body.targets_valid(),
        body.all_terminated(),
        0 <= bb_a < body.num_blocks(),
        invoke_pair_at(body, infos, helpers, bb_a) is Some,
    ensures
        ({
            let p = invoke_pair_at(body, infos, helpers, bb_a)->0;
            &&& p.0 == bb_a
            &&& p.2 < body.num_blocks()
            &&& p.3 <= 4
            &&& fork_ready(body, pair_fork(p))
        }),
{
    let (p1, args1, a, after) = call_parts(body, bb_a)->0;
    assert(crate::mir::terminator_targets_ok(body.basic_blocks@[bb_a].terminator->0, body.num_blocks()));
    lemma_passthrough_in_range(body, after, a, None, 8);
    lemma_pair_independent(body, infos, helpers, bb_a);
    let p = invoke_pair_at(body, infos, helpers, bb_a)->0;
    lemma_call_target(body, p.1 as int);
    let f = pair_fork(p);
    assert forall|k: int| 0 <= k < f.2.len() implies #[trigger] f.2[k] < body.num_blocks() && call_parts(
        body,
        f.2[k] as int,
    ) is Some && call_args(body, f.2[k]).len() == f.6 by {
        if k == 0 {
            assert(f.2[k] == p.0);
        } else {
            assert(f.2[k] == p.1);
        }
    }
    assert forall|k: int| 0 <= k < f.4.len() implies #[trigger] f.4[k] < body.num_blocks() by {
        if k < p.6.len() {
            assert(f.4[k] == p.6[k]);
        } else {
            assert(f.4[k] == p.1);
        }
    }
}

proof fn lemma_pairs_ready(body: Body, infos: Seq<CalleeInfo>, helpers: Seq<bool>, m: nat)
    requires
        body.targets_valid(),
        body.all_terminated(),
        m <= body.num_blocks(),
    ensures
        forall|k: int|
            0 <= k < invoke_pairs(body, infos, helpers, m).len() ==> {
                let p = #[trigger] invoke_pairs(body, infos, helpers, m)[k];
                p.2 < body.num_blocks() && p.3 <= 4 && fork_ready(body, pair_fork(p))
            },
    decreases m,
{
    if m > 0 {
        lemma_pairs_ready(body, infos, helpers, (m - 1) as nat);
        let prev = invoke_pairs(body, infos, helpers, (m - 1) as nat);
        let cur = invoke_pairs(body, infos, helpers, m);
        match invoke_pair_at(body, infos, helpers, m - 1) {
            Some(p) => {
                lemma_pair_ready(body, infos, helpers, m - 1);
                assert(cur =~= prev.push(p));
                assert forall|k: int| 0 <= k < cur.len() implies {
                    let q = #[trigger] cur[k];
                    q.2 < body.num_blocks() && q.3 <= 4 && fork_ready(body, pair_fork(q))
                } by {
                    if k < prev.len() {
                        assert(cur[k] == prev[k]);
                    }
                }
            },
            None => {
                assert(cur =~= prev);
            },
        }
    }
}

/// Forks the independent call pairs of a body through the 2-way helpers of
/// the runtime and returns how many were forked. Every pair that
/// `invoke_pairs` finds is forked, in block order, its data read off the
/// body as it was; nothing changes when the body is left alone (see
/// `invoke_gated`).
pub fn try_transform_parallel_invoke(
    body: &mut Body,
    enabled: bool,
    crate_name: &str,
    fn_name: &str,
    inline_always_or_naked: bool,
    infos: &Vec<CalleeInfo>,
    helpers: &Vec<bool>,
) -> (n: usize)
    requires
        old(body).targets_valid(),
        old(body).all_terminated(),
        infos@.len() == old(body).num_blocks(),
    ensures
        invoke_gated(*old(body), enabled, crate_name@, fn_name@, inline_always_or_naked, 3) ==> n == 0 && *final(body)
            == *old(body),
        !invoke_gated(*old(body), enabled, crate_name@, fn_name@, inline_always_or_naked, 3) ==> {
            let ps = invoke_pairs(*old(body), infos@, helpers@, old(body).num_blocks());
            &&& n == ps.len()
            &&& forks_applied(*old(body), *final(body), *old(body), ps.map_values(|p| pair_fork(p)))
        },
        final(body).targets_valid(),
        final(body).all_terminated(),
{
    let plans = parallel_invoke_pairs(body, enabled, crate_name, fn_name, inline_always_or_naked, infos, helpers);
    let ghost src = *body;
    let ghost views = plans@.map_values(|p: InvokePair| pair_fork(p.view_tuple()));
    proof {
        lemma_pairs_ready(src, infos@, helpers@, src.num_blocks());
    }
    let mut forks: Vec<Fork> = Vec::new();
    let mut k: usize = 0;
    while k < plans.len()
        invariant
            k <= plans@.len(),
            src == *body,
            views == plans@.map_values(|p: InvokePair| pair_fork(p.view_tuple())),
            forall|j: int| 0 <= j < plans@.len() ==> #[trigger] plans@[j].view_tuple().3 <= 4 && plans@[j].view_tuple().2
                < src.num_blocks() && fork_ready(src, pair_fork(plans@[j].view_tuple())),
            forks@.len() == k,
            forall|j: int| 0 <= j < k ==> #[trigger] fork_data_ok(forks@[j], src, views[j]) && views[j].0 < src.num_blocks()
                && views[j].1 < src.num_blocks(),
        decreases plans@.len() - k,
    {
        let p = &plans[k];
        assert(p.view_tuple().3 <= 4 && p.view_tuple().2 < src.num_blocks() && fork_ready(src, pair_fork(p.view_tuple())));
        let name = invoke_helper_name_for_arity(p.arity).unwrap().to_string();
        let mut calls: Vec<usize> = Vec::new();
        calls.push(p.bb_a);
        calls.push(p.bb_b);
        let mut dests: Vec<usize> = Vec::new();
        dests.push(p.a_local);
        dests.push(p.b_local);
        let mut inter = copy_indices(&p.passthrough);
        inter.push(p.bb_b);
        proof {
            assert(calls@ =~= seq![p.bb_a, p.bb_b]);
            assert(dests@ =~= seq![p.a_local, p.b_local]);
            assert(name@ == pair_helper(p.arity));
            assert(views[k as int] == pair_fork(p.view_tuple()));
        }
        let fk = read_fork(body, p.bb_a, p.bb_c, &calls, &dests, &inter, name, p.arity);
        let ghost prev = forks@;
        forks.push(fk);
        proof {
            assert forall|j: int| 0 <= j < k + 1 implies #[trigger] fork_data_ok(forks@[j], src, views[j]) && views[j].0
                < src.num_blocks() && views[j].1 < src.num_blocks() by {
                if j < k {
                    assert(forks@[j] == prev[j]);
                }
            }
        }
        k = k + 1;
    }
    let count = forks.len();
    apply_forks(body, forks, Ghost(src), Ghost(views));
    proof {
        if !invoke_gated(src, enabled, crate_name@, fn_name@, inline_always_or_naked, 3) {
            let ps = invoke_pairs(src, infos@, helpers@, src.num_blocks());
            assert(views =~= ps.map_values(|p| pair_fork(p)));
        } else {
            assert(views.len() == 0);
        }
    }
    count
}

// ── The N-way form ─────────────────────────────────────────────────────

/// The helper forking `n` calls of `arity` arguments each.
pub open spec fn chain_helper(n: usize, arity: usize) -> Seq<char> {
    "parallel_runtime_parallel_invoke_"@ + decimal(n as nat) + "_fn"@ + decimal(arity as nat)
}

/// The fork of a chain found by `chains_upto`: its calls, the statements of
/// every block it passed through or consumed, and control goes on where the
/// chain's last call returned.
pub open spec fn chain_fork(c: ChainView) -> ForkView {
    (c.0, c.1, c.6, c.4, c.5, chain_helper(c.2, c.3), c.3)
}

fn chain_helper_name(n: usize, arity: usize) -> (r: String)
    ensures
        r@ == chain_helper(n, arity),
{
    let mut s = String::new();
    s.append("parallel_runtime_parallel_invoke_");
    push_decimal(&mut s, n as u128);
    s.append("_fn");
    push_decimal(&mut s, arity as u128);
    proof {
        reveal_strlit("parallel_runtime_parallel_invoke_");
        reveal_strlit("_fn");
        assert(s@ =~= chain_helper(n, arity));
    }
    s
}

/// Calls and moved blocks of a chain being built can be read off the body.
spec fn links_ready(body: Body, arity: nat, calls: Seq<usize>, inter: Seq<usize>) -> bool {
    &&& forall|k: int|
        0 <= k < calls.len() ==> #[trigger] calls[k] < body.num_blocks() && call_parts(body, calls[k] as int) is Some
            && call_args(body, calls[k]).len() == arity
    &&& forall|k: int| 0 <= k < inter.len() ==> #[trigger] inter[k] < body.num_blocks()
}

proof fn lemma_call_target(body: Body, bb: int)
    requires
        body.targets_valid(),
        0 <= bb < body.num_blocks(),
        call_parts(body, bb) is Some,
    ensures
        (call_parts(body, bb)->0).3 < body.num_blocks(),
{
    assert(crate::mir::terminator_targets_ok(body.basic_blocks@[bb].terminator->0, body.num_blocks()));
}

proof fn lemma_next_link_ready(
    body: Body,
    infos: Seq<CalleeInfo>,
    after: usize,
    dests: Seq<usize>,
    arity: nat,
    costs: Seq<usize>,
    identical: bool,
)
    requires
        body.targets_valid(),
        body.all_terminated(),
        after < body.num_blocks(),
        next_link(body, infos, after, dests, arity, costs, identical) is Some,
    ensures
        ({
            let l = next_link(body, infos, after, dests, arity, costs, identical)->0;
            &&& links_ready(body, arity, seq![l.0], l.1)
            &&& l.3 < body.num_blocks()
        }),
{
    lemma_passthrough_in_range(body, after, dests.last(), None, 4);
    let l = next_link(body, infos, after, dests, arity, costs, identical)->0;
    lemma_call_target(body, l.0 as int);
    assert(seq![l.0][0] == l.0);
}

proof fn lemma_links_join(body: Body, arity: nat, c1: Seq<usize>, i1: Seq<usize>, c2: Seq<usize>, i2: Seq<usize>)
    requires
        links_ready(body, arity, c1, i1),
        links_ready(body, arity, c2, i2),
    ensures
        links_ready(body, arity, c1 + c2, i1 + i2),
{
    assert forall|k: int| 0 <= k < (c1 + c2).len() implies #[trigger] (c1 + c2)[k] < body.num_blocks() && call_parts(
        body,
        (c1 + c2)[k] as int,
    ) is Some && call_args(body, (c1 + c2)[k]).len() == arity by {
        if k < c1.len() {
            assert((c1 + c2)[k] == c1[k]);
        } else {
            assert((c1 + c2)[k] == c2[k - c1.len()]);
        }
    }
    assert forall|k: int| 0 <= k < (i1 + i2).len() implies #[trigger] (i1 + i2)[k] < body.num_blocks() by {
        if k < i1.len() {
            assert((i1 + i2)[k] == i1[k]);
        } else {
            assert((i1 + i2)[k] == i2[k - i1.len()]);
        }
    }
}

proof fn lemma_extend_ready(body: Body, infos: Seq<CalleeInfo>, arity: nat, st: ChainState, fuel: nat)
    requires
        body.targets_valid(),
        body.all_terminated(),
        st.0 < body.num_blocks(),
        links_ready(body, arity, st.3, st.4),
    ensures
        links_ready(body, arity, extend_chain(body, infos, arity, st, fuel).3, extend_chain(body, infos, arity, st, fuel).4),
        extend_chain(body, infos, arity, st, fuel).0 < body.num_blocks(),
    decreases fuel,
{
    if fuel > 0 {
        match next_link(body, infos, st.0, st.1, arity, st.2, true) {
            None => {},
            Some((nb, inter, d, t, c)) => {
                lemma_next_link_ready(body, infos, st.0, st.1, arity, st.2, true);
                lemma_links_join(body, arity, seq![], inter, seq![nb], seq![nb]);
                assert(Seq::<usize>::empty() + seq![nb] =~= seq![nb]);
                lemma_links_join(body, arity, st.3, st.4, seq![nb], inter + seq![nb]);
                assert(st.3 + seq![nb] =~= st.3.push(nb));
                assert(st.4 + (inter + seq![nb]) =~= st.4 + inter + seq![nb]);
                lemma_extend_ready(
                    body,
                    infos,
                    arity,
                    (t, st.1.push(d), st.2.push(c), st.3.push(nb), st.4 + inter + seq![nb]),
                    (fuel - 1) as nat,
                );
            },
        }
    }
}

proof fn lemma_extend_lengths(body: Body, infos: Seq<CalleeInfo>, arity: nat, st: ChainState, fuel: nat)
    requires
        st.1.len() == st.3.len(),
    ensures
        extend_chain(body, infos, arity, st, fuel).1.len() == extend_chain(body, infos, arity, st, fuel).3.len(),
    decreases fuel,
{
    if fuel > 0 {
        match next_link(body, infos, st.0, st.1, arity, st.2, true) {
            None => {},
            Some((nb, inter, d, t, c)) => {
                lemma_extend_lengths(
                    body,
                    infos,
                    arity,
                    (t, st.1.push(d), st.2.push(c), st.3.push(nb), st.4 + inter + seq![nb]),
                    (fuel - 1) as nat,
                );
            },
        }
    }
}

proof fn lemma_chain_ready(body: Body, infos: Seq<CalleeInfo>, helpers: Seq<Seq<bool>>, bb_a: int)
    requires
        body.targets_valid(),
        body.all_terminated(),
        0 <= bb_a < body.num_blocks(),
        chain_at(body, infos, helpers, bb_a) is Some,
    ensures
        ({
            let c = (chain_at(body, infos, helpers, bb_a)->0).0;
            &&& c.0 == bb_a
            &&& c.1 < body.num_blocks()
            &&& links_ready(body, c.3 as nat, c.6, c.5)
        }),
{
    assert(body.basic_blocks@.len() == body.basic_blocks.len());
    let (args1, d1, t1) = chain_call(body, infos, bb_a)->0;
    let arity = args1.len();
    lemma_call_target(body, bb_a);
    let i1 = infos[bb_a];
    let l2 = next_link(body, infos, t1, seq![d1], arity, seq![i1.cost], false)->0;
    let (bb_b, inter1, d2, t2, c2) = l2;
    lemma_next_link_ready(body, infos, t1, seq![d1], arity, seq![i1.cost], false);
    let l3 = next_link(body, infos, t2, seq![d1, d2], arity, seq![i1.cost, c2], false)->0;
    let (bb_c, inter2, d3, t3, c3) = l3;
    lemma_next_link_ready(body, infos, t2, seq![d1, d2], arity, seq![i1.cost, c2], false);
    assert(links_ready(body, arity, seq![bb_a as usize], Seq::empty())) by {
        assert(seq![bb_a as usize][0] == bb_a);
    }
    lemma_links_join(body, arity, seq![bb_a as usize], Seq::empty(), seq![bb_b], inter1);
    lemma_links_join(body, arity, Seq::empty(), seq![bb_b], Seq::empty(), seq![bb_b]);
    assert(Seq::<usize>::empty() + Seq::<usize>::empty() =~= Seq::<usize>::empty());
    assert(Seq::<usize>::empty() + seq![bb_b] =~= seq![bb_b]);
    lemma_links_join(body, arity, seq![bb_a as usize] + seq![bb_b], Seq::empty() + inter1, Seq::empty(), seq![bb_b]);
    lemma_links_join(body, arity, Seq::empty(), seq![bb_c], Seq::empty(), seq![bb_c]);
    assert(Seq::<usize>::empty() + seq![bb_c] =~= seq![bb_c]);
    lemma_links_join(
        body,
        arity,
        seq![bb_a as usize] + seq![bb_b] + Seq::empty(),
        Seq::empty() + inter1 + seq![bb_b],
        seq![bb_c],
        inter2,
    );
    lemma_links_join(
        body,
        arity,
        seq![bb_a as usize] + seq![bb_b] + Seq::empty() + seq![bb_c],
        Seq::empty() + inter1 + seq![bb_b] + inter2,
        Seq::empty(),
        seq![bb_c],
    );
    let calls3 = seq![bb_a as usize, bb_b, bb_c];
    let base = inter1 + seq![bb_b] + inter2 + seq![bb_c];
    assert(seq![bb_a as usize] + seq![bb_b] + Seq::empty() + seq![bb_c] + Seq::empty() =~= calls3);
    assert(Seq::empty() + inter1 + seq![bb_b] + inter2 + seq![bb_c] =~= base);
    assert(links_ready(body, arity, calls3, base));
    let four = if helper_ok(helpers, 4, arity as int) {
        next_link(body, infos, t3, seq![d1, d2, d3], arity, seq![i1.cost, c2, c3], false)
    } else {
        None
    };
    match four {
        Some((bb_d, inter3, d4, t4, c4)) => {
            lemma_next_link_ready(body, infos, t3, seq![d1, d2, d3], arity, seq![i1.cost, c2, c3], false);
            lemma_links_join(body, arity, calls3, base, seq![bb_d], inter3);
            lemma_links_join(body, arity, Seq::empty(), seq![bb_d], Seq::empty(), seq![bb_d]);
            assert(Seq::<usize>::empty() + seq![bb_d] =~= seq![bb_d]);
            lemma_links_join(body, arity, calls3 + seq![bb_d], base + inter3, Seq::empty(), seq![bb_d]);
            let calls4 = seq![bb_a as usize, bb_b, bb_c, bb_d];
            assert(calls3 + seq![bb_d] + Seq::empty() =~= calls4);
            let st0: ChainState = (
                t4,
                seq![d1, d2, d3, d4],
                seq![i1.cost, c2, c3, c4],
                calls4,
                base + inter3 + seq![bb_d],
            );
            lemma_extend_ready(body, infos, arity, st0, (MAX_INVOKE_CHAIN - 4) as nat);
            let st = extend_chain(body, infos, arity, st0, (MAX_INVOKE_CHAIN - 4) as nat);
            let n = best_n(helpers, st.1.len() as int, arity as int);
            if n >= 3 && infos[bb_d as int].dest_ty_identical {
                crate::invoke::lemma_best_n(helpers, st.1.len() as int, arity as int);
                lemma_extend_lengths(body, infos, arity, st0, (MAX_INVOKE_CHAIN - 4) as nat);
                let c = (chain_at(body, infos, helpers, bb_a)->0).0;
                assert(c.6 == st.3.take(n));
                assert forall|k: int| 0 <= k < c.6.len() implies #[trigger] c.6[k] < body.num_blocks() && call_parts(
                    body,
                    c.6[k] as int,
                ) is Some && call_args(body, c.6[k]).len() == c.3 as nat by {
                    assert(c.6[k] == st.3[k]);
                }
            }
        },
        None => {},
    }
}

proof fn lemma_chains_ready(body: Body, infos: Seq<CalleeInfo>, helpers: Seq<Seq<bool>>, m: nat)
    requires
        body.targets_valid(),
        body.all_terminated(),
        m <= body.num_blocks(),
    ensures
        forall|k: int|
            0 <= k < chains_upto(body, infos, helpers, m).0.len() ==> {
                let c = #[trigger] chains_upto(body, infos, helpers, m).0[k];
                &&& c.0 < body.num_blocks()
                &&& c.1 < body.num_blocks()
                &&& links_ready(body, c.3 as nat, c.6, c.5)
            },
    decreases m,
{
    if m > 0 {
        lemma_chains_ready(body, infos, helpers, (m - 1) as nat);
        let prev = chains_upto(body, infos, helpers, (m - 1) as nat);
        if !prev.1.contains((m - 1) as usize) {
            match chain_at(body, infos, helpers, m - 1) {
                Some((c, used)) => {
                    lemma_chain_ready(body, infos, helpers, m - 1);
                    let cur = chains_upto(body, infos, helpers, m).0;
                    assert forall|k: int| 0 <= k < cur.len() implies {
                        let c = #[trigger] cur[k];
                        &&& c.0 < body.num_blocks()
                        &&& c.1 < body.num_blocks()
                        &&& links_ready(body, c.3 as nat, c.6, c.5)
                    } by {
                        if k < prev.0.len() {
                            assert(cur[k] == prev.0[k]);
                        }
                    }
                },
                None => {},
            }
        }
    }
}

/// Forks the chains of independent calls of a body through the N-way
/// helpers of the runtime and returns how many were forked. Every chain
/// that `chains_upto` finds is forked, in block order, its data read off the
/// body as it was; nothing changes when the body is left alone (see
/// `invoke_gated`, here with at least 4 blocks).
pub fn try_transform_parallel_invoke_n_way(
    body: &mut Body,
    enabled: bool,
    crate_name: &str,
    fn_name: &str,
    inline_always_or_naked: bool,
    infos: &Vec<CalleeInfo>,
    helpers: &Vec<Vec<bool>>,
) -> (n: usize)
    requires
        old(body).targets_valid(),
        old(body).all_terminated(),
        infos@.len() == old(body).num_blocks(),
    ensures
        invoke_gated(*old(body), enabled, crate_name@, fn_name@, inline_always_or_naked, 4) ==> n == 0 && *final(body)
            == *old(body),
        !invoke_gated(*old(body), enabled, crate_name@, fn_name@, inline_always_or_naked, 4) ==> {
            let cs = chains_upto(
                *old(body),
                infos@,
                helpers@.map_values(|v: Vec<bool>| v@),
                old(body).num_blocks(),
            ).0;
            &&& n == cs.len()
            &&& forks_applied(*old(body), *final(body), *old(body), cs.map_values(|c| chain_fork(c)))
        },
        final(body).targets_valid(),
        final(body).all_terminated(),
{
    let plans = parallel_invoke_chains(body, enabled, crate_name, fn_name, inline_always_or_naked, infos, helpers);
    let ghost src = *body;
    let ghost hs = helpers@.map_values(|v: Vec<bool>| v@);
    let ghost views = plans@.map_values(|c: InvokeChain| chain_fork(c.view_tuple()));
    proof {
        lemma_chains_ready(src, infos@, hs, src.num_blocks());
        lemma_chains_independent(src, infos@, hs, src.num_blocks());
    }
    assert forall|j: int| 0 <= j < plans@.len() implies #[trigger] fork_ready(src, chain_fork(plans@[j].view_tuple()))
        && plans@[j].view_tuple().1 < src.num_blocks() by {
        let c = plans@[j].view_tuple();
        let cs = chains_upto(src, infos@, hs, src.num_blocks()).0;
        assert(c == cs[j]);
        let f = chain_fork(c);
        assert(links_ready(src, c.3 as nat, c.6, c.5));
        assert forall|k: int| 0 <= k < f.2.len() implies #[trigger] f.2[k] < src.num_blocks() && call_parts(
            src,
            f.2[k] as int,
        ) is Some && call_args(src, f.2[k]).len() == f.6 by {
            assert(c.6[k] < src.num_blocks());
        }
        assert forall|k: int| 0 <= k < f.4.len() implies #[trigger] f.4[k] < src.num_blocks() by {
            assert(c.5[k] < src.num_blocks());
        }
    }
    let mut forks: Vec<Fork> = Vec::new();
    let mut k: usize = 0;
    while k < plans.len()
        invariant
            k <= plans@.len(),
            src == *body,
            views == plans@.map_values(|c: InvokeChain| chain_fork(c.view_tuple())),
            forall|j: int| 0 <= j < plans@.len() ==> #[trigger] fork_ready(src, chain_fork(plans@[j].view_tuple()))
                && plans@[j].view_tuple().1 < src.num_blocks(),
            forks@.len() == k,
            forall|j: int| 0 <= j < k ==> #[trigger] fork_data_ok(forks@[j], src, views[j]) && views[j].0 < src.num_blocks()
                && views[j].1 < src.num_blocks(),
        decreases plans@.len() - k,
    {
        let c = &plans[k];
        assert(fork_ready(src, chain_fork(c.view_tuple())) && c.view_tuple().1 < src.num_blocks());
        let name = chain_helper_name(c.n_calls, c.arity);
        assert(views[k as int] == chain_fork(c.view_tuple()));
        let fk = read_fork(body, c.bb_a, c.bb_after, &c.call_blocks, &c.dest_locals, &c.intermediate, name, c.arity);
        let ghost prev = forks@;
        forks.push(fk);
        proof {
            assert forall|j: int| 0 <= j < k + 1 implies #[trigger] fork_data_ok(forks@[j], src, views[j]) && views[j].0
                < src.num_blocks() && views[j].1 < src.num_blocks() by {
                if j < k {
                    assert(forks@[j] == prev[j]);
                }
            }
        }
        k = k + 1;
    }
    let count = forks.len();
    apply_forks(body, forks, Ghost(src), Ghost(views));
    proof {
        if !invoke_gated(src, enabled, crate_name@, fn_name@, inline_always_or_naked, 4) {
            let cs = chains_upto(src, infos@, hs, src.num_blocks()).0;
            assert(views =~= cs.map_values(|c| chain_fork(c)));
        } else {
            assert(views.len() == 0);
        }
    }
    count
}

} // verus!
