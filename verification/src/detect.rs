//! Loop and idiom detection on a body: loops found from back edges, and the
//! reductions, privatizable locals and induction variables inside them.
use vstd::prelude::*;
use std::collections::BTreeMap;
use vstd::std_specs::iter::IteratorSpec;
use vstd::std_specs::cmp::OrdSpec;
use crate::mir::{terminator_targets_ok, Body, StatementKind, TerminatorKind, Operand, Place, Rvalue, BinOp, Const, ProjectionElem};
use crate::cfg::{ControlFlowGraph, CfgNode, EdgeKind, terminator_edges};
use crate::idioms::{is_associative_commutative, is_assoc_comm, wrapping_method_to_binop, wrapping_binop_spec};
use crate::text::{last_segment, ends_with_text};

verus! {

broadcast use {vstd::std_specs::btree::group_btree_axioms, vstd::laws_cmp::group_laws_cmp};

/// The block targets among a terminator's edges, in order (EXIT left out).
pub open spec fn block_targets(es: Seq<(CfgNode, EdgeKind)>) -> Seq<usize>
    decreases es.len(),
{
    if es.len() == 0 {
        Seq::empty()
    } else {
        block_targets(es.drop_last()) + match es.last().0 {
            CfgNode::Block(b) => seq![b],
            CfgNode::Exit => Seq::empty(),
        }
    }
}

/// The successor blocks of a terminator, in order.
pub open spec fn successors_spec(k: TerminatorKind) -> Seq<usize> {
    block_targets(terminator_edges(k))
}

/// The successor blocks of a terminator, in order.
pub fn terminator_successors(k: &TerminatorKind) -> (r: Vec<usize>)
    ensures
        r@ == successors_spec(*k),
{
    let es = ControlFlowGraph::terminator_edge_list(k);
    let mut r: Vec<usize> = Vec::new();
    let mut i: usize = 0;
    while i < es.len()
        invariant
            i <= es@.len(),
            es@ == terminator_edges(*k),
            r@ == block_targets(es@.take(i as int)),
        decreases es@.len() - i,
    {
        assert(es@.take(i + 1).drop_last() =~= es@.take(i as int));
        match es[i].0 {
            CfgNode::Block(b) => {
                r.push(b);
            },
            CfgNode::Exit => {},
        }
        proof {
            assert(r@ =~= block_targets(es@.take(i + 1)));
        }
        i = i + 1;
    }
    assert(es@.take(i as int) =~= es@);
    r
}

/// The terminator of block `i` (none while it is missing).
pub open spec fn term_of(body: Body, i: int) -> Option<TerminatorKind> {
    body.basic_blocks@[i].terminator
}

/// The statements of block `i`.
pub open spec fn stmts_of(body: Body, i: int) -> Seq<StatementKind> {
    body.basic_blocks@[i].statements@
}

/// (target, source) for the successors `succs` of block `b` that lie before it.
pub open spec fn back_edges_from(b: usize, succs: Seq<usize>) -> Seq<(usize, usize)>
    decreases succs.len(),
{
    if succs.len() == 0 {
        Seq::empty()
    } else {
        back_edges_from(b, succs.drop_last()) + if succs.last() < b {
            seq![(succs.last(), b)]
        } else {
            Seq::empty()
        }
    }
}

/// The back edges of blocks `0..m`, as (header, latch), in scanning order.
pub open spec fn back_edges_upto(body: Body, m: nat) -> Seq<(usize, usize)>
    decreases m,
{
    if m == 0 {
        Seq::empty()
    } else {
        back_edges_upto(body, (m - 1) as nat) + match term_of(body, m - 1) {
            Some(k) => back_edges_from((m - 1) as usize, successors_spec(k)),
            None => Seq::empty(),
        }
    }
}

/// Some pair in `s` has header `h`.
pub open spec fn has_header(s: Seq<(usize, usize)>, h: usize) -> bool {
    exists|k: int| 0 <= k < s.len() && (#[trigger] s[k]).0 == h
}

/// The first back edge for each header, in order.
pub open spec fn first_per_header(s: Seq<(usize, usize)>) -> Seq<(usize, usize)>
    decreases s.len(),
{
    if s.len() == 0 {
        Seq::empty()
    } else {
        let d = first_per_header(s.drop_last());
        if has_header(d, s.last().0) {
            d
        } else {
            d.push(s.last())
        }
    }
}

/// Blocks `lo..=hi` in order.
pub open spec fn block_range(lo: usize, hi: usize) -> Seq<usize> {
    Seq::new((hi - lo + 1) as nat, |i: int| (lo + i) as usize)
}

/// A loop: its header and the blocks from the header to the latch, by index.
#[derive(Debug)]
pub struct SimpleLoop {
    pub header: usize,
    pub body: Vec<usize>,
}

/// The loops of a body: one per header, from the first back edge found to
/// it, with the blocks whose indices lie from the header to that edge's
/// source.
pub open spec fn loops_spec(body: Body) -> Seq<(usize, usize)> {
    first_per_header(back_edges_upto(body, body.num_blocks()))
}

/// Find loops by scanning for back edges.
pub fn find_simple_loops(body: &Body) -> (r: Vec<SimpleLoop>)
    requires
        body.targets_valid(),
        body.all_terminated(),
    ensures
        r@.len() == loops_spec(*body).len(),
        forall|k: int|
            0 <= k < r@.len() ==> (#[trigger] r@[k]).header == loops_spec(*body)[k].0 && r@[k].body@
                == block_range(loops_spec(*body)[k].0, loops_spec(*body)[k].1),
{
    let n = body.basic_blocks.len();
    let mut loops: Vec<SimpleLoop> = Vec::new();
    let mut seen_headers: Vec<bool> = Vec::new();
    let mut i: usize = 0;
    while i < n
        invariant
            i <= n,
            seen_headers@.len() == i,
            forall|j: int| 0 <= j < i ==> !seen_headers@[j],
        decreases n - i,
    {
        seen_headers.push(false);
        i = i + 1;
    }
    let ghost empty_pairs = Seq::<(usize, usize)>::empty();
    let mut b: usize = 0;
    while b < n
        invariant
            n == body.basic_blocks@.len(),
            body.targets_valid(),
            body.all_terminated(),
            b <= n,
            seen_headers@.len() == n,
            loops@.len() == first_per_header(back_edges_upto(*body, b as nat)).len(),
            forall|k: int|
                0 <= k < loops@.len() ==> (#[trigger] loops@[k]).header == first_per_header(
                    back_edges_upto(*body, b as nat),
                )[k].0 && loops@[k].body@ == block_range(
                    first_per_header(back_edges_upto(*body, b as nat))[k].0,
                    first_per_header(back_edges_upto(*body, b as nat))[k].1,
                ),
            forall|h: int|
                0 <= h < n ==> (#[trigger] seen_headers@[h] <==> has_header(
                    first_per_header(back_edges_upto(*body, b as nat)),
                    h as usize,
                )),
        decreases n - b,
    {
        let term = match &body.basic_blocks[b].terminator {
            Some(t) => t,
            None => {
                proof {
                    assert(body.basic_blocks@[b as int].terminator is Some);
                }
                return loops;
            },
        };
        let succs = terminator_successors(term);
        proof {
            lemma_successor_targets(*term, n as nat);
        }
        let ghost base = back_edges_upto(*body, b as nat);
        let mut t: usize = 0;
        while t < succs.len()
            invariant
                n == body.basic_blocks@.len(),
                b < n,
                seen_headers@.len() == n,
                succs@ == successors_spec(*term),
                forall|u: int| 0 <= u < succs@.len() ==> #[trigger] succs@[u] < n,
                t <= succs@.len(),
                loops@.len() == first_per_header(base + back_edges_from(b, succs@.take(t as int))).len(),
                forall|k: int|
                    0 <= k < loops@.len() ==> (#[trigger] loops@[k]).header == first_per_header(
                        base + back_edges_from(b, succs@.take(t as int)),
                    )[k].0 && loops@[k].body@ == block_range(
                        first_per_header(base + back_edges_from(b, succs@.take(t as int)))[k].0,
                        first_per_header(base + back_edges_from(b, succs@.take(t as int)))[k].1,
                    ),
                forall|h: int|
                    0 <= h < n ==> (#[trigger] seen_headers@[h] <==> has_header(
                        first_per_header(base + back_edges_from(b, succs@.take(t as int))),
                        h as usize,
                    )),
            decreases succs@.len() - t,
        {
            let succ = succs[t];
            let ghost prev = base + back_edges_from(b, succs@.take(t as int));
            proof {
                assert(succs@.take(t + 1).drop_last() =~= succs@.take(t as int));
                assert(succs@.take(t + 1).last() == succ);
            }
            if succ >= b {
                proof {
                    assert(base + back_edges_from(b, succs@.take(t + 1)) =~= prev);
                }
                t = t + 1;
                continue;
            }
            let ghost cur = base + back_edges_from(b, succs@.take(t + 1));
            proof {
                assert(cur =~= prev.push((succ, b)));
                assert(cur.drop_last() =~= prev);
            }
            if seen_headers[succ] {
                t = t + 1;
                continue;
            }
            seen_headers.set(succ, true);
            // indices from header to latch
            let mut body_set: Vec<usize> = Vec::new();
            let mut x: usize = succ;
            while x <= b
                invariant
                    succ <= x <= b + 1,
                    b < n,
                    body_set@ == block_range(succ, (x - 1) as usize).take((x - succ) as int),
                    body_set@.len() == x - succ,
                    forall|j: int| 0 <= j < body_set@.len() ==> body_set@[j] == succ + j,
                decreases b + 1 - x,
            {
                body_set.push(x);
                x = x + 1;
            }
            proof {
                assert(body_set@ =~= block_range(succ, b));
            }
            loops.push(SimpleLoop { header: succ, body: body_set });
            proof {
                let d = first_per_header(prev);
                assert(!has_header(d, succ));
                assert(first_per_header(cur) == d.push((succ, b)));
                assert forall|h: int| 0 <= h < n implies (#[trigger] seen_headers@[h] <==> has_header(
                    first_per_header(cur),
                    h as usize,
                )) by {
                    let e = d.push((succ, b));
                    if has_header(d, h as usize) {
                        let k = choose|k: int| 0 <= k < d.len() && (#[trigger] d[k]).0 == h as usize;
                        assert(e[k] == d[k]);
                    }
                    if has_header(e, h as usize) {
                        let k = choose|k: int| 0 <= k < e.len() && (#[trigger] e[k]).0 == h as usize;
                        if k < d.len() {
                            assert(e[k] == d[k]);
                        }
                    }
                    if h == succ {
                        assert(e[d.len() as int].0 == succ);
                    }
                }
            }
            t = t + 1;
        }
        proof {
            assert(succs@.take(t as int) =~= succs@);
            assert(back_edges_upto(*body, (b + 1) as nat) == base + back_edges_from(b, successors_spec(*term)));
        }
        b = b + 1;
    }
    loops
}

/// A reduction: the loop, the accumulator, the operator, and the statement
/// that updates it (index = number of statements for a call terminator).
#[derive(Debug, Clone, Copy, PartialEq, Eq, Structural)]
pub struct ReductionFinding {
    pub loop_header: usize,
    pub accumulator: usize,
    pub op: BinOp,
    /// Block holding the accumulator update statement
    pub update_block: usize,
    pub update_index: usize,
}

/// A local written before it is read in every iteration.
#[derive(Debug, Clone, Copy, PartialEq, Eq, Structural)]
pub struct PrivatizableFinding {
    pub loop_header: usize,
    pub local: usize,
}

/// An induction variable, updated only by adding a constant.
#[derive(Debug, Clone, Copy, PartialEq, Eq, Structural)]
pub struct InductionFinding {
    pub loop_header: usize,
    pub iv_local: usize,
    pub op: BinOp,
}

/// Per-function findings sink so the caller can batch.
#[derive(Debug)]
pub struct IdiomFindings {
    pub reductions: Vec<ReductionFinding>,
    pub privatizable: Vec<PrivatizableFinding>,
    pub inductions: Vec<InductionFinding>,
}

/// The operand reads exactly the local `l` (a copy or move of the bare
/// local).
pub open spec fn operand_reads(o: Operand, l: usize) -> bool {
    match o {
        Operand::Copy(p) => p.local == l && p.projection@.len() == 0,
        Operand::Move(p) => p.local == l && p.projection@.len() == 0,
        Operand::Constant(_) => false,
    }
}

/// Does the operand read `local`? Constants never do.
pub fn operand_reads_local(operand: &Operand, local: usize) -> (r: bool)
    ensures
        r == operand_reads(*operand, local),
{
    match operand {
        Operand::Copy(place) | Operand::Move(place) => place.local == local && place.projection.len()
            == 0,
        Operand::Constant(_) => false,
    }
}

/// `acc = acc OP x` or `acc = x OP acc` for an associative and commutative
/// operator, `x` not reading the bare accumulator: (accumulator, operator).
pub open spec fn binop_reduction(s: StatementKind) -> Option<(usize, BinOp)> {
    match s {
        StatementKind::Assign(place, Rvalue::BinaryOp(op, lhs, rhs)) => {
            let acc = place.local;
            if place.projection@.len() == 0 && is_assoc_comm(op) && operand_reads(lhs, acc)
                != operand_reads(rhs, acc) {
                Some((acc, op))
            } else {
                None
            }
        },
        _ => None,
    }
}

/// The reductions that the first `m` statements of block `bb` hold.
pub open spec fn stmt_reductions(header: usize, bb: usize, stmts: Seq<StatementKind>, m: nat) -> Seq<
    ReductionFinding,
>
    decreases m,
{
    if m == 0 {
        Seq::empty()
    } else {
        stmt_reductions(header, bb, stmts, (m - 1) as nat) + match binop_reduction(stmts[m - 1]) {
            Some((acc, op)) => seq![
                ReductionFinding {
                    loop_header: header,
                    accumulator: acc,
                    op,
                    update_block: bb,
                    update_index: (m - 1) as usize,
                },
            ],
            None => Seq::empty(),
        }
    }
}

/// The statement reductions of the first `k` blocks of a loop.
pub open spec fn loop_binop_reductions(body: Body, header: usize, blocks: Seq<usize>, k: nat) -> Seq<
    ReductionFinding,
>
    decreases k,
{
    if k == 0 {
        Seq::empty()
    } else {
        let bb = blocks[k - 1];
        loop_binop_reductions(body, header, blocks, (k - 1) as nat) + stmt_reductions(
            header,
            bb,
            stmts_of(body, bb as int),
            stmts_of(body, bb as int).len(),
        )
    }
}

/// The loop's blocks exist.
pub open spec fn loop_ok(body: Body, blocks: Seq<usize>) -> bool {
    forall|k: int| 0 <= k < blocks.len() ==> #[trigger] blocks[k] < body.num_blocks()
}

/// Reductions written as a binary operation statement.
pub fn detect_reductions_via_binop(body: &Body, lp: &SimpleLoop, findings: &mut IdiomFindings)
    requires
        loop_ok(*body, lp.body@),
    ensures
        final(findings).reductions@ == old(findings).reductions@ + loop_binop_reductions(
            *body,
            lp.header,
            lp.body@,
            lp.body@.len(),
        ),
        final(findings).privatizable@ == old(findings).privatizable@,
        final(findings).inductions@ == old(findings).inductions@,
{
    let ghost start = findings.reductions@;
    let mut k: usize = 0;
    while k < lp.body.len()
        invariant
            k <= lp.body@.len(),
            loop_ok(*body, lp.body@),
            findings.reductions@ == start + loop_binop_reductions(*body, lp.header, lp.body@, k as nat),
            findings.privatizable@ == old(findings).privatizable@,
            findings.inductions@ == old(findings).inductions@,
        decreases lp.body@.len() - k,
    {
        let bb = lp.body[k];
        let block = &body.basic_blocks[bb];
        let ghost stmts = block.statements@;
        let ghost mid = findings.reductions@;
        let mut idx: usize = 0;
        while idx < block.statements.len()
            invariant
                idx <= stmts.len(),
                stmts == block.statements@,
                findings.reductions@ == mid + stmt_reductions(lp.header, bb, stmts, idx as nat),
                findings.privatizable@ == old(findings).privatizable@,
                findings.inductions@ == old(findings).inductions@,
            decreases stmts.len() - idx,
        {
            match &block.statements[idx] {
                StatementKind::Assign(place, Rvalue::BinaryOp(op, lhs, rhs)) => {
                    let acc_local = place.local;
                    if place.projection.len() == 0 && is_associative_commutative(*op) {
                        let acc_on_lhs = operand_reads_local(lhs, acc_local);
                        let acc_on_rhs = operand_reads_local(rhs, acc_local);
                        if acc_on_lhs != acc_on_rhs {
                            let other = if acc_on_lhs {
                                rhs
                            } else {
                                lhs
                            };
                            if !operand_reads_local(other, acc_local) {
                                findings.reductions.push(
                                    ReductionFinding {
                                        loop_header: lp.header,
                                        accumulator: acc_local,
                                        op: *op,
                                        update_block: bb,
                                        update_index: idx,
                                    },
                                );
                            }
                        }
                    }
                },
                _ => {},
            }
            proof {
                assert(findings.reductions@ =~= mid + stmt_reductions(lp.header, bb, stmts, (idx + 1) as nat));
            }
            idx = idx + 1;
        }
        proof {
            assert(findings.reductions@ =~= start + loop_binop_reductions(*body, lp.header, lp.body@, (k + 1) as nat));
        }
        k = k + 1;
    }
}

/// The function-item path of a call's callee operand.
pub open spec fn callee_path(o: Operand) -> Option<Seq<char>> {
    match o {
        Operand::Constant(Const::FnDef { path }) => Some(path@),
        _ => None,
    }
}

/// Scanning a block from the start: the local that first receives a copy
/// or move of `result`, unless `result` is itself overwritten first.
pub open spec fn first_copy_of(stmts: Seq<StatementKind>, result: usize) -> Option<usize>
    decreases stmts.len(),
{
    if stmts.len() == 0 {
        None
    } else {
        match stmts[0] {
            StatementKind::Assign(place, rv) => if place.projection@.len() == 0 {
                if (rv matches Rvalue::Use(o) && operand_reads(o, result)) {
                    Some(place.local)
                } else if place.local == result {
                    None
                } else {
                    first_copy_of(stmts.skip(1), result)
                }
            } else {
                first_copy_of(stmts.skip(1), result)
            },
            _ => first_copy_of(stmts.skip(1), result),
        }
    }
}

/// The bare locals that a call's arguments copy or move.
pub open spec fn arg_locals(args: Seq<Operand>) -> Seq<usize>
    decreases args.len(),
{
    if args.len() == 0 {
        Seq::empty()
    } else {
        arg_locals(args.drop_last()) + match args.last() {
            Operand::Copy(p) => if p.projection@.len() == 0 {
                seq![p.local]
            } else {
                Seq::empty()
            },
            Operand::Move(p) => if p.projection@.len() == 0 {
                seq![p.local]
            } else {
                Seq::empty()
            },
            Operand::Constant(_) => Seq::empty(),
        }
    }
}

/// Statement `s` loads the bare local `acc` into one of `args`.
pub open spec fn loads_into(s: StatementKind, args: Seq<usize>, acc: usize) -> bool {
    match s {
        StatementKind::Assign(place, Rvalue::Use(o)) => place.projection@.len() == 0 && args.contains(
            place.local,
        ) && operand_reads(o, acc),
        _ => false,
    }
}

/// A reduction through a `wrapping_*`-style call at the end of block `bb`:
/// `tmp = acc; res = op(tmp, x); ... acc = res` with the write-back in a
/// successor block of the loop.
pub open spec fn call_reduction(body: Body, header: usize, blocks: Seq<usize>, bb: usize) -> Option<
    ReductionFinding,
> {
    match term_of(body, bb as int) {
        Some(TerminatorKind::Call { func, args, destination, target, .. }) => {
            let result = destination.local;
            if destination.projection@.len() == 0 && callee_path(func) is Some && wrapping_binop_spec(
                last_segment(callee_path(func)->0),
            ) is Some && is_assoc_comm(wrapping_binop_spec(last_segment(callee_path(func)->0))->0)
                && args@.len() == 2 && target is Some && blocks.contains(target->0) && first_copy_of(
                stmts_of(body, target->0 as int),
                result,
            ) is Some && first_copy_of(stmts_of(body, target->0 as int), result)->0 != result
                && exists|i: int|
                0 <= i < stmts_of(body, bb as int).len() && #[trigger] loads_into(
                    stmts_of(body, bb as int)[i],
                    arg_locals(args@),
                    first_copy_of(stmts_of(body, target->0 as int), result)->0,
                ) {
                Some(
                    ReductionFinding {
                        loop_header: header,
                        accumulator: first_copy_of(stmts_of(body, target->0 as int), result)->0,
                        op: wrapping_binop_spec(last_segment(callee_path(func)->0))->0,
                        update_block: bb,
                        update_index: stmts_of(body, bb as int).len() as usize,
                    },
                )
            } else {
                None
            }
        },
        _ => None,
    }
}

/// The call reductions of the first `k` blocks of a loop.
pub open spec fn loop_call_reductions(body: Body, header: usize, blocks: Seq<usize>, k: nat) -> Seq<
    ReductionFinding,
>
    decreases k,
{
    if k == 0 {
        Seq::empty()
    } else {
        loop_call_reductions(body, header, blocks, (k - 1) as nat) + match call_reduction(
            body,
            header,
            blocks,
            blocks[k - 1],
        ) {
            Some(f) => seq![f],
            None => Seq::empty(),
        }
    }
}

pub(crate) fn contains_usize(v: &Vec<usize>, x: usize) -> (r: bool)
    ensures
        r == v@.contains(x),
{
    let mut i: usize = 0;
    while i < v.len()
        invariant
            i <= v@.len(),
            forall|j: int| 0 <= j < i ==> v@[j] != x,
        decreases v@.len() - i,
    {
        if v[i] == x {
            return true;
        }
        i = i + 1;
    }
    false
}

/// The local that first receives a copy of `result` in `stmts`.
pub(crate) fn find_first_copy(stmts: &Vec<StatementKind>, result: usize) -> (r: Option<usize>)
    ensures
        r == first_copy_of(stmts@, result),
{
    let mut i: usize = 0;
    assert(stmts@.skip(0) =~= stmts@);
    while i < stmts.len()
        invariant
            i <= stmts@.len(),
            first_copy_of(stmts@, result) == first_copy_of(stmts@.skip(i as int), result),
        decreases stmts@.len() - i,
    {
        let ghost rest = stmts@.skip(i as int);
        proof {
            assert(rest[0] == stmts@[i as int]);
            assert(rest.skip(1) =~= stmts@.skip(i + 1));
        }
        match &stmts[i] {
            StatementKind::Assign(place, rvalue) => {
                if place.projection.len() == 0 {
                    let candidate = place.local;
                    // `move _result` or `copy _result`
                    let reads_result = match rvalue {
                        Rvalue::Use(operand) => operand_reads_local(operand, result),
                        _ => false,
                    };
                    if reads_result {
                        return Some(candidate);
                    }
                    // another write to result_local first aborts
                    if candidate == result {
                        return None;
                    }
                }
            },
            _ => {},
        }
        i = i + 1;
    }
    proof {
        assert(stmts@.skip(i as int).len() == 0);
    }
    None
}

pub(crate) fn collect_arg_locals(args: &Vec<Operand>) -> (r: Vec<usize>)
    ensures
        r@ == arg_locals(args@),
{
    let mut r: Vec<usize> = Vec::new();
    let mut i: usize = 0;
    while i < args.len()
        invariant
            i <= args@.len(),
            r@ == arg_locals(args@.take(i as int)),
        decreases args@.len() - i,
    {
        assert(args@.take(i + 1).drop_last() =~= args@.take(i as int));
        match &args[i] {
            Operand::Move(p) | Operand::Copy(p) => {
                if p.projection.len() == 0 {
                    r.push(p.local);
                }
            },
            _ => {},
        }
        proof {
            assert(r@ =~= arg_locals(args@.take(i + 1)));
        }
        i = i + 1;
    }
    assert(args@.take(i as int) =~= args@);
    r
}

/// Some statement loads `acc` into one of the argument locals.
fn find_acc_load(stmts: &Vec<StatementKind>, arg_locals_v: &Vec<usize>, acc: usize) -> (r: bool)
    ensures
        r == exists|i: int| 0 <= i < stmts@.len() && #[trigger] loads_into(stmts@[i], arg_locals_v@, acc),
{
    let mut i: usize = stmts.len();
    while i > 0
        invariant
            i <= stmts@.len(),
            forall|j: int| i <= j < stmts@.len() ==> !#[trigger] loads_into(stmts@[j], arg_locals_v@, acc),
        decreases i,
    {
        i = i - 1;
        match &stmts[i] {
            StatementKind::Assign(place, rvalue) => {
                if place.projection.len() == 0 && contains_usize(arg_locals_v, place.local) {
                    // RHS must read `_acc`
                    let reads_acc = match rvalue {
                        Rvalue::Use(operand) => operand_reads_local(operand, acc),
                        _ => false,
                    };
                    if reads_acc {
                        assert(loads_into(stmts@[i as int], arg_locals_v@, acc));
                        return true;
                    }
                }
            },
            _ => {},
        }
    }
    false
}

/// Reductions updated through `wrapping_*`-style calls.
pub fn detect_reductions_via_call(body: &Body, lp: &SimpleLoop, findings: &mut IdiomFindings)
    requires
        loop_ok(*body, lp.body@),
    ensures
        final(findings).reductions@ == old(findings).reductions@ + loop_call_reductions(
            *body,
            lp.header,
            lp.body@,
            lp.body@.len(),
        ),
        final(findings).privatizable@ == old(findings).privatizable@,
        final(findings).inductions@ == old(findings).inductions@,
{
    let ghost start = findings.reductions@;
    let mut k: usize = 0;
    while k < lp.body.len()
        invariant
            k <= lp.body@.len(),
            loop_ok(*body, lp.body@),
            findings.reductions@ == start + loop_call_reductions(*body, lp.header, lp.body@, k as nat),
            findings.privatizable@ == old(findings).privatizable@,
            findings.inductions@ == old(findings).inductions@,
        decreases lp.body@.len() - k,
    {
        let bb = lp.body[k];
        let found = call_reduction_at(body, lp, bb);
        match found {
            Some(f) => findings.reductions.push(f),
            None => {},
        }
        proof {
            assert(findings.reductions@ =~= start + loop_call_reductions(*body, lp.header, lp.body@, (k + 1) as nat));
        }
        k = k + 1;
    }
}

fn call_reduction_at(body: &Body, lp: &SimpleLoop, bb: usize) -> (r: Option<ReductionFinding>)
    requires
        loop_ok(*body, lp.body@),
        bb < body.num_blocks(),
    ensures
        r == call_reduction(*body, lp.header, lp.body@, bb),
{
    let block = &body.basic_blocks[bb];
    let (func, args, destination, target) = match &block.terminator {
        Some(TerminatorKind::Call { func, args, destination, target, .. }) => (func, args, destination, target),
        _ => {
            return None;
        },
    };
    if destination.projection.len() != 0 {
        return None;
    }
    let result_local = destination.local;
    // Resolve callee.
    let path = match func {
        Operand::Constant(Const::FnDef { path }) => path,
        _ => {
            return None;
        },
    };
    let op = match wrapping_method_to_binop(path.as_str()) {
        Some(op) => op,
        None => {
            return None;
        },
    };
    if !is_associative_commutative(op) {
        return None;
    }
    if args.len() != 2 {
        return None;
    }
    // the successor writes `_acc` from the result
    let bb_post = match target {
        Some(t) => *t,
        None => {
            return None;
        },
    };
    if !contains_usize(&lp.body, bb_post) {
        return None;
    }
    proof {
        let w = choose|w: int| 0 <= w < lp.body@.len() && lp.body@[w] == bb_post;
        assert(lp.body@[w] < body.num_blocks());
    }
    let post_block = &body.basic_blocks[bb_post];
    let acc_local = match find_first_copy(&post_block.statements, result_local) {
        Some(a) => a,
        None => {
            return None;
        },
    };
    if acc_local == result_local {
        return None;
    }
    // an argument temporary loads `_acc`
    let arg_locals_v = collect_arg_locals(args);
    if !find_acc_load(&block.statements, &arg_locals_v, acc_local) {
        return None;
    }
    Some(
        ReductionFinding {
            loop_header: lp.header,
            accumulator: acc_local,
            op,
            update_block: bb,
            update_index: block.statements.len(),
        },
    )
}

/// The reductions of one loop (header, latch): statement reductions, then
/// call reductions.
pub open spec fn loop_reductions(body: Body, l: (usize, usize)) -> Seq<ReductionFinding> {
    let blocks = block_range(l.0, l.1);
    loop_binop_reductions(body, l.0, blocks, blocks.len()) + loop_call_reductions(
        body,
        l.0,
        blocks,
        blocks.len(),
    )
}

/// The reductions of the first `k` loops.
pub open spec fn all_reductions(body: Body, ls: Seq<(usize, usize)>, k: nat) -> Seq<ReductionFinding>
    decreases k,
{
    if k == 0 {
        Seq::empty()
    } else {
        all_reductions(body, ls, (k - 1) as nat) + loop_reductions(body, ls[k - 1])
    }
}

/// Runs the loop analyses of a body and returns its findings: the
/// reductions of every loop (privatization and induction detection are
/// analysis-only and not run here).
pub fn detect_idioms(body: &Body) -> (r: IdiomFindings)
    requires
        body.targets_valid(),
        body.all_terminated(),
    ensures
        r.reductions@ == all_reductions(*body, loops_spec(*body), loops_spec(*body).len()),
        r.privatizable@.len() == 0,
        r.inductions@.len() == 0,
{
    let mut findings = IdiomFindings { reductions: Vec::new(), privatizable: Vec::new(), inductions: Vec::new() };
    let loops = find_simple_loops(body);
    let ghost ls = loops_spec(*body);
    proof {
        lemma_loops_in_range(*body);
    }
    let mut k: usize = 0;
    while k < loops.len()
        invariant
            k <= loops@.len(),
            loops@.len() == ls.len(),
            ls == loops_spec(*body),
            forall|j: int| 0 <= j < ls.len() ==> (#[trigger] ls[j]).0 < ls[j].1 < body.num_blocks(),
            forall|j: int|
                0 <= j < loops@.len() ==> (#[trigger] loops@[j]).header == ls[j].0 && loops@[j].body@
                    == block_range(ls[j].0, ls[j].1),
            findings.reductions@ == all_reductions(*body, ls, k as nat),
            findings.privatizable@.len() == 0,
            findings.inductions@.len() == 0,
        decreases loops@.len() - k,
    {
        let lp = &loops[k];
        proof {
            assert(ls[k as int].0 < ls[k as int].1 < body.num_blocks());
            assert forall|j: int| 0 <= j < lp.body@.len() implies #[trigger] lp.body@[j] < body.num_blocks() by {}
        }
        let ghost before = findings.reductions@;
        detect_reductions_in_loop(body, lp, &mut findings);
        detect_reductions_via_call(body, lp, &mut findings);
        proof {
            assert(findings.reductions@ =~= all_reductions(*body, ls, (k + 1) as nat));
        }
        k = k + 1;
    }
    findings
}

/// Reductions of a loop written as statements.
pub fn detect_reductions_in_loop(body: &Body, lp: &SimpleLoop, findings: &mut IdiomFindings)
    requires
        loop_ok(*body, lp.body@),
    ensures
        final(findings).reductions@ == old(findings).reductions@ + loop_binop_reductions(
            *body,
            lp.header,
            lp.body@,
            lp.body@.len(),
        ),
        final(findings).privatizable@ == old(findings).privatizable@,
        final(findings).inductions@ == old(findings).inductions@,
{
    detect_reductions_via_binop(body, lp, findings);
}

/// Every loop's header comes before its latch, which is a block.
pub(crate) proof fn lemma_loops_in_range(body: Body)
    requires
        body.targets_valid(),
    ensures
        forall|j: int|
            0 <= j < loops_spec(body).len() ==> (#[trigger] loops_spec(body)[j]).0 < loops_spec(
                body,
            )[j].1 < body.num_blocks(),
{
    lemma_back_edges_in_range(body, body.num_blocks());
    lemma_first_per_header_sub(back_edges_upto(body, body.num_blocks()), body.num_blocks());
}

proof fn lemma_back_edges_in_range(body: Body, m: nat)
    requires
        body.targets_valid(),
        m <= body.num_blocks(),
    ensures
        forall|j: int|
            0 <= j < back_edges_upto(body, m).len() ==> (#[trigger] back_edges_upto(body, m)[j]).0
                < back_edges_upto(body, m)[j].1 < m,
    decreases m,
{
    if m > 0 {
        lemma_back_edges_in_range(body, (m - 1) as nat);
        let prev = back_edges_upto(body, (m - 1) as nat);
        let tail = match term_of(body, m - 1) {
            Some(k) => back_edges_from((m - 1) as usize, successors_spec(k)),
            None => Seq::empty(),
        };
        match term_of(body, m - 1) {
            Some(k) => lemma_back_edges_from((m - 1) as usize, successors_spec(k)),
            None => {},
        }
        assert(back_edges_upto(body, m) == prev + tail);
        assert forall|j: int| 0 <= j < back_edges_upto(body, m).len() implies (#[trigger] back_edges_upto(body, m)[j]).0
            < back_edges_upto(body, m)[j].1 < m by {
            if j < prev.len() {
                assert(back_edges_upto(body, m)[j] == prev[j]);
            } else {
                assert(back_edges_upto(body, m)[j] == tail[j - prev.len()]);
            }
        }
    }
}

proof fn lemma_back_edges_from(b: usize, succs: Seq<usize>)
    ensures
        forall|j: int|
            0 <= j < back_edges_from(b, succs).len() ==> (#[trigger] back_edges_from(b, succs)[j]).0 < b
                && back_edges_from(b, succs)[j].1 == b,
    decreases succs.len(),
{
    if succs.len() > 0 {
        lemma_back_edges_from(b, succs.drop_last());
        let prev = back_edges_from(b, succs.drop_last());
        assert forall|j: int| 0 <= j < back_edges_from(b, succs).len() implies (#[trigger] back_edges_from(b, succs)[j]).0 < b
            && back_edges_from(b, succs)[j].1 == b by {
            if j < prev.len() {
                assert(back_edges_from(b, succs)[j] == prev[j]);
            }
        }
    }
}

proof fn lemma_first_per_header_sub(s: Seq<(usize, usize)>, n: nat)
    requires
        forall|j: int| 0 <= j < s.len() ==> (#[trigger] s[j]).0 < s[j].1 < n,
    ensures
        forall|j: int|
            0 <= j < first_per_header(s).len() ==> (#[trigger] first_per_header(s)[j]).0 < first_per_header(
                s,
            )[j].1 < n,
    decreases s.len(),
{
    if s.len() > 0 {
        let init = s.drop_last();
        assert forall|j: int| 0 <= j < init.len() implies (#[trigger] init[j]).0 < init[j].1 < n by {
            assert(init[j] == s[j]);
        }
        lemma_first_per_header_sub(init, n);
        assert(s[s.len() - 1].0 < s[s.len() - 1].1 < n);
        let d = first_per_header(init);
        if !has_header(d, s.last().0) {
            assert forall|j: int| 0 <= j < first_per_header(s).len() implies (#[trigger] first_per_header(s)[j]).0
                < first_per_header(s)[j].1 < n by {
                if j < d.len() {
                    assert(first_per_header(s)[j] == d[j]);
                }
            }
        }
    }
}

/// The local an operand names, if it copies or moves one.
pub open spec fn operand_local(o: Operand) -> Seq<usize> {
    match o {
        Operand::Copy(p) => seq![p.local],
        Operand::Move(p) => seq![p.local],
        Operand::Constant(_) => Seq::empty(),
    }
}

/// The locals that a list of operands names, in order.
pub open spec fn operands_locals(os: Seq<Operand>) -> Seq<usize>
    decreases os.len(),
{
    if os.len() == 0 {
        Seq::empty()
    } else {
        operands_locals(os.drop_last()) + operand_local(os.last())
    }
}

/// The locals that a right-hand side reads, in order.
pub open spec fn rvalue_locals(rv: Rvalue) -> Seq<usize> {
    match rv {
        Rvalue::Use(o) => operand_local(o),
        Rvalue::Repeat(o) => operand_local(o),
        Rvalue::UnaryOp(_, o) => operand_local(o),
        Rvalue::BinaryOp(_, a, b) => operand_local(a) + operand_local(b),
        Rvalue::Cast(o) => operand_local(o),
        Rvalue::Ref(_, p) => seq![p.local],
        Rvalue::CopyForDeref(p) => seq![p.local],
        Rvalue::Aggregate(_, ops) => operands_locals(ops@),
        _ => Seq::empty(),
    }
}

fn push_operand_local(v: &mut Vec<usize>, o: &Operand)
    ensures
        final(v)@ == old(v)@ + operand_local(*o),
{
    match o {
        Operand::Copy(p) | Operand::Move(p) => v.push(p.local),
        Operand::Constant(_) => {},
    }
    proof {
        assert(final(v)@ =~= old(v)@ + operand_local(*o));
    }
}

/// The locals that a right-hand side reads, in order.
pub fn visit_rvalue_locals(rvalue: &Rvalue) -> (r: Vec<usize>)
    ensures
        r@ == rvalue_locals(*rvalue),
{
    let mut v: Vec<usize> = Vec::new();
    match rvalue {
        Rvalue::Use(o) | Rvalue::Repeat(o) | Rvalue::UnaryOp(_, o) => push_operand_local(&mut v, o),
        Rvalue::BinaryOp(_, a, b) => {
            push_operand_local(&mut v, a);
            push_operand_local(&mut v, b);
        },
        Rvalue::Cast(o) => push_operand_local(&mut v, o),
        Rvalue::Ref(_, place) | Rvalue::CopyForDeref(place) => v.push(place.local),
        Rvalue::Aggregate(_, ops) => {
            let mut k: usize = 0;
            while k < ops.len()
                invariant
                    k <= ops@.len(),
                    v@ == operands_locals(ops@.take(k as int)),
                decreases ops@.len() - k,
            {
                assert(ops@.take(k + 1).drop_last() =~= ops@.take(k as int));
                push_operand_local(&mut v, &ops[k]);
                k = k + 1;
            }
            assert(ops@.take(k as int) =~= ops@);
        },
        _ => {},
    }
    proof {
        assert(v@ =~= rvalue_locals(*rvalue));
    }
    v
}

/// Return place and arguments are never loop-local.
pub open spec fn user_var_skip(body: Body, local: usize) -> bool {
    local == 0 || local <= body.arg_count
}

/// Skip iteration vars and compiler bookkeeping locals.
pub fn is_user_var_skip(body: &Body, local: usize) -> (r: bool)
    ensures
        r == user_var_skip(*body, local),
{
    local == 0 || local <= body.arg_count
}

/// Locals used to index in a projection, in order.
pub open spec fn index_locals(proj: Seq<ProjectionElem>) -> Seq<usize>
    decreases proj.len(),
{
    if proj.len() == 0 {
        Seq::empty()
    } else {
        index_locals(proj.drop_last()) + match proj.last() {
            ProjectionElem::Index(i) => seq![i],
            _ => Seq::empty(),
        }
    }
}

/// Reads of a list of locals as (local, is_write) events.
pub open spec fn reads(ls: Seq<usize>) -> Seq<(usize, bool)> {
    ls.map_values(|l: usize| (l, false))
}

/// The uses of locals by one statement, as (local, is_write) events: the
/// right-hand side's reads, then the index locals of the destination, then
/// the write of a bare destination local.
pub open spec fn stmt_events(s: StatementKind) -> Seq<(usize, bool)> {
    match s {
        StatementKind::Assign(place, rv) => reads(rvalue_locals(rv)) + reads(
            index_locals(place.projection@),
        ) + if place.projection@.len() == 0 {
            seq![(place.local, true)]
        } else {
            Seq::empty()
        },
        _ => Seq::empty(),
    }
}

/// Events of the first `m` statements.
pub open spec fn stmts_events(stmts: Seq<StatementKind>, m: nat) -> Seq<(usize, bool)>
    decreases m,
{
    if m == 0 {
        Seq::empty()
    } else {
        stmts_events(stmts, (m - 1) as nat) + stmt_events(stmts[m - 1])
    }
}

/// Events of the first `k` blocks of a loop.
pub open spec fn loop_events(body: Body, blocks: Seq<usize>, k: nat) -> Seq<(usize, bool)>
    decreases k,
{
    if k == 0 {
        Seq::empty()
    } else {
        loop_events(body, blocks, (k - 1) as nat) + stmts_events(
            stmts_of(body, blocks[k - 1] as int),
            stmts_of(body, blocks[k - 1] as int).len(),
        )
    }
}

/// Whether the first use of `l` among the events is a write.
pub open spec fn first_use(ev: Seq<(usize, bool)>, l: usize) -> Option<bool>
    decreases ev.len(),
{
    if ev.len() == 0 {
        None
    } else {
        let p = first_use(ev.drop_last(), l);
        if p is Some {
            p
        } else if ev.last().0 == l {
            Some(ev.last().1)
        } else {
            None
        }
    }
}

/// The locals are in strictly increasing order.
pub open spec fn strictly_increasing(s: Seq<usize>) -> bool {
    forall|i: int, j: int| 0 <= i < j < s.len() ==> s[i] < s[j]
}

proof fn lemma_increasing_keys<V>(keys: Seq<usize>)
    requires
        vstd::std_specs::btree::increasing_seq(keys),
    ensures
        strictly_increasing(keys),
{
    assert(vstd::laws_cmp::obeys_cmp::<usize>());
    assert forall|i: int, j: int| 0 <= i < j < keys.len() implies keys[i] < keys[j] by {
        assert(keys[i].cmp_spec(&keys[j]) is Less);
    }
}

fn push_reads(events: &mut Vec<(usize, bool)>, ls: &Vec<usize>)
    ensures
        final(events)@ == old(events)@ + reads(ls@),
{
    let mut k: usize = 0;
    while k < ls.len()
        invariant
            k <= ls@.len(),
            events@ == old(events)@ + reads(ls@.take(k as int)),
        decreases ls@.len() - k,
    {
        events.push((ls[k], false));
        assert(reads(ls@.take(k + 1)) =~= reads(ls@.take(k as int)).push((ls@[k as int], false)));
        k = k + 1;
    }
    assert(ls@.take(k as int) =~= ls@);
}

fn collect_index_locals(proj: &Vec<ProjectionElem>) -> (r: Vec<usize>)
    ensures
        r@ == index_locals(proj@),
{
    let mut r: Vec<usize> = Vec::new();
    let mut k: usize = 0;
    while k < proj.len()
        invariant
            k <= proj@.len(),
            r@ == index_locals(proj@.take(k as int)),
        decreases proj@.len() - k,
    {
        assert(proj@.take(k + 1).drop_last() =~= proj@.take(k as int));
        match proj[k] {
            ProjectionElem::Index(i) => r.push(i),
            _ => {},
        }
        proof {
            assert(r@ =~= index_locals(proj@.take(k + 1)));
        }
        k = k + 1;
    }
    assert(proj@.take(k as int) =~= proj@);
    r
}

/// The privatizable locals of a loop: those (other than the return place and
/// the arguments) whose first use in the loop's statements is a write, in
/// increasing order.
pub open spec fn privatizable_ok(body: Body, blocks: Seq<usize>, header: usize, found: Seq<PrivatizableFinding>) -> bool {
    let ev = loop_events(body, blocks, blocks.len());
    &&& forall|k: int| 0 <= k < found.len() ==> (#[trigger] found[k]).loop_header == header
    &&& forall|i: int, j: int| 0 <= i < j < found.len() ==> found[i].local < found[j].local
    &&& forall|l: usize|
        (exists|k: int| 0 <= k < found.len() && (#[trigger] found[k]).local == l) <==> (first_use(ev, l)
            == Some(true) && !user_var_skip(body, l))
}

/// The findings made from first-use entries, in order: one for each entry
/// whose first use is a write and whose local is not skipped.
pub open spec fn priv_filter(body: Body, header: usize, es: Seq<(usize, bool)>) -> Seq<PrivatizableFinding>
    decreases es.len(),
{
    if es.len() == 0 {
        Seq::empty()
    } else {
        let prev = priv_filter(body, header, es.drop_last());
        let e = es.last();
        if e.1 && !user_var_skip(body, e.0) {
            prev.push(PrivatizableFinding { loop_header: header, local: e.0 })
        } else {
            prev
        }
    }
}

/// The first component of each pair.
pub open spec fn entry_keys(es: Seq<(usize, bool)>) -> Seq<usize> {
    es.map_values(|p: (usize, bool)| p.0)
}

pub(crate) proof fn lemma_priv_filter_sources(body: Body, header: usize, es: Seq<(usize, bool)>)
    ensures
        ({
            let out = priv_filter(body, header, es);
            forall|k: int| 0 <= k < out.len() ==> {
                &&& (#[trigger] out[k]).loop_header == header
                &&& exists|i: int| 0 <= i < es.len() && (#[trigger] es[i]).0 == out[k].local && es[i].1 && !user_var_skip(body, es[i].0)
            }
        }),
    decreases es.len(),
{
    if es.len() > 0 {
        let init = es.drop_last();
        lemma_priv_filter_sources(body, header, init);
        let prev = priv_filter(body, header, init);
        let out = priv_filter(body, header, es);
        assert forall|k: int| 0 <= k < out.len() implies {
            &&& (#[trigger] out[k]).loop_header == header
            &&& exists|i: int| 0 <= i < es.len() && (#[trigger] es[i]).0 == out[k].local && es[i].1 && !user_var_skip(body, es[i].0)
        } by {
            if k < prev.len() {
                assert(out[k] == prev[k]);
                let i = choose|i: int| 0 <= i < init.len() && (#[trigger] init[i]).0 == prev[k].local && init[i].1 && !user_var_skip(body, init[i].0);
                assert(es[i] == init[i]);
            } else {
                assert(es[es.len() - 1].0 == out[k].local);
            }
        }
    }
}

pub(crate) proof fn lemma_priv_filter_complete(body: Body, header: usize, es: Seq<(usize, bool)>)
    ensures
        ({
            let out = priv_filter(body, header, es);
            forall|i: int| 0 <= i < es.len() && (#[trigger] es[i]).1 && !user_var_skip(body, es[i].0) ==> exists|k: int| 0 <= k < out.len() && (#[trigger] out[k]).local == es[i].0
        }),
    decreases es.len(),
{
    if es.len() > 0 {
        let init = es.drop_last();
        lemma_priv_filter_complete(body, header, init);
        let prev = priv_filter(body, header, init);
        let out = priv_filter(body, header, es);
        assert forall|i: int| 0 <= i < es.len() && (#[trigger] es[i]).1 && !user_var_skip(body, es[i].0) implies exists|k: int| 0 <= k < out.len() && (#[trigger] out[k]).local == es[i].0 by {
            if i < es.len() - 1 {
                assert(init[i] == es[i]);
                let k = choose|k: int| 0 <= k < prev.len() && (#[trigger] prev[k]).local == init[i].0;
                assert(out[k] == prev[k]);
            } else {
                assert(out[out.len() - 1].local == es[i].0);
            }
        }
    }
}

pub(crate) proof fn lemma_priv_filter_sorted(body: Body, header: usize, es: Seq<(usize, bool)>)
    requires
        strictly_increasing(entry_keys(es)),
    ensures
        ({
            let out = priv_filter(body, header, es);
            forall|i: int, j: int| 0 <= i < j < out.len() ==> out[i].local < out[j].local
        }),
    decreases es.len(),
{
    if es.len() > 0 {
        let init = es.drop_last();
        assert(strictly_increasing(entry_keys(init))) by {
            assert forall|i: int, j: int| 0 <= i < j < entry_keys(init).len() implies #[trigger] entry_keys(init)[i] < #[trigger] entry_keys(init)[j] by {
                assert(entry_keys(init)[i] == entry_keys(es)[i]);
                assert(entry_keys(init)[j] == entry_keys(es)[j]);
            }
        }
        lemma_priv_filter_sorted(body, header, init);
        lemma_priv_filter_sources(body, header, init);
        let prev = priv_filter(body, header, init);
        let n = es.len() - 1;
        assert forall|k: int| 0 <= k < prev.len() implies (#[trigger] prev[k]).local < es[n].0 by {
            let i = choose|i: int| 0 <= i < init.len() && (#[trigger] init[i]).0 == prev[k].local && init[i].1 && !user_var_skip(body, init[i].0);
            assert(entry_keys(es)[i] < entry_keys(es)[n]);
        }
    }
}

fn loop_use_events(body: &Body, lp: &SimpleLoop) -> (r: Vec<(usize, bool)>)
    requires
        loop_ok(*body, lp.body@),
    ensures
        r@ == loop_events(*body, lp.body@, lp.body@.len()),
{
    let mut events: Vec<(usize, bool)> = Vec::new();
    let mut k: usize = 0;
    while k < lp.body.len()
        invariant
            k <= lp.body@.len(),
            loop_ok(*body, lp.body@),
            events@ == loop_events(*body, lp.body@, k as nat),
        decreases lp.body@.len() - k,
    {
        let bb = lp.body[k];
        let block = &body.basic_blocks[bb];
        let ghost base = events@;
        let mut idx: usize = 0;
        while idx < block.statements.len()
            invariant
                idx <= block.statements@.len(),
                events@ == base + stmts_events(block.statements@, idx as nat),
            decreases block.statements@.len() - idx,
        {
            let ghost before = events@;
            match &block.statements[idx] {
                StatementKind::Assign(place, rvalue) => {
                    // RHS reads precede LHS bind
                    let rl = visit_rvalue_locals(rvalue);
                    push_reads(&mut events, &rl);
                    let il = collect_index_locals(&place.projection);
                    push_reads(&mut events, &il);
                    // LHS write last
                    if place.projection.len() == 0 {
                        events.push((place.local, true));
                    }
                },
                _ => {},
            }
            proof {
                assert(events@ =~= before + stmt_events(block.statements@[idx as int]));
                assert(events@ =~= base + stmts_events(block.statements@, (idx + 1) as nat));
            }
            idx = idx + 1;
        }
        proof {
            assert(events@ =~= loop_events(*body, lp.body@, (k + 1) as nat));
        }
        k = k + 1;
    }
    events
}

fn first_use_map(events: &Vec<(usize, bool)>) -> (first: BTreeMap<usize, bool>)
    ensures
        forall|l: usize| #[trigger] first@.contains_key(l) <==> first_use(events@, l) is Some,
        forall|l: usize| first@.contains_key(l) ==> Some(#[trigger] first@[l]) == first_use(events@, l),
{
    let ghost ev = events@;
    let mut first: BTreeMap<usize, bool> = BTreeMap::new();
    let mut e: usize = 0;
    while e < events.len()
        invariant
            e <= ev.len(),
            events@ == ev,
            forall|l: usize| #[trigger] first@.contains_key(l) <==> first_use(ev.take(e as int), l) is Some,
            forall|l: usize| first@.contains_key(l) ==> Some(#[trigger] first@[l]) == first_use(ev.take(e as int), l),
        decreases ev.len() - e,
    {
        let (local, kind) = events[e];
        proof {
            assert(ev.take(e + 1).drop_last() =~= ev.take(e as int));
        }
        if !first.contains_key(&local) {
            first.insert(local, kind);
        }
        proof {
            assert forall|l: usize| #[trigger] first@.contains_key(l) <==> first_use(ev.take(e + 1), l) is Some by {}
            assert forall|l: usize| first@.contains_key(l) implies Some(#[trigger] first@[l]) == first_use(ev.take(e + 1), l) by {}
        }
        e = e + 1;
    }
    proof {
        assert(ev.take(e as int) =~= ev);
    }
    first
}

fn push_privatizable(body: &Body, header: usize, entries: &Vec<(usize, bool)>, findings: &mut IdiomFindings)
    ensures
        final(findings).privatizable@ == old(findings).privatizable@ + priv_filter(*body, header, entries@),
        final(findings).reductions@ == old(findings).reductions@,
        final(findings).inductions@ == old(findings).inductions@,
{
    let mut t: usize = 0;
    while t < entries.len()
        invariant
            t <= entries@.len(),
            findings.privatizable@ == old(findings).privatizable@ + priv_filter(*body, header, entries@.take(t as int)),
            findings.reductions@ == old(findings).reductions@,
            findings.inductions@ == old(findings).inductions@,
        decreases entries@.len() - t,
    {
        let (local, is_write) = entries[t];
        proof {
            assert(entries@.take(t + 1).drop_last() =~= entries@.take(t as int));
        }
        if is_write && !is_user_var_skip(body, local) {
            findings.privatizable.push(PrivatizableFinding { loop_header: header, local });
        }
        proof {
            assert(findings.privatizable@ =~= old(findings).privatizable@ + priv_filter(*body, header, entries@.take(t + 1)));
        }
        t = t + 1;
    }
    proof {
        assert(entries@.take(t as int) =~= entries@);
    }
}

/// Privatizable locals: written before read in each iteration.
pub fn detect_privatizable_in_loop(body: &Body, lp: &SimpleLoop, findings: &mut IdiomFindings)
    requires
        loop_ok(*body, lp.body@),
    ensures
        final(findings).privatizable@.len() >= old(findings).privatizable@.len(),
        final(findings).privatizable@.take(old(findings).privatizable@.len() as int) == old(
            findings,
        ).privatizable@,
        privatizable_ok(
            *body,
            lp.body@,
            lp.header,
            final(findings).privatizable@.skip(old(findings).privatizable@.len() as int),
        ),
        final(findings).reductions@ == old(findings).reductions@,
        final(findings).inductions@ == old(findings).inductions@,
{
    // collect events, fold after
    let events = loop_use_events(body, lp);
    let first = first_use_map(&events);
    let entries = sorted_entries(&first);
    proof {
        assert(entry_keys(entries@) =~= entries@.map_values(|p: (usize, bool)| p.0));
        lemma_priv_filter_sources(*body, lp.header, entries@);
        lemma_priv_filter_complete(*body, lp.header, entries@);
        lemma_priv_filter_sorted(*body, lp.header, entries@);
    }
    let ghost start = findings.privatizable@;
    push_privatizable(body, lp.header, &entries, findings);
    proof {
        let ev = events@;
        let out = priv_filter(*body, lp.header, entries@);
        assert(findings.privatizable@.skip(start.len() as int) =~= out);
        assert(findings.privatizable@.take(start.len() as int) =~= start);
        assert forall|l: usize|
            (exists|k: int| 0 <= k < out.len() && (#[trigger] out[k]).local == l) <==> (first_use(ev, l) == Some(true) && !user_var_skip(*body, l)) by {
            if exists|k: int| 0 <= k < out.len() && (#[trigger] out[k]).local == l {
                let k = choose|k: int| 0 <= k < out.len() && (#[trigger] out[k]).local == l;
                let i = choose|i: int| 0 <= i < entries@.len() && (#[trigger] entries@[i]).0 == out[k].local && entries@[i].1 && !user_var_skip(*body, entries@[i].0);
                assert(first@.contains_key(l));
            }
            if first_use(ev, l) == Some(true) && !user_var_skip(*body, l) {
                assert(first@.contains_key(l));
                let i = choose|i: int| 0 <= i < entries@.len() && (#[trigger] entries@[i]).0 == l;
                assert(entries@[i].1);
            }
        }
    }
}

/// The entries of a map keyed by locals, in increasing key order.
pub(crate) fn sorted_entries<V: Copy>(m: &BTreeMap<usize, V>) -> (r: Vec<(usize, V)>)
    ensures
        strictly_increasing(r@.map_values(|p: (usize, V)| p.0)),
        forall|i: int| 0 <= i < r@.len() ==> m@.contains_key((#[trigger] r@[i]).0) && m@[r@[i].0] == r@[i].1,
        forall|l: usize| #[trigger] m@.contains_key(l) ==> exists|i: int| 0 <= i < r@.len() && (#[trigger] r@[i]).0 == l,
{
    let mut out: Vec<(usize, V)> = Vec::new();
    let iter = m.iter();
    let ghost s = iter.remaining();
    let ghost keys = s.map_values(|kv: (&usize, &V)| *kv.0);
    proof {
        lemma_increasing_keys::<V>(keys);
    }
    for kv in it: iter
        invariant
            it.seq() == s,
            keys == s.map_values(|kv: (&usize, &V)| *kv.0),
            strictly_increasing(keys),
            s.len() == m@.dom().len(),
            forall|i: int| 0 <= i < s.len() ==> m@.contains_key(*(#[trigger] s[i]).0) && m@[*s[i].0] == *s[i].1,
            forall|l: usize| #[trigger] m@.contains_key(l) ==> s.contains((&l, &m@[l])),
            out@.len() == it.index(),
            forall|i: int| 0 <= i < out@.len() ==> (#[trigger] out@[i]).0 == *s[i].0 && out@[i].1 == *s[i].1,
    {
        let (k, v) = kv;
        out.push((*k, *v));
    }
    proof {
        assert(out@.len() == s.len());
        let ks = out@.map_values(|p: (usize, V)| p.0);
        assert forall|i: int, j: int| 0 <= i < j < ks.len() implies #[trigger] ks[i] < #[trigger] ks[j] by {
            assert(keys[i] == *s[i].0);
            assert(keys[j] == *s[j].0);
        }
        assert forall|i: int| 0 <= i < out@.len() implies m@.contains_key((#[trigger] out@[i]).0) && m@[out@[i].0] == out@[i].1 by {
            assert(m@.contains_key(*s[i].0));
        }
        assert forall|l: usize| #[trigger] m@.contains_key(l) implies exists|i: int| 0 <= i < out@.len() && (#[trigger] out@[i]).0 == l by {
            assert(s.contains((&l, &m@[l])));
            let i = choose|i: int| 0 <= i < s.len() && s[i] == (&l, &m@[l]);
            assert(out@[i].0 == l);
        }
    }
    out
}

/// Every successor of a terminator with valid targets is a block index
/// below `n`.
pub proof fn lemma_successor_targets(k: TerminatorKind, n: nat)
    requires
        terminator_targets_ok(k, n),
    ensures
        forall|u: int| 0 <= u < successors_spec(k).len() ==> #[trigger] successors_spec(k)[u] < n,
{
    crate::cfg::lemma_terminator_edges_valid(k, n);
    lemma_block_targets_below(terminator_edges(k), n);
}

proof fn lemma_block_targets_below(es: Seq<(CfgNode, EdgeKind)>, n: nat)
    requires
        forall|t: int| 0 <= t < es.len() ==> crate::cfg::valid_node(#[trigger] es[t].0, n),
    ensures
        forall|u: int| 0 <= u < block_targets(es).len() ==> #[trigger] block_targets(es)[u] < n,
    decreases es.len(),
{
    if es.len() > 0 {
        let init = es.drop_last();
        assert forall|t: int| 0 <= t < init.len() implies crate::cfg::valid_node(#[trigger] init[t].0, n) by {
            assert(init[t] == es[t]);
        }
        lemma_block_targets_below(init, n);
        assert(crate::cfg::valid_node(es[es.len() - 1].0, n));
        let prev = block_targets(init);
        let tail = match es.last().0 {
            CfgNode::Block(b) => seq![b],
            CfgNode::Exit => Seq::<usize>::empty(),
        };
        assert(block_targets(es) == prev + tail);
        assert forall|u: int| 0 <= u < block_targets(es).len() implies #[trigger] block_targets(es)[u] < n by {
            if u < prev.len() {
                assert(block_targets(es)[u] == prev[u]);
            } else {
                assert(block_targets(es)[u] == tail[u - prev.len()]);
            }
        }
    }
}

/// Each finding among the first `m` statements of block `bb` names the
/// statement it comes from: an assignment to its bare accumulator of an
/// associative, commutative binary operation with its operator, one
/// operand reading the accumulator and the other not.
pub proof fn lemma_stmt_findings_name_their_statement(header: usize, bb: usize, stmts: Seq<StatementKind>, m: nat)
    requires
        m <= stmts.len(),
        stmts.len() <= usize::MAX,
    ensures
        forall|j: int|
            0 <= j < stmt_reductions(header, bb, stmts, m).len() ==> {
                let f = #[trigger] stmt_reductions(header, bb, stmts, m)[j];
                &&& f.loop_header == header
                &&& f.update_block == bb
                &&& f.update_index < m
                &&& stmts[f.update_index as int] matches StatementKind::Assign(place, Rvalue::BinaryOp(bo, lhs, rhs))
                &&& stmts[f.update_index as int]->Assign_0.local == f.accumulator
                &&& stmts[f.update_index as int]->Assign_0.projection@.len() == 0
                &&& stmts[f.update_index as int]->Assign_1->BinaryOp_0 == f.op
                &&& is_assoc_comm(f.op)
                &&& operand_reads(stmts[f.update_index as int]->Assign_1->BinaryOp_1, f.accumulator) != operand_reads(
                    stmts[f.update_index as int]->Assign_1->BinaryOp_2,
                    f.accumulator,
                )
            },
    decreases m,
{
    if m > 0 {
        lemma_stmt_findings_name_their_statement(header, bb, stmts, (m - 1) as nat);
        let prev = stmt_reductions(header, bb, stmts, (m - 1) as nat);
        let cur = stmt_reductions(header, bb, stmts, m);
        assert forall|j: int| 0 <= j < cur.len() implies {
            let f = #[trigger] cur[j];
            &&& f.loop_header == header
            &&& f.update_block == bb
            &&& f.update_index < m
            &&& stmts[f.update_index as int] matches StatementKind::Assign(place, Rvalue::BinaryOp(bo, lhs, rhs))
            &&& stmts[f.update_index as int]->Assign_0.local == f.accumulator
            &&& stmts[f.update_index as int]->Assign_0.projection@.len() == 0
            &&& stmts[f.update_index as int]->Assign_1->BinaryOp_0 == f.op
            &&& is_assoc_comm(f.op)
            &&& operand_reads(stmts[f.update_index as int]->Assign_1->BinaryOp_1, f.accumulator) != operand_reads(
                stmts[f.update_index as int]->Assign_1->BinaryOp_2,
                f.accumulator,
            )
        } by {
            if j < prev.len() {
                assert(cur[j] == prev[j]);
            } else {
                let s0 = stmts[m - 1];
                match binop_reduction(s0) {
                    Some((acc, op)) => {
                        assert(cur[j] == (ReductionFinding {
                            loop_header: header,
                            accumulator: acc,
                            op,
                            update_block: bb,
                            update_index: (m - 1) as usize,
                        }));
                    },
                    None => {
                        assert(cur =~= prev);
                    },
                }
            }
        }
    }
}

/// Each reduction finding of a loop names the statement it comes from: the
/// statement at its index in its block, one of the loop's blocks, assigns
/// its bare accumulator a binary operation with the finding's operator,
/// which is associative and commutative, with exactly one operand reading
/// the accumulator.
pub proof fn lemma_loop_findings_name_their_statement(body: Body, header: usize, blocks: Seq<usize>, k: nat)
    requires
        k <= blocks.len(),
    ensures
        forall|j: int|
            0 <= j < loop_binop_reductions(body, header, blocks, k).len() ==> {
                let f = #[trigger] loop_binop_reductions(body, header, blocks, k)[j];
                let ss = stmts_of(body, f.update_block as int);
                &&& f.loop_header == header
                &&& blocks.take(k as int).contains(f.update_block)
                &&& f.update_index < ss.len()
                &&& ss[f.update_index as int] matches StatementKind::Assign(place, Rvalue::BinaryOp(bo, lhs, rhs))
                &&& ss[f.update_index as int]->Assign_0.local == f.accumulator
                &&& ss[f.update_index as int]->Assign_0.projection@.len() == 0
                &&& ss[f.update_index as int]->Assign_1->BinaryOp_0 == f.op
                &&& is_assoc_comm(f.op)
                &&& operand_reads(ss[f.update_index as int]->Assign_1->BinaryOp_1, f.accumulator) != operand_reads(
                    ss[f.update_index as int]->Assign_1->BinaryOp_2,
                    f.accumulator,
                )
            },
    decreases k,
{
    if k > 0 {
        lemma_loop_findings_name_their_statement(body, header, blocks, (k - 1) as nat);
        let bb = blocks[k - 1];
        let ss0 = stmts_of(body, bb as int);
        assert(ss0.len() == body.basic_blocks@[bb as int].statements.len());
        lemma_stmt_findings_name_their_statement(header, bb, ss0, ss0.len());
        let prev = loop_binop_reductions(body, header, blocks, (k - 1) as nat);
        let add = stmt_reductions(header, bb, ss0, ss0.len());
        let cur = loop_binop_reductions(body, header, blocks, k);
        assert(cur == prev + add);
        assert forall|j: int| 0 <= j < cur.len() implies {
            let f = #[trigger] cur[j];
            let ss = stmts_of(body, f.update_block as int);
            &&& f.loop_header == header
            &&& blocks.take(k as int).contains(f.update_block)
            &&& f.update_index < ss.len()
            &&& ss[f.update_index as int] matches StatementKind::Assign(place, Rvalue::BinaryOp(bo, lhs, rhs))
            &&& ss[f.update_index as int]->Assign_0.local == f.accumulator
            &&& ss[f.update_index as int]->Assign_0.projection@.len() == 0
            &&& ss[f.update_index as int]->Assign_1->BinaryOp_0 == f.op
            &&& is_assoc_comm(f.op)
            &&& operand_reads(ss[f.update_index as int]->Assign_1->BinaryOp_1, f.accumulator) != operand_reads(
                ss[f.update_index as int]->Assign_1->BinaryOp_2,
                f.accumulator,
            )
        } by {
            if j < prev.len() {
                assert(cur[j] == prev[j]);
                let f = prev[j];
                let t = blocks.take(k - 1);
                let w = choose|w: int| 0 <= w < t.len() && #[trigger] t[w] == f.update_block;
                assert(blocks.take(k as int)[w] == f.update_block);
            } else {
                assert(cur[j] == add[j - prev.len()]);
                assert(blocks.take(k as int)[k - 1] == bb);
            }
        }
    }
}

/// A reduction found through a call names the call: the block it names
/// ends in a call of a method whose name ends in `_add` for a sum or in
/// `_mul` for a product, the finding's operator, and its index is the
/// number of the block's statements.
pub proof fn lemma_call_finding_names_its_method(body: Body, header: usize, blocks: Seq<usize>, bb: usize)
    ensures
        call_reduction(body, header, blocks, bb) matches Some(f) ==> {
            &&& term_of(body, bb as int) matches Some(TerminatorKind::Call { func, .. })
            &&& callee_path(term_of(body, bb as int)->0->Call_func) is Some
            &&& f.loop_header == header
            &&& f.update_block == bb
            &&& f.update_index == stmts_of(body, bb as int).len()
            &&& ({
                let seg = last_segment(callee_path(term_of(body, bb as int)->0->Call_func)->0);
                ||| f.op == BinOp::Add && ends_with_text(seg, "_add"@)
                ||| f.op == BinOp::Mul && ends_with_text(seg, "_mul"@)
            })
        },
{
    assert(stmts_of(body, bb as int).len() == body.basic_blocks@[bb as int].statements.len());
    match term_of(body, bb as int) {
        Some(TerminatorKind::Call { func, .. }) => {
            if callee_path(func) is Some {
                crate::idioms::lemma_method_operator_is_named_by_its_suffix(last_segment(callee_path(func)->0));
            }
        },
        _ => {},
    }
}

} // verus!
