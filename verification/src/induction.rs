//! Induction variables of a loop: locals whose every write in the loop adds
//! a constant to themselves, either as a statement or through a
//! `*_add`-style method call.
use vstd::prelude::*;
use std::collections::BTreeMap;
use crate::mir::{Body, StatementKind, TerminatorKind, Operand, Rvalue, BinOp, Const};
use crate::detect::{
    SimpleLoop, IdiomFindings, InductionFinding, operand_reads, operand_reads_local, loop_ok,
    stmts_of, term_of, user_var_skip, is_user_var_skip, strictly_increasing, sorted_entries,
    callee_path, first_copy_of, arg_locals, find_first_copy, collect_arg_locals, contains_usize,
    priv_filter, entry_keys, lemma_priv_filter_sources, lemma_priv_filter_complete,
    lemma_priv_filter_sorted,
};
use crate::idioms::{wrapping_method_to_binop, wrapping_binop_spec};
use crate::text::last_segment;

verus! {

broadcast use {vstd::std_specs::btree::group_btree_axioms, vstd::laws_cmp::group_laws_cmp};

/// The bare local that a statement writes, with the operator when the write
/// adds a constant to that same local (`l = l + c` or `l = c + l` with
/// `Add` or `AddUnchecked`), and `None` for any other write.
pub open spec fn affine_write(s: StatementKind) -> Option<(usize, Option<BinOp>)> {
    match s {
        StatementKind::Assign(place, rv) => if place.projection@.len() == 0 {
            let l = place.local;
            Some(
                (
                    l,
                    match rv {
                        Rvalue::BinaryOp(op, lhs, rhs) => if (op == BinOp::Add || op
                            == BinOp::AddUnchecked) && ((operand_reads(lhs, l) && rhs is Constant)
                            || (operand_reads(rhs, l) && lhs is Constant)) {
                            Some(op)
                        } else {
                            None
                        },
                        _ => None,
                    },
                ),
            )
        } else {
            None
        },
        _ => None,
    }
}

/// The bare writes of the first `m` statements, in order.
pub open spec fn stmts_writes(stmts: Seq<StatementKind>, m: nat) -> Seq<(usize, Option<BinOp>)>
    decreases m,
{
    if m == 0 {
        Seq::empty()
    } else {
        stmts_writes(stmts, (m - 1) as nat) + match affine_write(stmts[m - 1]) {
            Some(w) => seq![w],
            None => Seq::empty(),
        }
    }
}

/// The bare writes of the statements of the first `k` blocks of a loop.
pub open spec fn loop_writes(body: Body, blocks: Seq<usize>, k: nat) -> Seq<(usize, Option<BinOp>)>
    decreases k,
{
    if k == 0 {
        Seq::empty()
    } else {
        loop_writes(body, blocks, (k - 1) as nat) + stmts_writes(
            stmts_of(body, blocks[k - 1] as int),
            stmts_of(body, blocks[k - 1] as int).len(),
        )
    }
}

/// What the writes say of `l`: `None` when it is never written,
/// `Some(Some(op))` when every write adds a constant (`op` of the first),
/// `Some(None)` when some write does not.
pub open spec fn write_status(ev: Seq<(usize, Option<BinOp>)>, l: usize) -> Option<Option<BinOp>>
    decreases ev.len(),
{
    if ev.len() == 0 {
        None
    } else {
        let p = write_status(ev.drop_last(), l);
        if ev.last().0 != l {
            p
        } else {
            match p {
                None => Some(ev.last().1),
                Some(None) => Some(None),
                Some(Some(op)) => if ev.last().1 is Some {
                    Some(Some(op))
                } else {
                    Some(None)
                },
            }
        }
    }
}

/// The induction findings of one loop, as the statement form defines them:
/// one for each local (other than the return place and the arguments) whose
/// writes all add a constant, in increasing order of locals.
pub open spec fn inductions_ok(body: Body, blocks: Seq<usize>, header: usize, found: Seq<InductionFinding>) -> bool {
    let ev = loop_writes(body, blocks, blocks.len());
    &&& forall|k: int| 0 <= k < found.len() ==> (#[trigger] found[k]).loop_header == header
    &&& forall|i: int, j: int| 0 <= i < j < found.len() ==> found[i].iv_local < found[j].iv_local
    &&& forall|l: usize|
        #![trigger write_status(ev, l)]
        (exists|k: int| 0 <= k < found.len() && (#[trigger] found[k]).iv_local == l) <==> (write_status(
            ev,
            l,
        ) matches Some(Some(_)) && !user_var_skip(body, l))
    &&& forall|k: int| 0 <= k < found.len() ==> write_status(ev, (#[trigger] found[k]).iv_local) == Some(Some(found[k].op))
}

/// The findings made from status entries, in order.
pub open spec fn ind_filter(body: Body, header: usize, es: Seq<(usize, Option<BinOp>)>) -> Seq<InductionFinding>
    decreases es.len(),
{
    if es.len() == 0 {
        Seq::empty()
    } else {
        let prev = ind_filter(body, header, es.drop_last());
        let e = es.last();
        if e.1 is Some && !user_var_skip(body, e.0) {
            prev.push(InductionFinding { loop_header: header, iv_local: e.0, op: e.1->0 })
        } else {
            prev
        }
    }
}

/// The first component of each pair.
pub open spec fn status_keys(es: Seq<(usize, Option<BinOp>)>) -> Seq<usize> {
    es.map_values(|p: (usize, Option<BinOp>)| p.0)
}

proof fn lemma_ind_filter_sources(body: Body, header: usize, es: Seq<(usize, Option<BinOp>)>)
    ensures
        ({
            let out = ind_filter(body, header, es);
            forall|k: int| 0 <= k < out.len() ==> {
                &&& (#[trigger] out[k]).loop_header == header
                &&& exists|i: int|
                    0 <= i < es.len() && (#[trigger] es[i]).0 == out[k].iv_local && es[i].1 == Some(
                        out[k].op,
                    ) && !user_var_skip(body, es[i].0)
            }
        }),
    decreases es.len(),
{
    if es.len() > 0 {
        let init = es.drop_last();
        lemma_ind_filter_sources(body, header, init);
        let prev = ind_filter(body, header, init);
        let out = ind_filter(body, header, es);
        assert forall|k: int| 0 <= k < out.len() implies {
            &&& (#[trigger] out[k]).loop_header == header
            &&& exists|i: int|
                0 <= i < es.len() && (#[trigger] es[i]).0 == out[k].iv_local && es[i].1 == Some(
                    out[k].op,
                ) && !user_var_skip(body, es[i].0)
        } by {
            if k < prev.len() {
                assert(out[k] == prev[k]);
                let i = choose|i: int|
                    0 <= i < init.len() && (#[trigger] init[i]).0 == prev[k].iv_local && init[i].1
                        == Some(prev[k].op) && !user_var_skip(body, init[i].0);
                assert(es[i] == init[i]);
            } else {
                assert(es[es.len() - 1].0 == out[k].iv_local);
            }
        }
    }
}

proof fn lemma_ind_filter_complete(body: Body, header: usize, es: Seq<(usize, Option<BinOp>)>)
    ensures
        ({
            let out = ind_filter(body, header, es);
            forall|i: int|
                0 <= i < es.len() && (#[trigger] es[i]).1 is Some && !user_var_skip(body, es[i].0)
                    ==> exists|k: int| 0 <= k < out.len() && (#[trigger] out[k]).iv_local == es[i].0
        }),
    decreases es.len(),
{
    if es.len() > 0 {
        let init = es.drop_last();
        lemma_ind_filter_complete(body, header, init);
        let prev = ind_filter(body, header, init);
        let out = ind_filter(body, header, es);
        assert forall|i: int|
            0 <= i < es.len() && (#[trigger] es[i]).1 is Some && !user_var_skip(
                body,
                es[i].0,
            ) implies exists|k: int| 0 <= k < out.len() && (#[trigger] out[k]).iv_local == es[i].0 by {
            if i < es.len() - 1 {
                assert(init[i] == es[i]);
                let k = choose|k: int| 0 <= k < prev.len() && (#[trigger] prev[k]).iv_local == init[i].0;
                assert(out[k] == prev[k]);
            } else {
                assert(out[out.len() - 1].iv_local == es[i].0);
            }
        }
    }
}

proof fn lemma_ind_filter_sorted(body: Body, header: usize, es: Seq<(usize, Option<BinOp>)>)
    requires
        strictly_increasing(status_keys(es)),
    ensures
        ({
            let out = ind_filter(body, header, es);
            forall|i: int, j: int| 0 <= i < j < out.len() ==> out[i].iv_local < out[j].iv_local
        }),
    decreases es.len(),
{
    if es.len() > 0 {
        let init = es.drop_last();
        assert(strictly_increasing(status_keys(init))) by {
            assert forall|i: int, j: int|
                0 <= i < j < status_keys(init).len() implies #[trigger] status_keys(init)[i]
                < #[trigger] status_keys(init)[j] by {
                assert(status_keys(init)[i] == status_keys(es)[i]);
                assert(status_keys(init)[j] == status_keys(es)[j]);
            }
        }
        lemma_ind_filter_sorted(body, header, init);
        lemma_ind_filter_sources(body, header, init);
        let prev = ind_filter(body, header, init);
        let n = es.len() - 1;
        assert forall|k: int| 0 <= k < prev.len() implies (#[trigger] prev[k]).iv_local < es[n].0 by {
            let i = choose|i: int|
                0 <= i < init.len() && (#[trigger] init[i]).0 == prev[k].iv_local && init[i].1 == Some(
                    prev[k].op,
                ) && !user_var_skip(body, init[i].0);
            assert(status_keys(es)[i] < status_keys(es)[n]);
        }
    }
}

/// The bare write of a statement, classified.
pub fn affine_write_of(s: &StatementKind) -> (r: Option<(usize, Option<BinOp>)>)
    ensures
        r == affine_write(*s),
{
    match s {
        StatementKind::Assign(place, rvalue) => {
            if place.projection.len() != 0 {
                return None;
            }
            let local = place.local;
            let qualifies = match rvalue {
                Rvalue::BinaryOp(op, lhs, rhs) => {
                    if !(*op == BinOp::Add || *op == BinOp::AddUnchecked) {
                        None
                    } else {
                        // either side is `local`, other a constant
                        let lhs_is_self = operand_reads_local(lhs, local);
                        let rhs_is_self = operand_reads_local(rhs, local);
                        let lhs_is_const = match lhs {
                            Operand::Constant(_) => true,
                            _ => false,
                        };
                        let rhs_is_const = match rhs {
                            Operand::Constant(_) => true,
                            _ => false,
                        };
                        if (lhs_is_self && rhs_is_const) || (rhs_is_self && lhs_is_const) {
                            Some(*op)
                        } else {
                            None
                        }
                    }
                },
                _ => None,
            };
            Some((local, qualifies))
        },
        _ => None,
    }
}

/// The bare writes of a loop's statements, in order.
pub fn loop_write_events(body: &Body, lp: &SimpleLoop) -> (r: Vec<(usize, Option<BinOp>)>)
    requires
        loop_ok(*body, lp.body@),
    ensures
        r@ == loop_writes(*body, lp.body@, lp.body@.len()),
{
    let mut events: Vec<(usize, Option<BinOp>)> = Vec::new();
    let mut k: usize = 0;
    while k < lp.body.len()
        invariant
            k <= lp.body@.len(),
            loop_ok(*body, lp.body@),
            events@ == loop_writes(*body, lp.body@, k as nat),
        decreases lp.body@.len() - k,
    {
        let bb = lp.body[k];
        let block = &body.basic_blocks[bb];
        let ghost base = events@;
        let mut idx: usize = 0;
        while idx < block.statements.len()
            invariant
                idx <= block.statements@.len(),
                events@ == base + stmts_writes(block.statements@, idx as nat),
            decreases block.statements@.len() - idx,
        {
            match affine_write_of(&block.statements[idx]) {
                Some(w) => events.push(w),
                None => {},
            }
            proof {
                assert(events@ =~= base + stmts_writes(block.statements@, (idx + 1) as nat));
            }
            idx = idx + 1;
        }
        proof {
            assert(events@ =~= loop_writes(*body, lp.body@, (k + 1) as nat));
        }
        k = k + 1;
    }
    events
}

fn write_status_map(events: &Vec<(usize, Option<BinOp>)>) -> (m: BTreeMap<usize, Option<BinOp>>)
    ensures
        forall|l: usize| #[trigger] m@.contains_key(l) <==> write_status(events@, l) is Some,
        forall|l: usize| m@.contains_key(l) ==> Some(#[trigger] m@[l]) == write_status(events@, l),
{
    let ghost ev = events@;
    let mut writes: BTreeMap<usize, Option<BinOp>> = BTreeMap::new();
    let mut e: usize = 0;
    while e < events.len()
        invariant
            e <= ev.len(),
            events@ == ev,
            forall|l: usize| #[trigger] writes@.contains_key(l) <==> write_status(ev.take(e as int), l) is Some,
            forall|l: usize|
                writes@.contains_key(l) ==> Some(#[trigger] writes@[l]) == write_status(ev.take(e as int), l),
        decreases ev.len() - e,
    {
        let (local, kind) = events[e];
        proof {
            assert(ev.take(e + 1).drop_last() =~= ev.take(e as int));
        }
        // once disqualified, stays disqualified
        match writes.get(&local) {
            None => {
                writes.insert(local, kind);
            },
            Some(prev) => {
                let prev: Option<BinOp> = *prev;
                if prev.is_some() && kind.is_none() {
                    writes.insert(local, None);
                }
            },
        }
        proof {
            assert forall|l: usize| #[trigger] writes@.contains_key(l) <==> write_status(ev.take(e + 1), l) is Some by {}
            assert forall|l: usize|
                writes@.contains_key(l) implies Some(#[trigger] writes@[l]) == write_status(ev.take(e + 1), l) by {}
        }
        e = e + 1;
    }
    proof {
        assert(ev.take(e as int) =~= ev);
    }
    writes
}

fn push_inductions(body: &Body, header: usize, entries: &Vec<(usize, Option<BinOp>)>, findings: &mut IdiomFindings)
    ensures
        final(findings).inductions@ == old(findings).inductions@ + ind_filter(*body, header, entries@),
        final(findings).reductions@ == old(findings).reductions@,
        final(findings).privatizable@ == old(findings).privatizable@,
{
    let mut t: usize = 0;
    while t < entries.len()
        invariant
            t <= entries@.len(),
            findings.inductions@ == old(findings).inductions@ + ind_filter(*body, header, entries@.take(t as int)),
            findings.reductions@ == old(findings).reductions@,
            findings.privatizable@ == old(findings).privatizable@,
        decreases entries@.len() - t,
    {
        let (local, kind) = entries[t];
        proof {
            assert(entries@.take(t + 1).drop_last() =~= entries@.take(t as int));
        }
        match kind {
            Some(op) => {
                if !is_user_var_skip(body, local) {
                    findings.inductions.push(InductionFinding { loop_header: header, iv_local: local, op });
                }
            },
            None => {},
        }
        proof {
            assert(findings.inductions@ =~= old(findings).inductions@ + ind_filter(*body, header, entries@.take(t + 1)));
        }
        t = t + 1;
    }
    proof {
        assert(entries@.take(t as int) =~= entries@);
    }
}

/// Induction var updated only by constant Add: a local every write of which
/// in the loop's statements is `l = l + c` or `l = c + l`.
pub fn detect_induction_in_loop(body: &Body, lp: &SimpleLoop, findings: &mut IdiomFindings)
    requires
        loop_ok(*body, lp.body@),
    ensures
        final(findings).inductions@.len() >= old(findings).inductions@.len(),
        final(findings).inductions@.take(old(findings).inductions@.len() as int) == old(
            findings,
        ).inductions@,
        inductions_ok(
            *body,
            lp.body@,
            lp.header,
            final(findings).inductions@.skip(old(findings).inductions@.len() as int),
        ),
        final(findings).reductions@ == old(findings).reductions@,
        final(findings).privatizable@ == old(findings).privatizable@,
{
    let events = loop_write_events(body, lp);
    let writes = write_status_map(&events);
    let entries = sorted_entries(&writes);
    proof {
        assert(status_keys(entries@) =~= entries@.map_values(|p: (usize, Option<BinOp>)| p.0));
        lemma_ind_filter_sources(*body, lp.header, entries@);
        lemma_ind_filter_complete(*body, lp.header, entries@);
        lemma_ind_filter_sorted(*body, lp.header, entries@);
    }
    let ghost start = findings.inductions@;
    push_inductions(body, lp.header, &entries, findings);
    proof {
        let ev = events@;
        let out = ind_filter(*body, lp.header, entries@);
        assert(findings.inductions@.skip(start.len() as int) =~= out);
        assert(findings.inductions@.take(start.len() as int) =~= start);
        assert forall|l: usize|
            #![trigger write_status(ev, l)]
            (exists|k: int| 0 <= k < out.len() && (#[trigger] out[k]).iv_local == l) <==> (write_status(
                ev,
                l,
            ) matches Some(Some(_)) && !user_var_skip(*body, l)) by {
            if exists|k: int| 0 <= k < out.len() && (#[trigger] out[k]).iv_local == l {
                let k = choose|k: int| 0 <= k < out.len() && (#[trigger] out[k]).iv_local == l;
                let i = choose|i: int|
                    0 <= i < entries@.len() && (#[trigger] entries@[i]).0 == out[k].iv_local
                        && entries@[i].1 == Some(out[k].op) && !user_var_skip(*body, entries@[i].0);
                assert(writes@.contains_key(l));
            }
            if write_status(ev, l) matches Some(Some(_)) && !user_var_skip(*body, l) {
                assert(writes@.contains_key(l));
                let i = choose|i: int| 0 <= i < entries@.len() && (#[trigger] entries@[i]).0 == l;
                assert(entries@[i].1 is Some);
            }
        }
        assert forall|k: int| 0 <= k < out.len() implies write_status(ev, (#[trigger] out[k]).iv_local) == Some(Some(out[k].op)) by {
            let i = choose|i: int|
                0 <= i < entries@.len() && (#[trigger] entries@[i]).0 == out[k].iv_local
                    && entries@[i].1 == Some(out[k].op) && !user_var_skip(*body, entries@[i].0);
            assert(writes@.contains_key(out[k].iv_local));
        }
    }
}


/// Some argument copies or moves a place with a projection.
pub open spec fn args_projected(args: Seq<Operand>) -> bool {
    exists|i: int|
        0 <= i < args.len() && match #[trigger] args[i] {
            Operand::Copy(p) => p.projection@.len() != 0,
            Operand::Move(p) => p.projection@.len() != 0,
            Operand::Constant(_) => false,
        }
}

/// The number of constant arguments.
pub open spec fn const_count(args: Seq<Operand>) -> nat
    decreases args.len(),
{
    if args.len() == 0 {
        0
    } else {
        const_count(args.drop_last()) + if args.last() is Constant {
            1nat
        } else {
            0nat
        }
    }
}

/// Scanning `stmts` from the end, the last bare write to `temp` copies or
/// moves the bare local `iv`.
pub open spec fn last_write_loads(stmts: Seq<StatementKind>, temp: usize, iv: usize) -> bool
    decreases stmts.len(),
{
    if stmts.len() == 0 {
        false
    } else {
        match stmts.last() {
            StatementKind::Assign(place, rv) => if place.projection@.len() == 0 && place.local == temp {
                rv matches Rvalue::Use(o) && operand_reads(o, iv)
            } else {
                last_write_loads(stmts.drop_last(), temp, iv)
            },
            _ => last_write_loads(stmts.drop_last(), temp, iv),
        }
    }
}

/// The number of writes to `l` among the events.
pub open spec fn write_count(ev: Seq<(usize, Option<BinOp>)>, l: usize) -> nat
    decreases ev.len(),
{
    if ev.len() == 0 {
        0
    } else {
        write_count(ev.drop_last(), l) + if ev.last().0 == l {
            1nat
        } else {
            0nat
        }
    }
}

/// What the terminator of loop block `bb` says of an induction variable
/// updated through a call: `None` when the block shows no such update,
/// `Some(Some(iv))` when it does (`tmp = iv; res = <*_add>(tmp, c)` with the
/// move `iv = res` first in the return block, a block of the loop, and no
/// other write to `iv` in the loop), and `Some(None)` when the call and its
/// write-back are there but an argument is a projected place, which ends the
/// whole scan.
pub open spec fn add_call_iv(body: Body, blocks: Seq<usize>, bb: usize) -> Option<Option<usize>> {
    match term_of(body, bb as int) {
        Some(TerminatorKind::Call { func, args, destination, target, .. }) => {
            if destination.projection@.len() != 0 {
                None
            } else {
                match callee_path(func) {
                    None => None,
                    Some(path) => if wrapping_binop_spec(last_segment(path)) != Some(BinOp::Add)
                        || args@.len() != 2 {
                        None
                    } else {
                        match target {
                            None => None,
                            Some(post) => if !blocks.contains(post) {
                                None
                            } else {
                                match first_copy_of(stmts_of(body, post as int), destination.local) {
                                    None => None,
                                    Some(iv) => if args_projected(args@) {
                                        Some(None)
                                    } else if const_count(args@) != 1 {
                                        None
                                    } else if last_write_loads(
                                        stmts_of(body, bb as int),
                                        arg_locals(args@)[0],
                                        iv,
                                    ) && write_count(loop_writes(body, blocks, blocks.len()), iv)
                                        == 1 {
                                        Some(Some(iv))
                                    } else {
                                        None
                                    },
                                }
                            },
                        }
                    },
                }
            }
        },
        _ => None,
    }
}

/// The induction variables that the terminators of the first `k` loop
/// blocks show, in order; `None` once a scan has ended early.
pub open spec fn call_ivs(body: Body, blocks: Seq<usize>, k: nat) -> Option<Seq<usize>>
    decreases k,
{
    if k == 0 {
        Some(Seq::empty())
    } else {
        match call_ivs(body, blocks, (k - 1) as nat) {
            None => None,
            Some(s) => match add_call_iv(body, blocks, blocks[k - 1]) {
                None => Some(s),
                Some(None) => None,
                Some(Some(iv)) => Some(s.push(iv)),
            },
        }
    }
}

/// The induction findings of one loop, as the call form defines them: none
/// when the scan ended early, else one `Add` finding for each induction
/// variable found (other than the return place and the arguments), in
/// increasing order of locals.
pub open spec fn call_inductions_ok(body: Body, blocks: Seq<usize>, header: usize, found: Seq<InductionFinding>) -> bool {
    match call_ivs(body, blocks, blocks.len()) {
        None => found.len() == 0,
        Some(ivs) => {
            &&& forall|k: int| 0 <= k < found.len() ==> (#[trigger] found[k]).loop_header == header
                && found[k].op == BinOp::Add
            &&& forall|i: int, j: int| 0 <= i < j < found.len() ==> found[i].iv_local < found[j].iv_local
            &&& forall|l: usize|
                #![trigger ivs.contains(l)]
                (exists|k: int| 0 <= k < found.len() && (#[trigger] found[k]).iv_local == l) <==> (ivs.contains(l)
                    && !user_var_skip(body, l))
        },
    }
}

fn args_projected_exec(args: &Vec<Operand>) -> (r: bool)
    ensures
        r == args_projected(args@),
{
    let mut i: usize = 0;
    while i < args.len()
        invariant
            i <= args@.len(),
            forall|j: int|
                0 <= j < i ==> !match #[trigger] args@[j] {
                    Operand::Copy(p) => p.projection@.len() != 0,
                    Operand::Move(p) => p.projection@.len() != 0,
                    Operand::Constant(_) => false,
                },
        decreases args@.len() - i,
    {
        match &args[i] {
            Operand::Move(p) | Operand::Copy(p) => {
                if p.projection.len() != 0 {
                    return true;
                }
            },
            Operand::Constant(_) => {},
        }
        i = i + 1;
    }
    false
}

fn const_count_exec(args: &Vec<Operand>) -> (r: usize)
    ensures
        r == const_count(args@),
{
    let mut n: usize = 0;
    let mut i: usize = 0;
    while i < args.len()
        invariant
            i <= args@.len(),
            n == const_count(args@.take(i as int)),
            n <= i,
        decreases args@.len() - i,
    {
        assert(args@.take(i + 1).drop_last() =~= args@.take(i as int));
        match &args[i] {
            Operand::Constant(_) => {
                n = n + 1;
            },
            _ => {},
        }
        i = i + 1;
    }
    assert(args@.take(i as int) =~= args@);
    n
}

fn last_write_loads_exec(stmts: &Vec<StatementKind>, temp: usize, iv: usize) -> (r: bool)
    ensures
        r == last_write_loads(stmts@, temp, iv),
{
    let mut i: usize = stmts.len();
    assert(stmts@.take(i as int) =~= stmts@);
    while i > 0
        invariant
            i <= stmts@.len(),
            last_write_loads(stmts@, temp, iv) == last_write_loads(stmts@.take(i as int), temp, iv),
        decreases i,
    {
        proof {
            assert(stmts@.take(i as int).drop_last() =~= stmts@.take(i - 1));
            assert(stmts@.take(i as int).last() == stmts@[i - 1]);
        }
        i = i - 1;
        match &stmts[i] {
            StatementKind::Assign(place, rvalue) => {
                if place.projection.len() == 0 && place.local == temp {
                    // last write to temp_local
                    return match rvalue {
                        Rvalue::Use(operand) => operand_reads_local(operand, iv),
                        _ => false,
                    };
                }
            },
            _ => {},
        }
    }
    false
}

fn write_count_exec(ev: &Vec<(usize, Option<BinOp>)>, l: usize) -> (r: usize)
    ensures
        r == write_count(ev@, l),
{
    let mut n: usize = 0;
    let mut i: usize = 0;
    while i < ev.len()
        invariant
            i <= ev@.len(),
            n == write_count(ev@.take(i as int), l),
            n <= i,
        decreases ev@.len() - i,
    {
        assert(ev@.take(i + 1).drop_last() =~= ev@.take(i as int));
        if ev[i].0 == l {
            n = n + 1;
        }
        i = i + 1;
    }
    assert(ev@.take(i as int) =~= ev@);
    n
}

fn add_call_iv_at(body: &Body, lp: &SimpleLoop, writes: &Vec<(usize, Option<BinOp>)>, bb: usize) -> (r: Option<Option<usize>>)
    requires
        loop_ok(*body, lp.body@),
        bb < body.num_blocks(),
        writes@ == loop_writes(*body, lp.body@, lp.body@.len()),
    ensures
        r == add_call_iv(*body, lp.body@, bb),
{
    let block = &body.basic_blocks[bb];
    let (func, args, destination, target) = match &block.terminator {
        Some(TerminatorKind::Call { func, args, destination, target, .. }) => (func, args, destination, target),
        _ => {
            return None;
        },
    };
    if destination.projection.len() != 0 {
        return None;
    }
    let result_local = destination.local;
    let path = match func {
        Operand::Constant(Const::FnDef { path }) => path,
        _ => {
            return None;
        },
    };
    match wrapping_method_to_binop(path.as_str()) {
        Some(BinOp::Add) => {},
        _ => {
            return None;
        },
    }
    if args.len() != 2 {
        return None;
    }
    let bb_post = match target {
        Some(t) => *t,
        None => {
            return None;
        },
    };
    if !contains_usize(&lp.body, bb_post) {
        return None;
    }
    proof {
        let w = choose|w: int| 0 <= w < lp.body@.len() && lp.body@[w] == bb_post;
        assert(lp.body@[w] < body.num_blocks());
    }
    let post_block = &body.basic_blocks[bb_post];
    let iv_local = match find_first_copy(&post_block.statements, result_local) {
        Some(l) => l,
        None => {
            return None;
        },
    };
    // one arg from `_iv`, other a constant
    if args_projected_exec(args) {
        return Some(None);
    }
    if const_count_exec(args) != 1 {
        return None;
    }
    let temps = collect_arg_locals(args);
    proof {
        lemma_two_args(args@);
    }
    let temp_local = temps[0];
    if !last_write_loads_exec(&block.statements, temp_local, iv_local) {
        return None;
    }
    // post-block move must be the only write
    if write_count_exec(writes, iv_local) != 1 {
        return None;
    }
    Some(Some(iv_local))
}

proof fn lemma_two_args(args: Seq<Operand>)
    requires
        args.len() == 2,
        !args_projected(args),
        const_count(args) == 1,
    ensures
        arg_locals(args).len() == 1,
{
    let a = args.drop_last();
    assert(a.drop_last().len() == 0);
    assert(a.last() == args[0]);
    assert(args.last() == args[1]);
    assert(!match args[0] {
        Operand::Copy(p) => p.projection@.len() != 0,
        Operand::Move(p) => p.projection@.len() != 0,
        Operand::Constant(_) => false,
    });
    assert(!match args[1] {
        Operand::Copy(p) => p.projection@.len() != 0,
        Operand::Move(p) => p.projection@.len() != 0,
        Operand::Constant(_) => false,
    });
    assert(const_count(a.drop_last()) == 0);
    assert(arg_locals(a.drop_last()) =~= Seq::<usize>::empty());
    assert(const_count(a) == if args[0] is Constant { 1nat } else { 0nat });
    assert(arg_locals(a).len() == if args[0] is Constant { 0nat } else { 1nat });
}

/// The induction variables shown by the terminators of a loop's blocks,
/// or `None` when the scan ends early.
fn collect_call_ivs(body: &Body, lp: &SimpleLoop, writes: &Vec<(usize, Option<BinOp>)>) -> (r: Option<Vec<usize>>)
    requires
        loop_ok(*body, lp.body@),
        writes@ == loop_writes(*body, lp.body@, lp.body@.len()),
    ensures
        match r {
            None => call_ivs(*body, lp.body@, lp.body@.len()) is None,
            Some(v) => call_ivs(*body, lp.body@, lp.body@.len()) == Some(v@),
        },
{
    let mut ivs: Vec<usize> = Vec::new();
    let mut k: usize = 0;
    while k < lp.body.len()
        invariant
            k <= lp.body@.len(),
            loop_ok(*body, lp.body@),
            writes@ == loop_writes(*body, lp.body@, lp.body@.len()),
            call_ivs(*body, lp.body@, k as nat) == Some(ivs@),
        decreases lp.body@.len() - k,
    {
        let bb = lp.body[k];
        match add_call_iv_at(body, lp, writes, bb) {
            None => {},
            Some(None) => {
                proof {
                    lemma_call_ivs_stops(*body, lp.body@, (k + 1) as nat, lp.body@.len());
                }
                return None;
            },
            Some(Some(iv)) => {
                ivs.push(iv);
            },
        }
        k = k + 1;
    }
    Some(ivs)
}

/// Marks each of `ivs` as affine in a map whose entries were all not affine.
fn mark_affine(status: &mut BTreeMap<usize, bool>, ivs: &Vec<usize>)
    requires
        forall|l: usize| #[trigger] old(status)@.contains_key(l) ==> !old(status)@[l],
    ensures
        forall|l: usize|
            #![trigger final(status)@.contains_key(l)]
            #![trigger ivs@.contains(l)]
            (final(status)@.contains_key(l) && final(status)@[l]) <==> ivs@.contains(l),
{
    let mut i: usize = 0;
    while i < ivs.len()
        invariant
            i <= ivs@.len(),
            forall|l: usize|
                #![trigger status@.contains_key(l)]
                (status@.contains_key(l) && status@[l]) <==> ivs@.take(i as int).contains(l),
        decreases ivs@.len() - i,
    {
        let iv = ivs[i];
        status.insert(iv, true);
        proof {
            let prev = ivs@.take(i as int);
            assert(ivs@.take(i + 1) =~= prev.push(iv));
            assert forall|l: usize| #![trigger status@.contains_key(l)] (status@.contains_key(l) && status@[l]) <==> prev.push(iv).contains(l) by {
                if l == iv {
                    assert(prev.push(iv)[prev.len() as int] == iv);
                } else if prev.contains(l) {
                    let j = choose|j: int| 0 <= j < prev.len() && prev[j] == l;
                    assert(prev.push(iv)[j] == l);
                } else if prev.push(iv).contains(l) {
                    let j = choose|j: int| 0 <= j < prev.len() + 1 && prev.push(iv)[j] == l;
                    assert(prev[j] == l);
                }
            }
        }
        i = i + 1;
    }
    assert(ivs@.take(i as int) =~= ivs@);
    assert forall|l: usize|
        #![trigger status@.contains_key(l)]
        #![trigger ivs@.contains(l)]
        (status@.contains_key(l) && status@[l]) <==> ivs@.contains(l) by {
        assert((status@.contains_key(l) && status@[l]) <==> ivs@.take(i as int).contains(l));
    }
}

/// An `Add` induction finding for each privatization-style entry finding.
pub open spec fn as_add_inductions(fs: Seq<crate::detect::PrivatizableFinding>) -> Seq<InductionFinding> {
    fs.map_values(
        |p: crate::detect::PrivatizableFinding| InductionFinding { loop_header: p.loop_header, iv_local: p.local, op: BinOp::Add },
    )
}

fn push_call_inductions(body: &Body, header: usize, entries: &Vec<(usize, bool)>, findings: &mut IdiomFindings)
    ensures
        final(findings).inductions@ == old(findings).inductions@ + as_add_inductions(priv_filter(*body, header, entries@)),
        final(findings).reductions@ == old(findings).reductions@,
        final(findings).privatizable@ == old(findings).privatizable@,
{
    let mut t: usize = 0;
    while t < entries.len()
        invariant
            t <= entries@.len(),
            findings.inductions@ == old(findings).inductions@ + as_add_inductions(priv_filter(*body, header, entries@.take(t as int))),
            findings.reductions@ == old(findings).reductions@,
            findings.privatizable@ == old(findings).privatizable@,
        decreases entries@.len() - t,
    {
        let (local, affine) = entries[t];
        proof {
            assert(entries@.take(t + 1).drop_last() =~= entries@.take(t as int));
        }
        if affine && !is_user_var_skip(body, local) {
            findings.inductions.push(InductionFinding { loop_header: header, iv_local: local, op: BinOp::Add });
        }
        proof {
            assert(findings.inductions@ =~= old(findings).inductions@ + as_add_inductions(priv_filter(*body, header, entries@.take(t + 1))));
        }
        t = t + 1;
    }
    proof {
        assert(entries@.take(t as int) =~= entries@);
    }
}

proof fn lemma_call_found(body: Body, header: usize, entries: Seq<(usize, bool)>, m: Map<usize, bool>, ivs: Seq<usize>)
    requires
        strictly_increasing(entry_keys(entries)),
        forall|i: int| 0 <= i < entries.len() ==> m.contains_key((#[trigger] entries[i]).0) && m[entries[i].0] == entries[i].1,
        forall|l: usize| #[trigger] m.contains_key(l) ==> exists|i: int| 0 <= i < entries.len() && (#[trigger] entries[i]).0 == l,
        forall|l: usize|
            #![trigger m.contains_key(l)]
            #![trigger ivs.contains(l)]
            (m.contains_key(l) && m[l]) <==> ivs.contains(l),
    ensures
        ({
            let found = as_add_inductions(priv_filter(body, header, entries));
            &&& forall|k: int| 0 <= k < found.len() ==> (#[trigger] found[k]).loop_header == header
                && found[k].op == BinOp::Add
            &&& forall|i: int, j: int| 0 <= i < j < found.len() ==> found[i].iv_local < found[j].iv_local
            &&& forall|l: usize|
                #![trigger ivs.contains(l)]
                (exists|k: int| 0 <= k < found.len() && (#[trigger] found[k]).iv_local == l) <==> (ivs.contains(l)
                    && !user_var_skip(body, l))
        }),
{
    lemma_priv_filter_sources(body, header, entries);
    lemma_priv_filter_complete(body, header, entries);
    lemma_priv_filter_sorted(body, header, entries);
    let out = priv_filter(body, header, entries);
    let found = as_add_inductions(out);
    assert forall|k: int| 0 <= k < found.len() implies (#[trigger] found[k]).loop_header == header && found[k].op == BinOp::Add by {
        assert(found[k].loop_header == out[k].loop_header);
    }
    assert forall|i: int, j: int| 0 <= i < j < found.len() implies found[i].iv_local < found[j].iv_local by {
        assert(found[i].iv_local == out[i].local);
        assert(found[j].iv_local == out[j].local);
    }
    assert forall|l: usize|
        #![trigger ivs.contains(l)]
        (exists|k: int| 0 <= k < found.len() && (#[trigger] found[k]).iv_local == l) <==> (ivs.contains(l)
            && !user_var_skip(body, l)) by {
        if exists|k: int| 0 <= k < found.len() && (#[trigger] found[k]).iv_local == l {
            let k = choose|k: int| 0 <= k < found.len() && (#[trigger] found[k]).iv_local == l;
            assert(out[k].local == l);
            let i = choose|i: int|
                0 <= i < entries.len() && (#[trigger] entries[i]).0 == out[k].local && entries[i].1
                    && !user_var_skip(body, entries[i].0);
            assert(m.contains_key(l));
        }
        if ivs.contains(l) && !user_var_skip(body, l) {
            assert(m.contains_key(l));
            let i = choose|i: int| 0 <= i < entries.len() && (#[trigger] entries[i]).0 == l;
            assert(entries[i].1);
            let k = choose|k: int| 0 <= k < out.len() && (#[trigger] out[k]).local == entries[i].0;
            assert(found[k].iv_local == l);
        }
    }
}

/// Induction detection for the `wrapping_add` call shape.
pub fn detect_induction_via_call(body: &Body, lp: &SimpleLoop, findings: &mut IdiomFindings)
    requires
        loop_ok(*body, lp.body@),
    ensures
        final(findings).inductions@.len() >= old(findings).inductions@.len(),
        final(findings).inductions@.take(old(findings).inductions@.len() as int) == old(
            findings,
        ).inductions@,
        call_inductions_ok(
            *body,
            lp.body@,
            lp.header,
            final(findings).inductions@.skip(old(findings).inductions@.len() as int),
        ),
        final(findings).reductions@ == old(findings).reductions@,
        final(findings).privatizable@ == old(findings).privatizable@,
{
    let writes = loop_write_events(body, lp);
    // pass 1, non-pattern write disqualifies the Local
    let mut status: BTreeMap<usize, bool> = BTreeMap::new();
    let mut e: usize = 0;
    while e < writes.len()
        invariant
            e <= writes@.len(),
            forall|l: usize| #[trigger] status@.contains_key(l) ==> !status@[l],
        decreases writes@.len() - e,
    {
        let local = writes[e].0;
        if !status.contains_key(&local) {
            status.insert(local, false);
        }
        e = e + 1;
    }
    // pass 2, wrapping_add writeback pattern marks Affine
    let ivs = match collect_call_ivs(body, lp, &writes) {
        Some(v) => v,
        None => {
            proof {
                assert(findings.inductions@.take(old(findings).inductions@.len() as int) =~= old(findings).inductions@);
                assert(findings.inductions@.skip(old(findings).inductions@.len() as int).len() == 0);
            }
            return;
        },
    };
    mark_affine(&mut status, &ivs);
    let entries = sorted_entries(&status);
    proof {
        assert(entry_keys(entries@) =~= entries@.map_values(|p: (usize, bool)| p.0));
        lemma_call_found(*body, lp.header, entries@, status@, ivs@);
    }
    let ghost start = findings.inductions@;
    push_call_inductions(body, lp.header, &entries, findings);
    proof {
        let found = as_add_inductions(priv_filter(*body, lp.header, entries@));
        assert(findings.inductions@.skip(start.len() as int) =~= found);
        assert(findings.inductions@.take(start.len() as int) =~= start);
        assert(call_ivs(*body, lp.body@, lp.body@.len()) == Some(ivs@));
        assert(call_inductions_ok(*body, lp.body@, lp.header, found));
    }
}

/// Once the scan has ended early it stays ended.
proof fn lemma_call_ivs_stops(body: Body, blocks: Seq<usize>, k: nat, n: nat)
    requires
        k <= n,
        call_ivs(body, blocks, k) is None,
    ensures
        call_ivs(body, blocks, n) is None,
    decreases n - k,
{
    if k < n {
        lemma_call_ivs_stops(body, blocks, k + 1, n);
    }
}

} // verus!
