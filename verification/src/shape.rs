//! The common shape of a `for i in range` loop in MIR (a header calling
//! `Iterator::next`, a switch on the result's discriminant, the `Some` arm
//! extracting the induction variable), local aliasing through copies, and
//! the walk over passthrough blocks used by the invoke matchers.
use vstd::prelude::*;
use std::collections::BTreeMap;
use crate::mir::{Body, StatementKind, TerminatorKind, Operand, Rvalue, ProjectionElem, terminator_targets_ok};
use crate::detect::{SimpleLoop, loop_ok, stmts_of, term_of, callee_path, terminator_successors, successors_spec, contains_usize, lemma_successor_targets};

verus! {

broadcast use {vstd::std_specs::btree::group_btree_axioms, vstd::laws_cmp::group_laws_cmp};

// ── Reads of a local ──────────────────────────────────────────────────

/// The operand copies or moves (a place rooted at) `target`.
pub open spec fn op_reads(o: Operand, target: usize) -> bool {
    match o {
        Operand::Copy(p) => p.local == target,
        Operand::Move(p) => p.local == target,
        Operand::Constant(_) => false,
    }
}

/// Some operand of the list reads `target`.
pub open spec fn any_op_reads(ops: Seq<Operand>, target: usize) -> bool {
    exists|i: int| 0 <= i < ops.len() && #[trigger] op_reads(ops[i], target)
}

/// The right-hand side reads (a place rooted at) `target`.
pub open spec fn rvalue_reads(rv: Rvalue, target: usize) -> bool {
    match rv {
        Rvalue::Use(o) => op_reads(o, target),
        Rvalue::Repeat(o) => op_reads(o, target),
        Rvalue::Ref(_, p) => p.local == target,
        Rvalue::RawPtr(p) => p.local == target,
        Rvalue::Cast(o) => op_reads(o, target),
        Rvalue::BinaryOp(_, a, b) => op_reads(a, target) || op_reads(b, target),
        Rvalue::UnaryOp(_, o) => op_reads(o, target),
        Rvalue::Aggregate(_, ops) => any_op_reads(ops@, target),
        Rvalue::Discriminant(p) => p.local == target,
        Rvalue::CopyForDeref(p) => p.local == target,
        _ => false,
    }
}

fn op_reads_exec(o: &Operand, target: usize) -> (r: bool)
    ensures
        r == op_reads(*o, target),
{
    match o {
        Operand::Copy(p) | Operand::Move(p) => p.local == target,
        Operand::Constant(_) => false,
    }
}

fn any_op_reads_exec(ops: &Vec<Operand>, target: usize) -> (r: bool)
    ensures
        r == any_op_reads(ops@, target),
{
    let mut i: usize = 0;
    while i < ops.len()
        invariant
            i <= ops@.len(),
            forall|j: int| 0 <= j < i ==> !#[trigger] op_reads(ops@[j], target),
        decreases ops@.len() - i,
    {
        if op_reads_exec(&ops[i], target) {
            assert(op_reads(ops@[i as int], target));
            return true;
        }
        i = i + 1;
    }
    false
}

/// true if rvalue reads `target`
pub fn rvalue_reads_local(rvalue: &Rvalue, target: usize) -> (r: bool)
    ensures
        r == rvalue_reads(*rvalue, target),
{
    match rvalue {
        Rvalue::Use(op) | Rvalue::Repeat(op) | Rvalue::Cast(op) | Rvalue::UnaryOp(_, op) => op_reads_exec(op, target),
        Rvalue::Ref(_, p) | Rvalue::RawPtr(p) | Rvalue::Discriminant(p) | Rvalue::CopyForDeref(p) => p.local == target,
        Rvalue::BinaryOp(_, a, b) => op_reads_exec(a, target) || op_reads_exec(b, target),
        Rvalue::Aggregate(_, ops) => any_op_reads_exec(ops, target),
        _ => false,
    }
}

// ── Passthrough blocks ────────────────────────────────────────────────

/// A statement that a passthrough block may hold: an assignment not to the
/// forbidden local and not reading the tainted one, or storage markers and
/// no-ops.
pub open spec fn stmt_passes(s: StatementKind, tainted: usize, forbidden: Option<usize>) -> bool {
    match s {
        StatementKind::Assign(place, rv) => !(forbidden == Some(place.local)) && !rvalue_reads(rv, tainted),
        StatementKind::StorageLive(_) => true,
        StatementKind::StorageDead(_) => true,
        StatementKind::Nop => true,
        _ => false,
    }
}

/// Every statement of the block passes.
pub open spec fn block_passes(stmts: Seq<StatementKind>, tainted: usize, forbidden: Option<usize>) -> bool {
    forall|i: int| 0 <= i < stmts.len() ==> #[trigger] stmt_passes(stmts[i], tainted, forbidden)
}

/// From `current`, at most `steps` blocks: the first block whose statements
/// pass and whose terminator is not a `Goto` (or `None` when a block's
/// statements do not pass or the steps run out), with the `Goto` blocks
/// passed through on the way, in order.
pub open spec fn passthrough(body: Body, current: usize, tainted: usize, forbidden: Option<usize>, steps: nat) -> (Option<usize>, Seq<usize>)
    decreases steps,
{
    if steps == 0 {
        (None, Seq::empty())
    } else if !block_passes(stmts_of(body, current as int), tainted, forbidden) {
        (None, Seq::empty())
    } else {
        match term_of(body, current as int) {
            Some(TerminatorKind::Goto { target }) => {
                let rest = passthrough(body, target, tainted, forbidden, (steps - 1) as nat);
                (rest.0, seq![current] + rest.1)
            },
            _ => (Some(current), Seq::empty()),
        }
    }
}

fn block_passes_exec(stmts: &Vec<StatementKind>, tainted: usize, forbidden: Option<usize>) -> (r: bool)
    ensures
        r == block_passes(stmts@, tainted, forbidden),
{
    let mut i: usize = 0;
    while i < stmts.len()
        invariant
            i <= stmts@.len(),
            forall|j: int| 0 <= j < i ==> #[trigger] stmt_passes(stmts@[j], tainted, forbidden),
        decreases stmts@.len() - i,
    {
        match &stmts[i] {
            StatementKind::Assign(place, rvalue) => {
                match forbidden {
                    Some(forbid) => {
                        if place.local == forbid {
                            assert(!stmt_passes(stmts@[i as int], tainted, forbidden));
                            return false;
                        }
                    },
                    None => {},
                }
                if rvalue_reads_local(rvalue, tainted) {
                    assert(!stmt_passes(stmts@[i as int], tainted, forbidden));
                    return false;
                }
            },
            StatementKind::StorageLive(_) | StatementKind::StorageDead(_) | StatementKind::Nop => {},
            _ => {
                assert(!stmt_passes(stmts@[i as int], tainted, forbidden));
                return false;
            },
        }
        i = i + 1;
    }
    true
}

/// Walk through any number of passthrough blocks: from `start`, while a
/// block's statements neither write `forbidden` nor read `tainted` and its
/// terminator is a `Goto`, record the block and follow the `Goto`, at most
/// `max_steps` blocks. Returns the first block with a real terminator, or
/// `None`; the blocks passed through are appended to `out_blocks`.
pub fn walk_passthrough_blocks(
    body: &Body,
    start: usize,
    tainted: usize,
    forbidden: Option<usize>,
    max_steps: usize,
    out_blocks: &mut Vec<usize>,
) -> (r: Option<usize>)
    requires
        body.targets_valid(),
        body.all_terminated(),
        start < body.num_blocks(),
    ensures
        r == passthrough(*body, start, tainted, forbidden, max_steps as nat).0,
        final(out_blocks)@ == old(out_blocks)@ + passthrough(*body, start, tainted, forbidden, max_steps as nat).1,
{
    let ghost full = passthrough(*body, start, tainted, forbidden, max_steps as nat);
    let mut current = start;
    let mut step: usize = 0;
    while step < max_steps
        invariant
            body.targets_valid(),
            body.all_terminated(),
            current < body.num_blocks(),
            step <= max_steps,
            full == passthrough(*body, start, tainted, forbidden, max_steps as nat),
            full.0 == passthrough(*body, current, tainted, forbidden, (max_steps - step) as nat).0,
            full.1 == out_blocks@.skip(old(out_blocks)@.len() as int) + passthrough(
                *body,
                current,
                tainted,
                forbidden,
                (max_steps - step) as nat,
            ).1,
            out_blocks@.len() >= old(out_blocks)@.len(),
            out_blocks@.take(old(out_blocks)@.len() as int) == old(out_blocks)@,
        decreases max_steps - step,
    {
        let bb_data = &body.basic_blocks[current];
        // Statements must not read `tainted`
        if !block_passes_exec(&bb_data.statements, tainted, forbidden) {
            proof {
                assert(out_blocks@ =~= old(out_blocks)@ + out_blocks@.skip(old(out_blocks)@.len() as int));
            }
            return None;
        }
        proof {
            assert(body.basic_blocks@[current as int].terminator is Some);
        }
        match &bb_data.terminator {
            Some(TerminatorKind::Goto { target }) => {
                let ghost before = out_blocks@;
                // Passthrough block - record it and continue
                out_blocks.push(current);
                proof {
                    assert(terminator_targets_ok(body.basic_blocks@[current as int].terminator->0, body.num_blocks()));
                    assert(out_blocks@.skip(old(out_blocks)@.len() as int) =~= before.skip(old(out_blocks)@.len() as int).push(current));
                    assert(out_blocks@.take(old(out_blocks)@.len() as int) =~= before.take(old(out_blocks)@.len() as int));
                }
                current = *target;
            },
            _ => {
                proof {
                    assert(out_blocks@ =~= old(out_blocks)@ + out_blocks@.skip(old(out_blocks)@.len() as int));
                }
                // real terminator, leave its stmts to bb_b
                return Some(current);
            },
        }
        step = step + 1;
    }
    proof {
        assert(out_blocks@ =~= old(out_blocks)@ + out_blocks@.skip(old(out_blocks)@.len() as int));
    }
    None
}

// ── Aliases ───────────────────────────────────────────────────────────

/// Following the alias map from `cur`, at most `fuel` steps, stopping at a
/// local mapped to itself or not mapped.
pub open spec fn alias_walk(m: Map<usize, usize>, cur: usize, fuel: nat) -> usize
    decreases fuel,
{
    if fuel == 0 {
        cur
    } else if m.contains_key(cur) && m[cur] != cur {
        alias_walk(m, m[cur], (fuel - 1) as nat)
    } else {
        cur
    }
}

/// The alias a statement records: a bare local assigned a copy or move of
/// another bare local, or a reborrow `&*p` of a local.
pub open spec fn alias_of(s: StatementKind) -> Option<(usize, usize)> {
    match s {
        StatementKind::Assign(place, rv) => if place.projection@.len() != 0 {
            None
        } else {
            match rv {
                Rvalue::Use(Operand::Copy(p)) => if p.projection@.len() == 0 {
                    Some((place.local, p.local))
                } else {
                    None
                },
                Rvalue::Use(Operand::Move(p)) => if p.projection@.len() == 0 {
                    Some((place.local, p.local))
                } else {
                    None
                },
                Rvalue::Ref(_, p) => if p.projection@.len() == 1 && p.projection@[0] == ProjectionElem::Deref {
                    Some((place.local, p.local))
                } else {
                    None
                },
                _ => None,
            }
        },
        _ => None,
    }
}

/// The aliases of a list of statements, in order.
pub open spec fn stmt_aliases(stmts: Seq<StatementKind>) -> Seq<(usize, usize)>
    decreases stmts.len(),
{
    if stmts.len() == 0 {
        Seq::empty()
    } else {
        stmt_aliases(stmts.drop_last()) + match alias_of(stmts.last()) {
            Some(a) => seq![a],
            None => Seq::empty(),
        }
    }
}

/// The aliases of the statements of the given blocks, in order.
pub open spec fn blocks_aliases(body: Body, blocks: Seq<usize>) -> Seq<(usize, usize)>
    decreases blocks.len(),
{
    if blocks.len() == 0 {
        Seq::empty()
    } else {
        blocks_aliases(body, blocks.drop_last()) + stmt_aliases(stmts_of(body, blocks.last() as int))
    }
}

/// The block indices below `n` that are not among `blocks`, increasing.
pub open spec fn outside_blocks(n: nat, blocks: Seq<usize>) -> Seq<usize>
    decreases n,
{
    if n == 0 {
        Seq::empty()
    } else {
        outside_blocks((n - 1) as nat, blocks) + if blocks.contains((n - 1) as usize) {
            Seq::empty()
        } else {
            seq![(n - 1) as usize]
        }
    }
}

/// The map after inserting each pair in turn (later pairs win).
pub open spec fn insert_all(m: Map<usize, usize>, ev: Seq<(usize, usize)>) -> Map<usize, usize>
    decreases ev.len(),
{
    if ev.len() == 0 {
        m
    } else {
        insert_all(m, ev.drop_last()).insert(ev.last().0, ev.last().1)
    }
}

/// The map after inserting each pair whose key is not there yet (earlier
/// pairs win).
pub open spec fn or_insert_all(m: Map<usize, usize>, ev: Seq<(usize, usize)>) -> Map<usize, usize>
    decreases ev.len(),
{
    if ev.len() == 0 {
        m
    } else {
        let p = or_insert_all(m, ev.drop_last());
        if p.contains_key(ev.last().0) {
            p
        } else {
            p.insert(ev.last().0, ev.last().1)
        }
    }
}

/// The alias map of a loop: the loop's aliases (the last one of a local
/// wins), then those of the blocks outside the loop where the loop has none
/// (the first one wins).
pub open spec fn alias_map(body: Body, blocks: Seq<usize>) -> Map<usize, usize> {
    or_insert_all(
        insert_all(Map::empty(), blocks_aliases(body, blocks)),
        blocks_aliases(body, outside_blocks(body.num_blocks(), blocks)),
    )
}

/// A `for i in range` loop: the block entering it, the block leaving it,
/// the root local of its induction variable, and the alias map.
#[derive(Debug)]
pub struct LoopShape {
    pub entry_bb: usize,
    pub exit_bb: usize,
    pub i_root: usize,
    pub alias_root: BTreeMap<usize, usize>,
}

impl LoopShape {
    /// `l` resolves to the induction variable's root.
    pub fn same_as_i(&self, l: usize) -> (r: bool)
        ensures
            r == (alias_walk(self.alias_root@, l, 16) == self.i_root),
    {
        Self::resolve(&self.alias_root, l) == self.i_root
    }

    /// Follows the alias map from `l`, at most 16 steps.
    pub fn resolve(alias_root: &BTreeMap<usize, usize>, l: usize) -> (r: usize)
        ensures
            r == alias_walk(alias_root@, l, 16),
    {
        let mut cur = l;
        let mut step: usize = 0;
        while step < 16
            invariant
                step <= 16,
                alias_walk(alias_root@, l, 16) == alias_walk(alias_root@, cur, (16 - step) as nat),
            decreases 16 - step,
        {
            match alias_root.get(&cur) {
                Some(n) => {
                    let n: usize = *n;
                    if n != cur {
                        cur = n;
                    } else {
                        return cur;
                    }
                },
                None => {
                    return cur;
                },
            }
            step = step + 1;
        }
        cur
    }
}

fn aliases_into_loop(body: &Body, lp: &SimpleLoop, m: &mut BTreeMap<usize, usize>)
    requires
        loop_ok(*body, lp.body@),
    ensures
        final(m)@ == insert_all(old(m)@, blocks_aliases(*body, lp.body@)),
{
    let mut k: usize = 0;
    while k < lp.body.len()
        invariant
            k <= lp.body@.len(),
            loop_ok(*body, lp.body@),
            m@ == insert_all(old(m)@, blocks_aliases(*body, lp.body@.take(k as int))),
        decreases lp.body@.len() - k,
    {
        let bb = lp.body[k];
        let stmts = &body.basic_blocks[bb].statements;
        let ghost base = blocks_aliases(*body, lp.body@.take(k as int));
        let mut i: usize = 0;
        while i < stmts.len()
            invariant
                i <= stmts@.len(),
                m@ == insert_all(old(m)@, base + stmt_aliases(stmts@.take(i as int))),
            decreases stmts@.len() - i,
        {
            proof {
                assert(stmts@.take(i + 1).drop_last() =~= stmts@.take(i as int));
            }
            match alias_of_exec(&stmts[i]) {
                Some((dst, src)) => {
                    m.insert(dst, src);
                    proof {
                        let ev = base + stmt_aliases(stmts@.take(i + 1));
                        assert(ev.drop_last() =~= base + stmt_aliases(stmts@.take(i as int)));
                    }
                },
                None => {
                    proof {
                        assert(base + stmt_aliases(stmts@.take(i + 1)) =~= base + stmt_aliases(stmts@.take(i as int)));
                    }
                },
            }
            i = i + 1;
        }
        proof {
            assert(stmts@.take(i as int) =~= stmts@);
            assert(lp.body@.take(k + 1).drop_last() =~= lp.body@.take(k as int));
        }
        k = k + 1;
    }
    proof {
        assert(lp.body@.take(k as int) =~= lp.body@);
    }
}

fn aliases_outside_loop(body: &Body, lp: &SimpleLoop, m: &mut BTreeMap<usize, usize>)
    ensures
        final(m)@ == or_insert_all(old(m)@, blocks_aliases(*body, outside_blocks(body.num_blocks(), lp.body@))),
{
    let mut b: usize = 0;
    while b < body.basic_blocks.len()
        invariant
            b <= body.num_blocks(),
            m@ == or_insert_all(old(m)@, blocks_aliases(*body, outside_blocks(b as nat, lp.body@))),
        decreases body.num_blocks() - b,
    {
        if !contains_usize(&lp.body, b) {
            let stmts = &body.basic_blocks[b].statements;
            let ghost base = blocks_aliases(*body, outside_blocks(b as nat, lp.body@));
            let mut i: usize = 0;
            while i < stmts.len()
                invariant
                    i <= stmts@.len(),
                    m@ == or_insert_all(old(m)@, base + stmt_aliases(stmts@.take(i as int))),
                decreases stmts@.len() - i,
            {
                proof {
                    assert(stmts@.take(i + 1).drop_last() =~= stmts@.take(i as int));
                }
                match alias_of_exec(&stmts[i]) {
                    Some((dst, src)) => {
                        if !m.contains_key(&dst) {
                            m.insert(dst, src);
                        }
                        proof {
                            let ev = base + stmt_aliases(stmts@.take(i + 1));
                            assert(ev.drop_last() =~= base + stmt_aliases(stmts@.take(i as int)));
                        }
                    },
                    None => {
                        proof {
                            assert(base + stmt_aliases(stmts@.take(i + 1)) =~= base + stmt_aliases(stmts@.take(i as int)));
                        }
                    },
                }
                i = i + 1;
            }
            proof {
                assert(stmts@.take(i as int) =~= stmts@);
                let ob = outside_blocks((b + 1) as nat, lp.body@);
                assert(ob =~= outside_blocks(b as nat, lp.body@).push(b));
                assert(ob.drop_last() =~= outside_blocks(b as nat, lp.body@));
            }
        } else {
            proof {
                assert(outside_blocks((b + 1) as nat, lp.body@) =~= outside_blocks(b as nat, lp.body@));
            }
        }
        b = b + 1;
    }
}

fn alias_of_exec(s: &StatementKind) -> (r: Option<(usize, usize)>)
    ensures
        r == alias_of(*s),
{
    match s {
        StatementKind::Assign(place, rvalue) => {
            if place.projection.len() != 0 {
                return None;
            }
            match rvalue {
                Rvalue::Use(Operand::Copy(p)) | Rvalue::Use(Operand::Move(p)) => {
                    if p.projection.len() == 0 {
                        Some((place.local, p.local))
                    } else {
                        None
                    }
                },
                Rvalue::Ref(_, p) => {
                    if p.projection.len() == 1 && p.projection[0] == ProjectionElem::Deref {
                        Some((place.local, p.local))
                    } else {
                        None
                    }
                },
                _ => None,
            }
        },
        _ => None,
    }
}

/// Builds the alias map of a loop.
pub fn loop_alias_map(body: &Body, lp: &SimpleLoop) -> (m: BTreeMap<usize, usize>)
    requires
        loop_ok(*body, lp.body@),
    ensures
        m@ == alias_map(*body, lp.body@),
{
    let mut m: BTreeMap<usize, usize> = BTreeMap::new();
    aliases_into_loop(body, lp, &mut m);
    // Walk pre-loop blocks too
    aliases_outside_loop(body, lp, &mut m);
    m
}


// ── Range loops ───────────────────────────────────────────────────────

/// The path ends with `::next`.
pub open spec fn ends_with_next(p: Seq<char>) -> bool {
    p.len() >= 6 && p.subrange(p.len() - 6, p.len() as int) == "::next"@
}

/// The bare local an operand copies or moves.
pub open spec fn bare_local(o: Operand) -> Option<usize> {
    match o {
        Operand::Copy(p) => if p.projection@.len() == 0 {
            Some(p.local)
        } else {
            None
        },
        Operand::Move(p) => if p.projection@.len() == 0 {
            Some(p.local)
        } else {
            None
        },
        Operand::Constant(_) => None,
    }
}

/// The statement assigns the discriminant of the bare local `opt` to the
/// bare local `d`.
pub open spec fn assigns_discr(s: StatementKind, d: usize, opt: usize) -> bool {
    match s {
        StatementKind::Assign(place, Rvalue::Discriminant(dp)) => place.projection@.len() == 0
            && place.local == d && dp.local == opt && dp.projection@.len() == 0,
        _ => false,
    }
}

/// Some statement assigns the discriminant of `opt` to `d`.
pub open spec fn discr_assigned(stmts: Seq<StatementKind>, d: usize, opt: usize) -> bool {
    exists|i: int| 0 <= i < stmts.len() && #[trigger] assigns_discr(stmts[i], d, opt)
}

/// The block of the last switch arm for value `v`.
pub open spec fn last_target_for(targets: Seq<(u128, usize)>, v: u128) -> Option<usize>
    decreases targets.len(),
{
    if targets.len() == 0 {
        None
    } else if targets.last().0 == v {
        Some(targets.last().1)
    } else {
        last_target_for(targets.drop_last(), v)
    }
}

/// The block of the last arm for `v` is one of the switch's targets.
pub(crate) proof fn lemma_last_target_in(targets: Seq<(u128, usize)>, v: u128, n: nat)
    requires
        forall|i: int| 0 <= i < targets.len() ==> (#[trigger] targets[i]).1 < n,
    ensures
        last_target_for(targets, v) matches Some(t) ==> t < n,
    decreases targets.len(),
{
    if targets.len() > 0 {
        lemma_last_target_in(targets.drop_last(), v, n);
    }
}

/// The statement extracts the payload of `opt` as `Some`: `l = (opt as
/// Some).0` into a bare local `l`.
pub open spec fn some_extraction(s: StatementKind, opt: usize) -> Option<usize> {
    match s {
        StatementKind::Assign(place, Rvalue::Use(o)) => if place.projection@.len() == 0 {
            match o {
                Operand::Copy(p) => if p.local == opt && p.projection@.len() == 2 && p.projection@[0] is Downcast
                    && p.projection@[1] == ProjectionElem::Field(0) {
                    Some(place.local)
                } else {
                    None
                },
                Operand::Move(p) => if p.local == opt && p.projection@.len() == 2 && p.projection@[0] is Downcast
                    && p.projection@[1] == ProjectionElem::Field(0) {
                    Some(place.local)
                } else {
                    None
                },
                Operand::Constant(_) => None,
            }
        } else {
            None
        },
        _ => None,
    }
}

/// The first payload extraction of `opt` among `stmts`.
pub open spec fn first_extraction(stmts: Seq<StatementKind>, opt: usize) -> Option<usize>
    decreases stmts.len(),
{
    if stmts.len() == 0 {
        None
    } else {
        match some_extraction(stmts[0], opt) {
            Some(l) => Some(l),
            None => first_extraction(stmts.skip(1), opt),
        }
    }
}

/// One copy of `b` for each successor equal to `header`.
pub open spec fn header_hits(succs: Seq<usize>, header: usize, b: usize) -> Seq<usize>
    decreases succs.len(),
{
    if succs.len() == 0 {
        Seq::empty()
    } else {
        header_hits(succs.drop_last(), header, b) + if succs.last() == header {
            seq![b]
        } else {
            Seq::empty()
        }
    }
}

/// The block successors of block `b`.
pub open spec fn block_succs(body: Body, b: int) -> Seq<usize> {
    match term_of(body, b) {
        Some(k) => successors_spec(k),
        None => Seq::empty(),
    }
}

/// The predecessors of `header` among the first `m` blocks that lie outside
/// the loop, with one entry per edge.
pub open spec fn entry_preds(body: Body, header: usize, blocks: Seq<usize>, m: nat) -> Seq<usize>
    decreases m,
{
    if m == 0 {
        Seq::empty()
    } else {
        entry_preds(body, header, blocks, (m - 1) as nat) + if blocks.contains((m - 1) as usize) {
            Seq::empty()
        } else {
            header_hits(block_succs(body, m - 1), header, (m - 1) as usize)
        }
    }
}

/// The shape of a `for` loop over a range: the header calls `*::next` into
/// a bare local with a return block; that block switches on a bare local
/// that it assigns the discriminant of the result; the arms for 0 and 1
/// exist, the latter inside the loop and extracting the induction variable
/// from the result; and exactly one edge enters the header from outside the
/// loop. Gives (entry block, exit block, root of the induction variable).
pub open spec fn range_loop_shape(body: Body, header: usize, blocks: Seq<usize>) -> Option<(usize, usize, usize)> {
    match term_of(body, header as int) {
        Some(TerminatorKind::Call { func, destination, target, .. }) => match target {
            None => None,
            Some(post) => if destination.projection@.len() != 0 {
                None
            } else {
                match callee_path(func) {
                    None => None,
                    Some(path) => if !ends_with_next(path) {
                        None
                    } else {
                        let opt = destination.local;
                        match term_of(body, post as int) {
                            Some(TerminatorKind::SwitchInt { discr, targets, .. }) => match bare_local(discr) {
                                None => None,
                                Some(d) => if !discr_assigned(stmts_of(body, post as int), d, opt) {
                                    None
                                } else {
                                    match (last_target_for(targets@, 0), last_target_for(targets@, 1)) {
                                        (Some(exit), Some(arm)) => if !blocks.contains(arm) {
                                            None
                                        } else {
                                            match first_extraction(stmts_of(body, arm as int), opt) {
                                                None => None,
                                                Some(i) => {
                                                    let preds = entry_preds(body, header, blocks, body.num_blocks());
                                                    if preds.len() == 1 {
                                                        Some((preds[0], exit, alias_walk(alias_map(body, blocks), i, 16)))
                                                    } else {
                                                        None
                                                    }
                                                },
                                            }
                                        },
                                        _ => None,
                                    }
                                },
                            },
                            _ => None,
                        }
                    },
                }
            },
        },
        _ => None,
    }
}

pub(crate) fn ends_with_next_exec(path: &str) -> (r: bool)
    ensures
        r == ends_with_next(path@),
{
    let suffix = "::next";
    proof {
        reveal_strlit("::next");
    }
    let n = path.unicode_len();
    if n < 6 {
        return false;
    }
    let mut j: usize = 0;
    while j < 6
        invariant
            n == path@.len(),
            n >= 6,
            suffix@ == "::next"@,
            suffix@.len() == 6,
            j <= 6,
            forall|t: int| 0 <= t < j ==> path@[n - 6 + t] == suffix@[t],
        decreases 6 - j,
    {
        if path.get_char(n - 6 + j) != suffix.get_char(j) {
            proof {
                assert(path@.subrange(n - 6, n as int)[j as int] != "::next"@[j as int]);
            }
            return false;
        }
        j = j + 1;
    }
    assert(path@.subrange(n - 6, n as int) =~= "::next"@);
    true
}

pub(crate) fn discr_assigned_exec(stmts: &Vec<StatementKind>, d: usize, opt: usize) -> (r: bool)
    ensures
        r == discr_assigned(stmts@, d, opt),
{
    let mut i: usize = 0;
    while i < stmts.len()
        invariant
            i <= stmts@.len(),
            forall|j: int| 0 <= j < i ==> !#[trigger] assigns_discr(stmts@[j], d, opt),
        decreases stmts@.len() - i,
    {
        match &stmts[i] {
            StatementKind::Assign(place, Rvalue::Discriminant(dp)) => {
                if place.projection.len() == 0 && place.local == d && dp.local == opt && dp.projection.len() == 0 {
                    assert(assigns_discr(stmts@[i as int], d, opt));
                    return true;
                }
            },
            _ => {},
        }
        i = i + 1;
    }
    false
}

pub(crate) fn last_target_for_exec(targets: &Vec<(u128, usize)>, v: u128) -> (r: Option<usize>)
    ensures
        r == last_target_for(targets@, v),
{
    let mut i: usize = targets.len();
    assert(targets@.take(i as int) =~= targets@);
    while i > 0
        invariant
            i <= targets@.len(),
            last_target_for(targets@, v) == last_target_for(targets@.take(i as int), v),
        decreases i,
    {
        proof {
            assert(targets@.take(i as int).drop_last() =~= targets@.take(i - 1));
            assert(targets@.take(i as int).last() == targets@[i - 1]);
        }
        i = i - 1;
        if targets[i].0 == v {
            return Some(targets[i].1);
        }
    }
    None
}

fn some_extraction_exec(s: &StatementKind, opt: usize) -> (r: Option<usize>)
    ensures
        r == some_extraction(*s, opt),
{
    match s {
        StatementKind::Assign(place, Rvalue::Use(o)) => {
            if place.projection.len() != 0 {
                return None;
            }
            let src = match o {
                Operand::Copy(p) | Operand::Move(p) => p,
                Operand::Constant(_) => {
                    return None;
                },
            };
            if src.local != opt || src.projection.len() != 2 {
                return None;
            }
            // Projection should be [Downcast(Some), Field(0)].
            let is_downcast_some = match src.projection[0] {
                ProjectionElem::Downcast(_) => true,
                _ => false,
            };
            let is_field0 = src.projection[1] == ProjectionElem::Field(0);
            if is_downcast_some && is_field0 {
                Some(place.local)
            } else {
                None
            }
        },
        _ => None,
    }
}

fn first_extraction_exec(stmts: &Vec<StatementKind>, opt: usize) -> (r: Option<usize>)
    ensures
        r == first_extraction(stmts@, opt),
{
    let mut i: usize = 0;
    assert(stmts@.skip(0) =~= stmts@);
    while i < stmts.len()
        invariant
            i <= stmts@.len(),
            first_extraction(stmts@, opt) == first_extraction(stmts@.skip(i as int), opt),
        decreases stmts@.len() - i,
    {
        proof {
            assert(stmts@.skip(i as int)[0] == stmts@[i as int]);
            assert(stmts@.skip(i as int).skip(1) =~= stmts@.skip(i + 1));
        }
        match some_extraction_exec(&stmts[i], opt) {
            Some(l) => {
                return Some(l);
            },
            None => {},
        }
        i = i + 1;
    }
    None
}

proof fn lemma_header_hits_all(succs: Seq<usize>, header: usize, b: usize)
    ensures
        forall|i: int| 0 <= i < header_hits(succs, header, b).len() ==> #[trigger] header_hits(succs, header, b)[i] == b,
    decreases succs.len(),
{
    if succs.len() > 0 {
        lemma_header_hits_all(succs.drop_last(), header, b);
        let prev = header_hits(succs.drop_last(), header, b);
        let tail: Seq<usize> = if succs.last() == header {
            seq![b]
        } else {
            Seq::empty()
        };
        assert(header_hits(succs, header, b) == prev + tail);
        assert forall|i: int| 0 <= i < (prev + tail).len() implies #[trigger] (prev + tail)[i] == b by {
            if i < prev.len() {
                assert(prev[i] == b);
            }
        }
    }
}

/// The predecessors found among the first `m` blocks are below `m`.
pub(crate) proof fn lemma_entry_preds_bounded(body: Body, header: usize, blocks: Seq<usize>, m: nat)
    requires
        m <= body.basic_blocks.len(),
    ensures
        forall|i: int| 0 <= i < entry_preds(body, header, blocks, m).len() ==> #[trigger] entry_preds(body, header, blocks, m)[i] < m,
    decreases m,
{
    if m > 0 {
        lemma_entry_preds_bounded(body, header, blocks, (m - 1) as nat);
        lemma_header_hits_all(block_succs(body, m - 1), header, (m - 1) as usize);
        let prev = entry_preds(body, header, blocks, (m - 1) as nat);
        let tail: Seq<usize> = if blocks.contains((m - 1) as usize) {
            Seq::empty()
        } else {
            header_hits(block_succs(body, m - 1), header, (m - 1) as usize)
        };
        assert(entry_preds(body, header, blocks, m) == prev + tail);
        assert forall|i: int| 0 <= i < (prev + tail).len() implies #[trigger] (prev + tail)[i] < m by {
            if i < prev.len() {
                assert(prev[i] < m - 1);
            } else {
                assert(tail[i - prev.len()] == (m - 1) as usize);
            }
        }
    }
}

proof fn lemma_entry_preds_grow(body: Body, header: usize, blocks: Seq<usize>, m: nat, n: nat)
    requires
        m <= n,
    ensures
        entry_preds(body, header, blocks, m).len() <= entry_preds(body, header, blocks, n).len(),
    decreases n - m,
{
    if m < n {
        lemma_entry_preds_grow(body, header, blocks, m, (n - 1) as nat);
    }
}

/// The unique predecessor of `header` outside the loop, if there is exactly
/// one edge from outside the loop into it.
pub(crate) fn unique_entry_pred(body: &Body, lp: &SimpleLoop, header: usize) -> (r: Option<usize>)
    requires
        body.all_terminated(),
    ensures
        ({
            let preds = entry_preds(*body, header, lp.body@, body.num_blocks());
            &&& r is Some <==> preds.len() == 1
            &&& r matches Some(e) ==> e == preds[0]
        }),
{
    let mut entry: Option<usize> = None;
    let mut b: usize = 0;
    while b < body.basic_blocks.len()
        invariant
            b <= body.num_blocks(),
            body.all_terminated(),
            ({
                let preds = entry_preds(*body, header, lp.body@, b as nat);
                &&& preds.len() <= 1
                &&& entry is Some <==> preds.len() == 1
                &&& entry matches Some(e) ==> e == preds[0]
            }),
        decreases body.num_blocks() - b,
    {
        let ghost base = entry_preds(*body, header, lp.body@, b as nat);
        if !contains_usize(&lp.body, b) {
            let term = match &body.basic_blocks[b].terminator {
                Some(t) => t,
                None => {
                    return None;
                },
            };
            let succs = terminator_successors(term);
            let mut t: usize = 0;
            while t < succs.len()
                invariant
                    t <= succs@.len(),
                    b < body.num_blocks(),
                    base == entry_preds(*body, header, lp.body@, b as nat),
                    !lp.body@.contains(b),
                    succs@ == block_succs(*body, b as int),
                    ({
                        let preds = base + header_hits(succs@.take(t as int), header, b);
                        &&& preds.len() <= 1
                        &&& entry is Some <==> preds.len() == 1
                        &&& entry matches Some(e) ==> e == preds[0]
                    }),
                decreases succs@.len() - t,
            {
                proof {
                    assert(succs@.take(t + 1).drop_last() =~= succs@.take(t as int));
                }
                if succs[t] == header {
                    if entry.is_some() {
                        proof {
                            let p1 = base + header_hits(succs@.take(t + 1), header, b);
                            assert(p1.len() == 2);
                            assert(header_hits(succs@, header, b).len() >= header_hits(succs@.take(t + 1), header, b).len()) by {
                                lemma_hits_grow(succs@, header, b, (t + 1) as nat);
                            }
                            assert(entry_preds(*body, header, lp.body@, (b + 1) as nat) == base + header_hits(succs@, header, b));
                            lemma_entry_preds_grow(*body, header, lp.body@, (b + 1) as nat, body.num_blocks());
                        }
                        return None;
                    }
                    entry = Some(b);
                }
                t = t + 1;
            }
            proof {
                assert(succs@.take(t as int) =~= succs@);
                assert(entry_preds(*body, header, lp.body@, (b + 1) as nat) == base + header_hits(succs@, header, b));
            }
        } else {
            proof {
                assert(entry_preds(*body, header, lp.body@, (b + 1) as nat) =~= base);
            }
        }
        b = b + 1;
    }
    entry
}

proof fn lemma_hits_grow(succs: Seq<usize>, header: usize, b: usize, k: nat)
    requires
        k <= succs.len(),
    ensures
        header_hits(succs.take(k as int), header, b).len() <= header_hits(succs, header, b).len(),
    decreases succs.len() - k,
{
    if k < succs.len() {
        lemma_hits_grow(succs, header, b, k + 1);
        assert(succs.take(k + 1 as int).drop_last() =~= succs.take(k as int));
    } else {
        assert(succs.take(k as int) =~= succs);
    }
}

/// Common range-loop detector shared by the typed matchers.
pub fn detect_range_loop_shape(body: &Body, lp: &SimpleLoop) -> (r: Option<LoopShape>)
    requires
        body.targets_valid(),
        body.all_terminated(),
        loop_ok(*body, lp.body@),
        lp.header < body.num_blocks(),
    ensures
        match r {
            None => range_loop_shape(*body, lp.header, lp.body@) is None,
            Some(s) => range_loop_shape(*body, lp.header, lp.body@) == Some((s.entry_bb, s.exit_bb, s.i_root))
                && s.alias_root@ == alias_map(*body, lp.body@),
        },
{
    let header = lp.header;
    proof {
        assert(body.basic_blocks@[header as int].terminator is Some);
        assert(terminator_targets_ok(body.basic_blocks@[header as int].terminator->0, body.num_blocks()));
    }
    let (func, destination, target) = match &body.basic_blocks[header].terminator {
        Some(TerminatorKind::Call { func, destination, target, .. }) => (func, destination, target),
        _ => {
            return None;
        },
    };
    let target = match target {
        Some(t) => *t,
        None => {
            return None;
        },
    };
    if destination.projection.len() != 0 {
        return None;
    }
    let opt_local = destination.local;
    let path = match func {
        Operand::Constant(crate::mir::Const::FnDef { path }) => path,
        _ => {
            return None;
        },
    };
    if !ends_with_next_exec(path.as_str()) {
        return None;
    }
    let post_block = &body.basic_blocks[target];
    proof {
        assert(body.basic_blocks@[target as int].terminator is Some);
        assert(terminator_targets_ok(body.basic_blocks@[target as int].terminator->0, body.num_blocks()));
    }
    let (discr, targets) = match &post_block.terminator {
        Some(TerminatorKind::SwitchInt { discr, targets, .. }) => (discr, targets),
        _ => {
            return None;
        },
    };
    let discr_local = match discr {
        Operand::Move(p) | Operand::Copy(p) => {
            if p.projection.len() == 0 {
                p.local
            } else {
                return None;
            }
        },
        _ => {
            return None;
        },
    };
    if !discr_assigned_exec(&post_block.statements, discr_local, opt_local) {
        return None;
    }
    let exit_bb = match last_target_for_exec(targets, 0) {
        Some(t) => t,
        None => {
            return None;
        },
    };
    let some_arm = match last_target_for_exec(targets, 1) {
        Some(t) => t,
        None => {
            return None;
        },
    };
    if !contains_usize(&lp.body, some_arm) {
        return None;
    }
    proof {
        let w = choose|w: int| 0 <= w < lp.body@.len() && lp.body@[w] == some_arm;
        assert(lp.body@[w] < body.num_blocks());
    }
    // Induction var `_i = ((opt as Some).0)`
    let i_local = match first_extraction_exec(&body.basic_blocks[some_arm].statements, opt_local) {
        Some(l) => l,
        None => {
            return None;
        },
    };
    // Build copy-alias map for resolution.
    let alias_root = loop_alias_map(body, lp);
    let i_root = LoopShape::resolve(&alias_root, i_local);
    // Find the unique out-of-loop predecessor of header.
    let entry_bb = match unique_entry_pred(body, lp, header) {
        Some(e) => e,
        None => {
            return None;
        },
    };
    Some(LoopShape { entry_bb, exit_bb, i_root, alias_root })
}

} // verus!
