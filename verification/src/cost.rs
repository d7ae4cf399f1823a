//! The weighted cost estimate of a function body: its statements, its calls
//! (with the cost of the callees, a few levels deep), and a factor for
//! loops. It decides whether a call is worth running on another core.
use vstd::prelude::*;
use crate::mir::{Body, StatementKind, TerminatorKind, Operand, Const};
use crate::detect::{stmts_of, term_of, callee_path, successors_spec, terminator_successors};
use crate::text::str_eq;

verus! {

/// `x`, saturated at `usize::MAX`.
pub open spec fn sat(x: int) -> usize {
    if x > usize::MAX {
        usize::MAX
    } else {
        x as usize
    }
}

/// The statements that cost something: all but storage markers and no-ops.
pub open spec fn stmt_weight(s: StatementKind) -> nat {
    match s {
        StatementKind::StorageLive(_) => 0,
        StatementKind::StorageDead(_) => 0,
        StatementKind::Nop => 0,
        _ => 1,
    }
}

/// The summed weight of a list of statements.
pub open spec fn stmts_weight(ss: Seq<StatementKind>) -> nat
    decreases ss.len(),
{
    if ss.len() == 0 {
        0
    } else {
        stmts_weight(ss.drop_last()) + stmt_weight(ss.last())
    }
}

/// Some block jumps back to itself or to an earlier block.
pub open spec fn has_back_edge(b: Body) -> bool {
    exists|i: int, j: int|
        0 <= i < b.num_blocks() && 0 <= j < block_succs_of(b, i).len() && #[trigger] block_succs_of(b, i)[j] <= i
}

/// The block successors of block `i`.
pub open spec fn block_succs_of(b: Body, i: int) -> Seq<usize> {
    match term_of(b, i) {
        Some(k) => successors_spec(k),
        None => Seq::empty(),
    }
}

/// The functions the estimate may look into: each one's printed path and
/// its MIR when the compiler has it.
pub struct FnTable {
    pub entries: Vec<(String, Option<Body>)>,
}

/// The MIR of the first function with path `p`, if the table has it and
/// its MIR is available.
pub open spec fn mir_of(t: Seq<(String, Option<Body>)>, p: Seq<char>) -> Option<Body>
    decreases t.len(),
{
    if t.len() == 0 {
        None
    } else if t[0].0@ == p {
        t[0].1
    } else {
        mir_of(t.skip(1), p)
    }
}

/// The weighted cost of function `did` at `depth` while the functions of
/// `stack` are being estimated: 30 for the body under optimization or a
/// cycle, 50 without MIR, 0 past depth 2; else its blocks' cost, times 8
/// (saturating) when it loops.
pub open spec fn weighted_cost(t: Seq<(String, Option<Body>)>, did: Seq<char>, depth: nat, body_did: Seq<char>, stack: Seq<Seq<char>>) -> usize
    decreases depth, usize::MAX as nat + 1,
{
    if did == body_did {
        30
    } else if stack.contains(did) {
        30
    } else {
        match mir_of(t, did) {
            None => 50,
            Some(b) => if depth > 2 {
                0
            } else {
                let c = blocks_cost(t, b, depth, body_did, stack.push(did), b.basic_blocks.len() as nat);
                if has_back_edge(b) {
                    sat(c * 8)
                } else {
                    c
                }
            },
        }
    }
}

/// The cost of the first `k` blocks of `b`: one per costly statement, ten
/// per call, plus (below depth 0) the callee's own cost, all saturating.
pub open spec fn blocks_cost(t: Seq<(String, Option<Body>)>, b: Body, depth: nat, body_did: Seq<char>, stack: Seq<Seq<char>>, k: nat) -> usize
    decreases depth, k,
{
    if k == 0 {
        0
    } else {
        let c1 = sat(blocks_cost(t, b, depth, body_did, stack, (k - 1) as nat) + stmts_weight(stmts_of(b, k - 1)));
        match term_of(b, k - 1) {
            Some(TerminatorKind::Call { func, .. }) => {
                let c2 = sat(c1 + 10);
                if depth > 0 {
                    match callee_path(func) {
                        Some(p) => sat(c2 + weighted_cost(t, p, (depth - 1) as nat, body_did, stack)),
                        None => c2,
                    }
                } else {
                    c2
                }
            },
            _ => c1,
        }
    }
}

fn sat_add(a: usize, b: usize) -> (r: usize)
    ensures
        r == sat(a + b),
{
    if a > usize::MAX - b {
        usize::MAX
    } else {
        a + b
    }
}

pub(crate) fn in_stack(stack: &Vec<String>, did: &str) -> (r: bool)
    ensures
        r == stack@.map_values(|s: String| s@).contains(did@),
{
    let ghost v = stack@.map_values(|s: String| s@);
    let mut i: usize = 0;
    while i < stack.len()
        invariant
            i <= stack@.len(),
            v == stack@.map_values(|s: String| s@),
            forall|j: int| 0 <= j < i ==> v[j] != did@,
        decreases stack@.len() - i,
    {
        if str_eq(stack[i].as_str(), did) {
            assert(v[i as int] == did@);
            return true;
        }
        i = i + 1;
    }
    false
}

pub(crate) fn lookup_mir<'a>(table: &'a FnTable, did: &str) -> (r: Option<&'a Body>)
    ensures
        match r {
            Some(b) => mir_of(table.entries@, did@) == Some(*b),
            None => mir_of(table.entries@, did@) is None,
        },
{
    let mut i: usize = 0;
    assert(table.entries@.skip(0) =~= table.entries@);
    while i < table.entries.len()
        invariant
            i <= table.entries@.len(),
            mir_of(table.entries@, did@) == mir_of(table.entries@.skip(i as int), did@),
        decreases table.entries@.len() - i,
    {
        proof {
            assert(table.entries@.skip(i as int)[0] == table.entries@[i as int]);
            assert(table.entries@.skip(i as int).skip(1) =~= table.entries@.skip(i + 1));
        }
        if str_eq(table.entries[i].0.as_str(), did) {
            return match &table.entries[i].1 {
                Some(b) => Some(b),
                None => None,
            };
        }
        i = i + 1;
    }
    None
}

fn block_has_back_edge(b: &Body, i: usize) -> (r: bool)
    requires
        i < b.num_blocks(),
    ensures
        r == exists|j: int| 0 <= j < block_succs_of(*b, i as int).len() && #[trigger] block_succs_of(*b, i as int)[j] <= i,
{
    match &b.basic_blocks[i].terminator {
        Some(k) => {
            let succs = terminator_successors(k);
            let mut j: usize = 0;
            while j < succs.len()
                invariant
                    j <= succs@.len(),
                    succs@ == block_succs_of(*b, i as int),
                    forall|u: int| 0 <= u < j ==> succs@[u] > i,
                decreases succs@.len() - j,
            {
                if succs[j] <= i {
                    return true;
                }
                j = j + 1;
            }
            false
        },
        None => false,
    }
}

fn body_has_back_edge(b: &Body) -> (r: bool)
    ensures
        r == has_back_edge(*b),
{
    let mut i: usize = 0;
    while i < b.basic_blocks.len()
        invariant
            i <= b.num_blocks(),
            forall|u: int, j: int|
                0 <= u < i && 0 <= j < block_succs_of(*b, u).len() ==> #[trigger] block_succs_of(*b, u)[j] > u,
        decreases b.num_blocks() - i,
    {
        if block_has_back_edge(b, i) {
            return true;
        }
        i = i + 1;
    }
    false
}

/// The cost of the blocks of `b`.
fn cost_of_blocks(table: &FnTable, b: &Body, depth: u32, body_did: &str, stack: &mut Vec<String>) -> (r: usize)
    requires
        depth <= 2,
    ensures
        r == blocks_cost(
            table.entries@,
            *b,
            depth as nat,
            body_did@,
            old(stack)@.map_values(|s: String| s@),
            b.num_blocks(),
        ),
        final(stack)@ == old(stack)@,
    decreases depth, 0nat,
{
    let ghost st = stack@.map_values(|s: String| s@);
    let mut cost: usize = 0;
    let mut k: usize = 0;
    while k < b.basic_blocks.len()
        invariant
            k <= b.num_blocks(),
            depth <= 2,
            stack@ == old(stack)@,
            st == old(stack)@.map_values(|s: String| s@),
            cost == blocks_cost(table.entries@, *b, depth as nat, body_did@, st, k as nat),
        decreases b.num_blocks() - k,
    {
        let data = &b.basic_blocks[k];
        let base = cost;
        let mut i: usize = 0;
        while i < data.statements.len()
            invariant
                i <= data.statements@.len(),
                cost == sat(base + stmts_weight(data.statements@.take(i as int))),
            decreases data.statements@.len() - i,
        {
            proof {
                assert(data.statements@.take(i + 1).drop_last() =~= data.statements@.take(i as int));
            }
            match &data.statements[i] {
                StatementKind::StorageLive(_) | StatementKind::StorageDead(_) | StatementKind::Nop => {},
                _ => {
                    cost = sat_add(cost, 1);
                },
            }
            i = i + 1;
        }
        proof {
            assert(data.statements@.take(i as int) =~= data.statements@);
        }
        match &data.terminator {
            Some(TerminatorKind::Call { func, .. }) => {
                // Base call overhead + recursive estimate (depth-bounded).
                cost = sat_add(cost, 10);
                if depth > 0 {
                    match func {
                        Operand::Constant(Const::FnDef { path }) => {
                            let c = body_weighted_cost(table, path.as_str(), depth - 1, body_did, stack);
                            cost = sat_add(cost, c);
                        },
                        _ => {},
                    }
                }
            },
            _ => {},
        }
        k = k + 1;
    }
    cost
}

/// Recursive weighted cost of a function body: 30 for the body under
/// optimization and for a function already being estimated (a recursion
/// cycle), 50 when no MIR is available, 0 past depth 2; otherwise one per
/// statement other than storage markers and no-ops, ten per call plus the
/// callee's cost one level deeper while depth is above 0, and eight times
/// that when some block jumps back, all saturating. `stack` holds the
/// functions being estimated; it is restored on return.
pub fn body_weighted_cost(table: &FnTable, did: &str, depth: u32, body_did: &str, stack: &mut Vec<String>) -> (r: usize)
    ensures
        r == weighted_cost(table.entries@, did@, depth as nat, body_did@, old(stack)@.map_values(|s: String| s@)),
        final(stack)@ == old(stack)@,
    decreases depth, 1nat,
{
    if str_eq(did, body_did) {
        return 30;
    }
    if in_stack(stack, did) {
        // Mutual-recursion cycle: bail with a flat estimate.
        return 30;
    }
    let mir = match lookup_mir(table, did) {
        Some(b) => b,
        None => {
            // Cross-crate or unavailable - assume non-trivial
            return 50;
        },
    };
    if depth > 2 {
        // Recursion guard.
        return 0;
    }
    let ghost old_view = stack@.map_values(|s: String| s@);
    stack.push(did.to_string());
    proof {
        assert(stack@.map_values(|s: String| s@) =~= old_view.push(did@));
    }
    let cost = cost_of_blocks(table, mir, depth, body_did, stack);
    stack.pop();
    proof {
        assert(stack@ =~= old(stack)@);
    }
    // loop back-edge: flat count undercounts, weight up
    if body_has_back_edge(mir) {
        // Loop bodies execute many times
        if cost > usize::MAX / 8 {
            usize::MAX
        } else {
            cost * 8
        }
    } else {
        cost
    }
}

} // verus!
