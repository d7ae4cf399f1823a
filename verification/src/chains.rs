//! Copy chains and constant initialisers: following `a = copy b` back to the
//! local a value came from, and folding the constant a local starts with.
use vstd::prelude::*;
use crate::mir::{Body, BasicBlockData, StatementKind, Operand, Rvalue, UnOp, Const};
use crate::detect::{SimpleLoop, loop_ok, stmts_of};

verus! {

/// The bare local that a right-hand side copies or moves, if it is one.
pub open spec fn bare_copy_source(rv: Rvalue) -> Option<usize> {
    match rv {
        Rvalue::Use(Operand::Copy(p)) => if p.projection@.len() == 0 {
            Some(p.local)
        } else {
            None
        },
        Rvalue::Use(Operand::Move(p)) => if p.projection@.len() == 0 {
            Some(p.local)
        } else {
            None
        },
        _ => None,
    }
}

/// The statement writes the bare local `l`, and with what.
pub open spec fn bare_write_of(s: StatementKind, l: usize) -> Option<Rvalue> {
    match s {
        StatementKind::Assign(place, rv) => if place.projection@.len() == 0 && place.local == l {
            Some(rv)
        } else {
            None
        },
        _ => None,
    }
}

/// The last write to the bare local `current` in `stmts`, if it copies a
/// bare local: that local.
pub open spec fn last_copy_source(stmts: Seq<StatementKind>, current: usize) -> Option<usize>
    decreases stmts.len(),
{
    if stmts.len() == 0 {
        None
    } else {
        match bare_write_of(stmts.last(), current) {
            Some(rv) => bare_copy_source(rv),
            None => last_copy_source(stmts.drop_last(), current),
        }
    }
}

/// Following copies back from `current` through the last writes in
/// `stmts`, at most `fuel` steps, stopping at a local copied from itself.
pub open spec fn chain_walk(stmts: Seq<StatementKind>, current: usize, fuel: nat) -> usize
    decreases fuel,
{
    if fuel == 0 {
        current
    } else {
        match last_copy_source(stmts, current) {
            Some(n) => if n != current {
                chain_walk(stmts, n, (fuel - 1) as nat)
            } else {
                current
            },
            None => current,
        }
    }
}

/// Scanning `stmts` backwards from `current`: each write to the current
/// local must copy another bare local, which becomes current; does the
/// chain reach `target`?
pub open spec fn trace_back(stmts: Seq<StatementKind>, current: usize, target: usize) -> bool
    decreases stmts.len(),
{
    if stmts.len() == 0 {
        current == target
    } else {
        match bare_write_of(stmts.last(), current) {
            Some(rv) => match bare_copy_source(rv) {
                Some(n) => if n == target {
                    true
                } else {
                    trace_back(stmts.drop_last(), n, target)
                },
                None => false,
            },
            None => trace_back(stmts.drop_last(), current, target),
        }
    }
}

/// The first write to `current` in `stmts` that copies a bare local.
pub open spec fn first_copy_write(stmts: Seq<StatementKind>, current: usize) -> Option<usize>
    decreases stmts.len(),
{
    if stmts.len() == 0 {
        None
    } else {
        match bare_write_of(stmts[0], current) {
            Some(rv) => match bare_copy_source(rv) {
                Some(n) => Some(n),
                None => first_copy_write(stmts.skip(1), current),
            },
            None => first_copy_write(stmts.skip(1), current),
        }
    }
}

/// The first copy into `current` among the statements of `blocks`, in order.
pub open spec fn loop_copy_source(body: Body, blocks: Seq<usize>, current: usize) -> Option<usize>
    decreases blocks.len(),
{
    if blocks.len() == 0 {
        None
    } else {
        match first_copy_write(stmts_of(body, blocks[0] as int), current) {
            Some(n) => Some(n),
            None => loop_copy_source(body, blocks.skip(1), current),
        }
    }
}

/// Some statement writes the bare local `l`.
pub open spec fn writes_local(stmts: Seq<StatementKind>, l: usize) -> bool {
    exists|i: int| 0 <= i < stmts.len() && #[trigger] bare_write_of(stmts[i], l) is Some
}

/// Following copies across the loop's blocks, at most `fuel` steps, and
/// stopping at a local that the entry block writes.
pub open spec fn xblock_walk(body: Body, blocks: Seq<usize>, entry: usize, current: usize, fuel: nat) -> usize
    decreases fuel,
{
    if fuel == 0 {
        current
    } else if writes_local(stmts_of(body, entry as int), current) {
        current
    } else {
        match loop_copy_source(body, blocks, current) {
            Some(n) => if n != current {
                xblock_walk(body, blocks, entry, n, (fuel - 1) as nat)
            } else {
                current
            },
            None => current,
        }
    }
}

fn bare_copy_source_of(rv: &Rvalue) -> (r: Option<usize>)
    ensures
        r == bare_copy_source(*rv),
{
    match rv {
        Rvalue::Use(Operand::Copy(p)) | Rvalue::Use(Operand::Move(p)) => {
            if p.projection.len() == 0 {
                Some(p.local)
            } else {
                None
            }
        },
        _ => None,
    }
}

fn last_copy_source_in(stmts: &Vec<StatementKind>, upper: usize, current: usize) -> (r: Option<usize>)
    requires
        upper <= stmts@.len(),
    ensures
        r == last_copy_source(stmts@.take(upper as int), current),
{
    let mut i: usize = upper;
    while i > 0
        invariant
            i <= upper <= stmts@.len(),
            last_copy_source(stmts@.take(upper as int), current) == last_copy_source(stmts@.take(i as int), current),
        decreases i,
    {
        proof {
            assert(stmts@.take(i as int).drop_last() =~= stmts@.take(i - 1));
            assert(stmts@.take(i as int).last() == stmts@[i - 1]);
        }
        i = i - 1;
        match &stmts[i] {
            StatementKind::Assign(place, rvalue) => {
                if place.projection.len() == 0 && place.local == current {
                    return bare_copy_source_of(rvalue);
                }
            },
            _ => {},
        }
    }
    None
}

fn walk_chain(stmts: &Vec<StatementKind>, upper: usize, start: usize) -> (r: usize)
    requires
        upper <= stmts@.len(),
    ensures
        r == chain_walk(stmts@.take(upper as int), start, 17),
{
    let ghost s = stmts@.take(upper as int);
    let mut current = start;
    let mut iter_count: u32 = 0;
    loop
        invariant
            upper <= stmts@.len(),
            s == stmts@.take(upper as int),
            iter_count <= 17,
            chain_walk(s, start, 17) == chain_walk(s, current, (17 - iter_count) as nat),
        decreases 17 - iter_count,
    {
        if iter_count > 16 {
            return current;
        }
        iter_count += 1;
        let next = last_copy_source_in(stmts, upper, current);
        match next {
            Some(n) => {
                if n != current {
                    current = n;
                } else {
                    return current;
                }
            },
            None => {
                return current;
            },
        }
    }
}

/// In-block copy-chain walk to the deepest source local: from `start`,
/// follow the last write of the current local while it copies another
/// bare local, at most 17 steps.
pub fn resolve_local_chain(block: &BasicBlockData, start: usize) -> (r: usize)
    ensures
        r == chain_walk(block.statements@, start, 17),
{
    let r = walk_chain(&block.statements, block.statements.len(), start);
    assert(block.statements@.take(block.statements@.len() as int) =~= block.statements@);
    r
}

/// The same walk over the statements before `before_idx`.
pub fn resolve_local_chain_before(block: &BasicBlockData, start: usize, before_idx: usize) -> (r: usize)
    ensures
        r == chain_walk(
            block.statements@.take(
                if before_idx < block.statements@.len() {
                    before_idx as int
                } else {
                    block.statements@.len() as int
                },
            ),
            start,
            17,
        ),
{
    let upper = if before_idx < block.statements.len() {
        before_idx
    } else {
        block.statements.len()
    };
    walk_chain(&block.statements, upper, start)
}

/// Whether `start` copy-chains from `target` in `block`.
pub fn traces_to_local(block: &BasicBlockData, start: usize, target: usize) -> (r: bool)
    ensures
        r == (start == target || trace_back(block.statements@, start, target)),
{
    let mut current = start;
    if current == target {
        return true;
    }
    let stmts = &block.statements;
    let mut i: usize = stmts.len();
    assert(stmts@.take(i as int) =~= stmts@);
    // Walk the statements backwards
    while i > 0
        invariant
            i <= stmts@.len(),
            stmts@ == block.statements@,
            start != target,
            current != target,
            trace_back(stmts@, start, target) == trace_back(stmts@.take(i as int), current, target),
        decreases i,
    {
        proof {
            assert(stmts@.take(i as int).drop_last() =~= stmts@.take(i - 1));
            assert(stmts@.take(i as int).last() == stmts@[i - 1]);
        }
        let ghost pre = stmts@.take(i as int);
        let ghost cur0 = current;
        i = i - 1;
        match &stmts[i] {
            StatementKind::Assign(place, rvalue) => {
                if place.projection.len() == 0 && place.local == current {
                    assert(bare_write_of(pre.last(), cur0) == Some(*rvalue));
                    match bare_copy_source_of(rvalue) {
                        Some(n) => {
                            current = n;
                            if current == target {
                                return true;
                            }
                        },
                        None => {
                            return false;
                        },
                    }
                }
            },
            _ => {},
        }
    }
    current == target
}

fn first_copy_write_in(stmts: &Vec<StatementKind>, current: usize) -> (r: Option<usize>)
    ensures
        r == first_copy_write(stmts@, current),
{
    let mut i: usize = 0;
    assert(stmts@.skip(0) =~= stmts@);
    while i < stmts.len()
        invariant
            i <= stmts@.len(),
            first_copy_write(stmts@, current) == first_copy_write(stmts@.skip(i as int), current),
        decreases stmts@.len() - i,
    {
        proof {
            assert(stmts@.skip(i as int)[0] == stmts@[i as int]);
            assert(stmts@.skip(i as int).skip(1) =~= stmts@.skip(i + 1));
        }
        match &stmts[i] {
            StatementKind::Assign(place, rvalue) => {
                if place.projection.len() == 0 && place.local == current {
                    match bare_copy_source_of(rvalue) {
                        Some(n) => {
                            return Some(n);
                        },
                        None => {},
                    }
                }
            },
            _ => {},
        }
        i = i + 1;
    }
    None
}

fn loop_copy_source_in(body: &Body, lp: &SimpleLoop, current: usize) -> (r: Option<usize>)
    requires
        loop_ok(*body, lp.body@),
    ensures
        r == loop_copy_source(*body, lp.body@, current),
{
    let mut k: usize = 0;
    assert(lp.body@.skip(0) =~= lp.body@);
    while k < lp.body.len()
        invariant
            k <= lp.body@.len(),
            loop_ok(*body, lp.body@),
            loop_copy_source(*body, lp.body@, current) == loop_copy_source(*body, lp.body@.skip(k as int), current),
        decreases lp.body@.len() - k,
    {
        proof {
            assert(lp.body@.skip(k as int)[0] == lp.body@[k as int]);
            assert(lp.body@.skip(k as int).skip(1) =~= lp.body@.skip(k + 1));
        }
        let bb = lp.body[k];
        match first_copy_write_in(&body.basic_blocks[bb].statements, current) {
            Some(n) => {
                return Some(n);
            },
            None => {},
        }
        k = k + 1;
    }
    None
}

fn writes_local_in(stmts: &Vec<StatementKind>, l: usize) -> (r: bool)
    ensures
        r == writes_local(stmts@, l),
{
    let mut i: usize = 0;
    while i < stmts.len()
        invariant
            i <= stmts@.len(),
            forall|j: int| 0 <= j < i ==> #[trigger] bare_write_of(stmts@[j], l) is None,
        decreases stmts@.len() - i,
    {
        match &stmts[i] {
            StatementKind::Assign(p, _) => {
                if p.projection.len() == 0 && p.local == l {
                    assert(bare_write_of(stmts@[i as int], l) is Some);
                    return true;
                }
            },
            _ => {},
        }
        i = i + 1;
    }
    false
}

/// Cross-block copy-chain walk: from `start`, follow the first copy into the
/// current local among the loop's statements, at most 33 steps, stopping at
/// a local that the entry block assigns.
pub fn resolve_local_chain_xblock_to_acc(body: &Body, lp: &SimpleLoop, entry_bb: usize, start: usize) -> (r: usize)
    requires
        loop_ok(*body, lp.body@),
        entry_bb < body.num_blocks(),
    ensures
        r == xblock_walk(*body, lp.body@, entry_bb, start, 33),
{
    let mut current = start;
    let mut iters: u32 = 0;
    loop
        invariant
            loop_ok(*body, lp.body@),
            entry_bb < body.num_blocks(),
            iters <= 33,
            xblock_walk(*body, lp.body@, entry_bb, start, 33) == xblock_walk(
                *body,
                lp.body@,
                entry_bb,
                current,
                (33 - iters) as nat,
            ),
        decreases 33 - iters,
    {
        if iters > 32 {
            return current;
        }
        iters += 1;
        // Stop at entry_bb init, else chases writeback
        if writes_local_in(&body.basic_blocks[entry_bb].statements, current) {
            return current;
        }
        match loop_copy_source_in(body, lp, current) {
            Some(n) => {
                if n != current {
                    current = n;
                } else {
                    return current;
                }
            },
            None => {
                return current;
            },
        }
    }
}

// ── Constant initialisers ──────────────────────────────────────────────

/// The raw bits of a scalar constant of at most 128 bits.
pub open spec fn const_bits(c: Const) -> Option<u128> {
    match c {
        Const::Scalar { bits, size_bits } => if size_bits <= 128 {
            Some(bits)
        } else {
            None
        },
        _ => None,
    }
}

/// The value of a scalar constant of at most 64 bits that fits in a `u64`.
pub open spec fn const_u64(c: Const) -> Option<u64> {
    match c {
        Const::Scalar { bits, size_bits } => if size_bits <= 64 && bits <= u64::MAX {
            Some(bits as u64)
        } else {
            None
        },
        _ => None,
    }
}

/// Cheap u64 extractor.
pub fn extract_u64_const_loose(c: &Const) -> (r: Option<u64>)
    ensures
        r == const_u64(*c),
{
    match c {
        Const::Scalar { bits, size_bits } => {
            if *size_bits <= 64 && *bits <= u64::MAX as u128 {
                Some(*bits as u64)
            } else {
                None
            }
        },
        _ => None,
    }
}

/// The value of a scalar constant that fits in a `u64`, whatever its width.
pub open spec fn const_u64_value(c: Const) -> Option<u64> {
    match c {
        Const::Scalar { bits, size_bits } => if size_bits <= 128 && bits <= u64::MAX {
            Some(bits as u64)
        } else {
            None
        },
        _ => None,
    }
}

/// The value of an integer constant, if it fits in a `u64`.
pub fn extract_u64_const(c: &Const) -> (r: Option<u64>)
    ensures
        r == const_u64_value(*c),
{
    match c {
        Const::Scalar { bits, size_bits } => {
            if *size_bits <= 128 && *bits <= u64::MAX as u128 {
                Some(*bits as u64)
            } else {
                None
            }
        },
        _ => None,
    }
}

/// Like `extract_u64_const_loose` but with the full 128 bits.
pub fn extract_u128_const_loose(c: &Const) -> (r: Option<u128>)
    ensures
        r == const_bits(*c),
{
    match c {
        Const::Scalar { bits, size_bits } => {
            if *size_bits <= 128 {
                Some(*bits)
            } else {
                None
            }
        },
        _ => None,
    }
}

/// A constant's raw bits.
pub fn eval_const_bits(c: &Const) -> (r: Option<u128>)
    ensures
        r == const_bits(*c),
{
    extract_u128_const_loose(c)
}

/// The mask of the low `width_bits` bits.
pub open spec fn width_mask(width_bits: u32) -> u128 {
    if width_bits >= 128 {
        u128::MAX
    } else {
        ((1u128 << width_bits) - 1) as u128
    }
}

/// What a write folds to: a constant, its bitwise negation, or its two's
/// complement negation, masked to the width.
pub open spec fn folded_init(rv: Rvalue, mask: u128) -> Option<u128> {
    match rv {
        Rvalue::Use(Operand::Constant(c)) => match const_bits(c) {
            Some(v) => Some(v & mask),
            None => None,
        },
        Rvalue::UnaryOp(UnOp::Not, Operand::Constant(c)) => match const_bits(c) {
            Some(v) => Some((!v) & mask),
            None => None,
        },
        Rvalue::UnaryOp(UnOp::Neg, Operand::Constant(c)) => match const_bits(c) {
            Some(v) => Some((!v).wrapping_add(1) & mask),
            None => None,
        },
        _ => None,
    }
}

/// The first foldable write to the bare local `target` in `stmts`.
pub open spec fn init_bits(stmts: Seq<StatementKind>, target: usize, mask: u128) -> Option<u128>
    decreases stmts.len(),
{
    if stmts.len() == 0 {
        None
    } else {
        match bare_write_of(stmts[0], target) {
            Some(rv) => match folded_init(rv, mask) {
                Some(b) => Some(b),
                None => init_bits(stmts.skip(1), target, mask),
            },
            None => init_bits(stmts.skip(1), target, mask),
        }
    }
}

fn mask_of(width_bits: u32) -> (r: u128)
    ensures
        r == width_mask(width_bits),
{
    if width_bits >= 128 {
        u128::MAX
    } else {
        assert((1u128 << width_bits) >= 1) by (bit_vector)
            requires
                width_bits < 128,
        ;
        (1u128 << width_bits) - 1
    }
}

fn fold_init(rv: &Rvalue, mask: u128) -> (r: Option<u128>)
    ensures
        r == folded_init(*rv, mask),
{
    match rv {
        Rvalue::Use(Operand::Constant(c)) => match eval_const_bits(c) {
            Some(v) => Some(v & mask),
            None => None,
        },
        Rvalue::UnaryOp(UnOp::Not, Operand::Constant(c)) => match eval_const_bits(c) {
            Some(v) => Some((!v) & mask),
            None => None,
        },
        Rvalue::UnaryOp(UnOp::Neg, Operand::Constant(c)) => match eval_const_bits(c) {
            Some(v) => Some((!v).wrapping_add(1) & mask),
            None => None,
        },
        _ => None,
    }
}

/// Foldable init bits of `target` in block `bb`: the first write of the bare
/// local that is a constant, or the bitwise or two's complement negation
/// of one, masked to `width_bits`.
pub fn find_init_bits(body: &Body, bb: usize, target: usize, width_bits: u32) -> (r: Option<u128>)
    requires
        bb < body.num_blocks(),
    ensures
        r == init_bits(stmts_of(*body, bb as int), target, width_mask(width_bits)),
{
    let mask = mask_of(width_bits);
    let stmts = &body.basic_blocks[bb].statements;
    let mut i: usize = 0;
    assert(stmts@.skip(0) =~= stmts@);
    while i < stmts.len()
        invariant
            i <= stmts@.len(),
            stmts@ == stmts_of(*body, bb as int),
            mask == width_mask(width_bits),
            init_bits(stmts@, target, mask) == init_bits(stmts@.skip(i as int), target, mask),
        decreases stmts@.len() - i,
    {
        proof {
            assert(stmts@.skip(i as int)[0] == stmts@[i as int]);
            assert(stmts@.skip(i as int).skip(1) =~= stmts@.skip(i + 1));
        }
        match &stmts[i] {
            StatementKind::Assign(place, rvalue) => {
                if place.projection.len() == 0 && place.local == target {
                    match fold_init(rvalue, mask) {
                        Some(bits) => {
                            return Some(bits);
                        },
                        None => {},
                    }
                }
            },
            _ => {},
        }
        i = i + 1;
    }
    None
}

/// Whether `target` starts in block `bb` with the given bits, as masked to
/// `width_bits`.
pub fn is_local_initialised_to_bits(body: &Body, bb: usize, target: usize, expected_bits: u128, width_bits: u32) -> (r: bool)
    requires
        bb < body.num_blocks(),
    ensures
        r == (init_bits(stmts_of(*body, bb as int), target, width_mask(width_bits)) == Some(
            expected_bits & width_mask(width_bits),
        )),
{
    let mask = mask_of(width_bits);
    match find_init_bits(body, bb, target, width_bits) {
        Some(b) => b == (expected_bits & mask),
        None => false,
    }
}

/// Some write of the bare local `target` in `stmts` is the constant zero.
pub open spec fn zero_init(stmts: Seq<StatementKind>, target: usize) -> bool {
    exists|i: int|
        0 <= i < stmts.len() && (#[trigger] bare_write_of(stmts[i], target) matches Some(
            Rvalue::Use(Operand::Constant(c)),
        ) && const_u64(c) == Some(0u64))
}

/// Whether block `bb` assigns the constant zero to the bare local `target`.
pub fn is_local_initialised_to_zero(body: &Body, bb: usize, target: usize) -> (r: bool)
    requires
        bb < body.num_blocks(),
    ensures
        r == zero_init(stmts_of(*body, bb as int), target),
{
    let stmts = &body.basic_blocks[bb].statements;
    let mut i: usize = 0;
    while i < stmts.len()
        invariant
            i <= stmts@.len(),
            stmts@ == stmts_of(*body, bb as int),
            forall|j: int|
                0 <= j < i ==> !(#[trigger] bare_write_of(stmts@[j], target) matches Some(
                    Rvalue::Use(Operand::Constant(c)),
                ) && const_u64(c) == Some(0u64)),
        decreases stmts@.len() - i,
    {
        match &stmts[i] {
            StatementKind::Assign(place, Rvalue::Use(Operand::Constant(c))) => {
                if place.projection.len() == 0 && place.local == target {
                    match extract_u64_const_loose(c) {
                        Some(0) => {
                            assert(bare_write_of(stmts@[i as int], target) matches Some(
                                Rvalue::Use(Operand::Constant(c)),
                            ) && const_u64(c) == Some(0u64));
                            return true;
                        },
                        _ => {},
                    }
                }
            },
            _ => {},
        }
        i = i + 1;
    }
    false
}

} // verus!
