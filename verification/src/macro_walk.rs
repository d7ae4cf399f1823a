//! Whether a function's body reaches, through its calls, into the
//! `proc_macro` or `proc_macro2` crates, whose code cannot run on a
//! parallel worker.
use vstd::prelude::*;
use crate::mir::{Body, TerminatorKind, Operand, Const};
use crate::detect::{term_of, callee_path};
use crate::cost::{FnTable, mir_of, in_stack, lookup_mir};
use crate::text::{starts_with_text, starts_with_str};

verus! {

/// How many calls deep the walk looks.
pub const PROC_MACRO_WALK_DEPTH: u32 = 8;

/// The printed path names an item of the `proc_macro` or `proc_macro2`
/// crate.
pub open spec fn in_proc_macro_crate(p: Seq<char>) -> bool {
    starts_with_text(p, "proc_macro::"@) || starts_with_text(p, "proc_macro2::"@)
}

/// Whether function `did` reaches a proc-macro crate, with `left` levels of
/// calls still to look into (the walk starts with `PROC_MACRO_WALK_DEPTH`),
/// `path` the functions being walked above it and `busy` the functions
/// whose bodies are being inspected: yes for an item of those crates, and,
/// conservatively, once the depth is used up; no for a function already on
/// the path (a cycle) and for one without MIR; yes for a callee whose body
/// is already being inspected; else whether one of its calls reaches one.
pub open spec fn reaches_proc_macro(
    t: Seq<(String, Option<Body>)>,
    did: Seq<char>,
    left: nat,
    path: Seq<Seq<char>>,
    busy: Seq<Seq<char>>,
) -> bool
    decreases left, usize::MAX as nat + 1,
{
    if in_proc_macro_crate(did) {
        true
    } else if left == 0 {
        true
    } else if path.contains(did) {
        false
    } else {
        match mir_of(t, did) {
            None => false,
            Some(b) => if left < PROC_MACRO_WALK_DEPTH && busy.contains(did) {
                true
            } else {
                calls_reach(
                    t,
                    b,
                    left,
                    path.push(did),
                    if left < PROC_MACRO_WALK_DEPTH {
                        busy.push(did)
                    } else {
                        busy
                    },
                    b.basic_blocks.len() as nat,
                )
            },
        }
    }
}

/// Whether one of the calls ending the first `k` blocks of `b`, to a
/// function item, reaches a proc-macro crate one level deeper.
pub open spec fn calls_reach(
    t: Seq<(String, Option<Body>)>,
    b: Body,
    left: nat,
    path: Seq<Seq<char>>,
    busy: Seq<Seq<char>>,
    k: nat,
) -> bool
    decreases left, k,
{
    if k == 0 || left == 0 {
        false
    } else {
        calls_reach(t, b, left, path, busy, (k - 1) as nat) || match term_of(b, k - 1) {
            Some(TerminatorKind::Call { func, .. }) => match callee_path(func) {
                Some(p) => reaches_proc_macro(t, p, (left - 1) as nat, path, busy),
                None => false,
            },
            _ => false,
        }
    }
}

/// The names of a list of strings.
pub open spec fn names(v: Seq<String>) -> Seq<Seq<char>> {
    v.map_values(|s: String| s@)
}

fn in_proc_macro_crate_of(p: &str) -> (r: bool)
    ensures
        r == in_proc_macro_crate(p@),
{
    proof {
        reveal_strlit("proc_macro::");
        reveal_strlit("proc_macro2::");
    }
    starts_with_str(p, "proc_macro::") || starts_with_str(p, "proc_macro2::")
}

fn push_name(v: &mut Vec<String>, s: &str)
    ensures
        names(final(v)@) == names(old(v)@).push(s@),
        final(v)@.len() == old(v)@.len() + 1,
        final(v)@.drop_last() == old(v)@,
{
    v.push(s.to_string());
    proof {
        assert(names(final(v)@) =~= names(old(v)@).push(s@));
        assert(final(v)@.drop_last() =~= old(v)@);
    }
}

fn calls_reach_of(
    table: &FnTable,
    b: &Body,
    left: u32,
    path: &mut Vec<String>,
    busy: &mut Vec<String>,
) -> (r: bool)
    requires
        1 <= left <= PROC_MACRO_WALK_DEPTH,
    ensures
        r == calls_reach(table.entries@, *b, left as nat, names(old(path)@), names(old(busy)@), b.basic_blocks.len() as nat),
        final(path)@ == old(path)@,
        final(busy)@ == old(busy)@,
    decreases left, 0nat,
{
    let ghost p0 = names(path@);
    let ghost q0 = names(busy@);
    let mut found = false;
    let mut k: usize = 0;
    while k < b.basic_blocks.len()
        invariant
            k <= b.basic_blocks@.len(),
            1 <= left <= PROC_MACRO_WALK_DEPTH,
            path@ == old(path)@,
            busy@ == old(busy)@,
            p0 == names(old(path)@),
            q0 == names(old(busy)@),
            found == calls_reach(table.entries@, *b, left as nat, p0, q0, k as nat),
        decreases b.basic_blocks@.len() - k,
    {
        if !found {
            match &b.basic_blocks[k].terminator {
                Some(TerminatorKind::Call { func: Operand::Constant(Const::FnDef { path: callee }), .. }) => {
                    found = walk(table, callee.as_str(), left - 1, path, busy);
                },
                _ => {},
            }
        }
        k = k + 1;
    }
    found
}

fn walk(table: &FnTable, did: &str, left: u32, path: &mut Vec<String>, busy: &mut Vec<String>) -> (r: bool)
    requires
        left <= PROC_MACRO_WALK_DEPTH,
    ensures
        r == reaches_proc_macro(table.entries@, did@, left as nat, names(old(path)@), names(old(busy)@)),
        final(path)@ == old(path)@,
        final(busy)@ == old(busy)@,
    decreases left, 1nat,
{
    if in_proc_macro_crate_of(did) {
        return true;
    }
    if left == 0 {
        return true;
    }
    if in_stack(path, did) {
        return false;
    }
    let mir = match lookup_mir(table, did) {
        Some(b) => b,
        None => {
            return false;
        },
    };
    let nested = left < PROC_MACRO_WALK_DEPTH;
    if nested && in_stack(busy, did) {
        return true;
    }
    let ghost p0 = path@;
    let ghost b0 = busy@;
    push_name(path, did);
    if nested {
        push_name(busy, did);
    }
    let ghost p1 = path@;
    let ghost b1 = busy@;
    let r = calls_reach_of(table, mir, left, path, busy);
    assert(path@ == p1 && busy@ == b1);
    path.pop();
    if nested {
        busy.pop();
    }
    assert(path@ == p1.drop_last());
    proof {
        assert(path@ =~= old(path)@);
        assert(busy@ =~= old(busy)@);
    }
    r
}

/// Whether function `did`'s body reaches, through calls at most
/// `PROC_MACRO_WALK_DEPTH` deep, an item of the `proc_macro` or
/// `proc_macro2` crate (see `reaches_proc_macro`); `in_progress` holds the
/// functions whose bodies are being inspected.
pub fn body_calls_proc_macro(table: &FnTable, did: &str, in_progress: &Vec<String>) -> (r: bool)
    ensures
        r == reaches_proc_macro(table.entries@, did@, PROC_MACRO_WALK_DEPTH as nat, Seq::empty(), names(in_progress@)),
{
    let mut path: Vec<String> = Vec::new();
    let mut busy: Vec<String> = Vec::new();
    let mut i: usize = 0;
    while i < in_progress.len()
        invariant
            i <= in_progress@.len(),
            names(busy@) == names(in_progress@.take(i as int)),
        decreases in_progress@.len() - i,
    {
        push_name(&mut busy, in_progress[i].as_str());
        proof {
            assert(names(in_progress@.take(i + 1)) =~= names(in_progress@.take(i as int)).push(in_progress@[i as int]@));
        }
        i = i + 1;
    }
    proof {
        assert(in_progress@.take(i as int) =~= in_progress@);
        assert(names(path@) =~= Seq::<Seq<char>>::empty());
    }
    walk(table, did, PROC_MACRO_WALK_DEPTH, &mut path, &mut busy)
}

} // verus!
