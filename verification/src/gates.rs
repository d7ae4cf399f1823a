//! Cheap gates that the transformations test before matching anything:
//! crates never transformed, bodies that cannot match, callees never
//! parallelised, and the cost balance of parallel calls.
use vstd::prelude::*;
use crate::mir::{Body, TerminatorKind};
use crate::text::{str_eq, starts_with_str, contains_str, starts_with_text, contains_text};

verus! {

/// The crates of the sysroot.
pub open spec fn sysroot_crate(name: Seq<char>) -> bool {
    name == "core"@ || name == "std"@ || name == "alloc"@ || name == "proc_macro"@ || name
        == "panic_unwind"@ || name == "panic_abort"@ || name == "compiler_builtins"@ || name == "test"@
        || name == "unwind"@ || name == "addr2line"@ || name == "object"@ || name == "miniz_oxide"@
        || name == "rustc_demangle"@ || name == "rustc_std_workspace_core"@ || name
        == "rustc_std_workspace_alloc"@ || name == "rustc_std_workspace_std"@ || name == "std_detect"@
        || name == "backtrace"@ || name == "hashbrown"@ || name == "libc"@ || name == "cfg_if"@
}

/// Sysroot gate by crate name.
pub fn is_in_sysroot_crate(crate_name: &str) -> (r: bool)
    ensures
        r == sysroot_crate(crate_name@),
{
    str_eq(crate_name, "core") || str_eq(crate_name, "std") || str_eq(crate_name, "alloc") || str_eq(
        crate_name,
        "proc_macro",
    ) || str_eq(crate_name, "panic_unwind") || str_eq(crate_name, "panic_abort") || str_eq(
        crate_name,
        "compiler_builtins",
    ) || str_eq(crate_name, "test") || str_eq(crate_name, "unwind") || str_eq(crate_name, "addr2line")
        || str_eq(crate_name, "object") || str_eq(crate_name, "miniz_oxide") || str_eq(
        crate_name,
        "rustc_demangle",
    ) || str_eq(crate_name, "rustc_std_workspace_core") || str_eq(crate_name, "rustc_std_workspace_alloc")
        || str_eq(crate_name, "rustc_std_workspace_std") || str_eq(crate_name, "std_detect") || str_eq(
        crate_name,
        "backtrace",
    ) || str_eq(crate_name, "hashbrown") || str_eq(crate_name, "libc") || str_eq(crate_name, "cfg_if")
}

/// Some block's terminator is a call.
pub open spec fn has_call_terminator(body: Body) -> bool {
    exists|i: int| 0 <= i < body.num_blocks() && (#[trigger] body.basic_blocks@[i]).terminator matches Some(
        TerminatorKind::Call { .. },
    )
}

/// Bodies that cannot match: fewer than `min_blocks` blocks, a function
/// marked always-inline or naked, or (when a call is needed) no call
/// terminator.
pub open spec fn quick_skip(body: Body, min_blocks: usize, requires_call_terminator: bool, inline_always_or_naked: bool) -> bool {
    body.num_blocks() < min_blocks || inline_always_or_naked || (requires_call_terminator
        && !has_call_terminator(body))
}

/// Cheap pre-filter, skips bodies that cannot match. `inline_always_or_naked`
/// says whether the body's function is a local function, method, closure or
/// constructor marked `#[inline(always)]` or naked.
pub fn parallel_pass_quick_skip(
    body: &Body,
    min_blocks: usize,
    requires_call_terminator: bool,
    inline_always_or_naked: bool,
) -> (r: bool)
    ensures
        r == quick_skip(*body, min_blocks, requires_call_terminator, inline_always_or_naked),
{
    // Block count check. O(1).
    if body.basic_blocks.len() < min_blocks {
        return true;
    }
    if inline_always_or_naked {
        return true;
    }
    // any Call terminator? walks terminators only
    if requires_call_terminator {
        let mut i: usize = 0;
        while i < body.basic_blocks.len()
            invariant
                i <= body.num_blocks(),
                body.num_blocks() >= min_blocks,
                !inline_always_or_naked,
                requires_call_terminator,
                forall|j: int|
                    0 <= j < i ==> !((#[trigger] body.basic_blocks@[j]).terminator matches Some(
                        TerminatorKind::Call { .. },
                    )),
            decreases body.num_blocks() - i,
        {
            match &body.basic_blocks[i].terminator {
                Some(TerminatorKind::Call { .. }) => {
                    assert(body.basic_blocks@[i as int].terminator matches Some(TerminatorKind::Call { .. }));
                    return false;
                },
                _ => {},
            }
            i = i + 1;
        }
        return true;
    }
    false
}

/// Functions whose names show they are the parallel runtime itself.
pub open spec fn runtime_fn_name(name: Seq<char>, with_invoke: bool) -> bool {
    contains_text(name, "parallel_reduce_"@) || contains_text(name, "parallel_runtime"@) || (with_invoke
        && contains_text(name, "parallel_invoke"@))
}

/// Is the body's function part of the parallel runtime (by its printed
/// name)? The invoke matchers also leave `parallel_invoke` helpers alone.
pub fn is_runtime_fn_name(name: &str, with_invoke: bool) -> (r: bool)
    ensures
        r == runtime_fn_name(name@, with_invoke),
{
    contains_str(name, "parallel_reduce_") || contains_str(name, "parallel_runtime") || (with_invoke
        && contains_str(name, "parallel_invoke"))
}

/// Callees never run in parallel: those of `core` and `std`, cheap integer
/// methods, and (for the chains of three or more) the runtime's own helpers.
pub open spec fn trivial_callee(path: Seq<char>, chain: bool) -> bool {
    starts_with_text(path, "core::"@) || starts_with_text(path, "std::"@) || contains_text(
        path,
        "::wrapping_"@,
    ) || contains_text(path, "::rotate_"@) || contains_text(path, "::min"@) || contains_text(path, "::max"@)
        || (chain && (contains_text(path, "parallel_invoke"@) || contains_text(path, "parallel_reduce"@)))
}

/// Is the callee (by its printed path) one never run in parallel?
pub fn is_trivial_callee(path: &str, chain: bool) -> (r: bool)
    ensures
        r == trivial_callee(path@, chain),
{
    starts_with_str(path, "core::") || starts_with_str(path, "std::") || contains_str(path, "::wrapping_")
        || contains_str(path, "::rotate_") || contains_str(path, "::min") || contains_str(path, "::max")
        || (chain && (contains_str(path, "parallel_invoke") || contains_str(path, "parallel_reduce")))
}

/// Minimum weighted body cost of a callee worth forking (about the
/// 500 ns break-even).
pub const MIN_PARALLEL_INVOKE_BODY_COST: usize = 30;

/// `x * 10`, saturating at `usize::MAX`.
pub open spec fn times_ten_sat(x: usize) -> int {
    if x * 10 > usize::MAX {
        usize::MAX as int
    } else {
        x * 10
    }
}

/// Costs worth forking: each at least the minimum, and the largest at most
/// ten times (saturating) the smallest.
pub open spec fn costs_balanced(costs: Seq<usize>) -> bool {
    &&& forall|i: int| 0 <= i < costs.len() ==> #[trigger] costs[i] >= MIN_PARALLEL_INVOKE_BODY_COST
    &&& forall|i: int, j: int|
        0 <= i < costs.len() && 0 <= j < costs.len() ==> #[trigger] costs[i] <= times_ten_sat(
            #[trigger] costs[j],
        )
}

/// Are the callees' weighted costs worth forking? Each must reach the
/// minimum, and the largest be at most ten times the smallest.
pub fn invoke_costs_ok(costs: &Vec<usize>) -> (r: bool)
    requires
        costs@.len() >= 1,
    ensures
        r == costs_balanced(costs@),
{
    let mut min_c: usize = costs[0];
    let mut max_c: usize = costs[0];
    let mut i: usize = 0;
    while i < costs.len()
        invariant
            1 <= costs@.len(),
            i <= costs@.len(),
            i == 0 ==> min_c == costs@[0] && max_c == costs@[0],
            i > 0 ==> exists|a: int| 0 <= a < i && costs@[a] == min_c,
            i > 0 ==> exists|a: int| 0 <= a < i && costs@[a] == max_c,
            forall|a: int| 0 <= a < i ==> min_c <= #[trigger] costs@[a] <= max_c,
            forall|a: int| 0 <= a < i ==> #[trigger] costs@[a] >= MIN_PARALLEL_INVOKE_BODY_COST,
        decreases costs@.len() - i,
    {
        let c = costs[i];
        if c < MIN_PARALLEL_INVOKE_BODY_COST {
            assert(!(costs@[i as int] >= MIN_PARALLEL_INVOKE_BODY_COST));
            return false;
        }
        if c < min_c || i == 0 {
            min_c = c;
        }
        if c > max_c || i == 0 {
            max_c = c;
        }
        i = i + 1;
    }
    // imbalance reject, 10x ratio gains under 5%
    let bound: usize = if min_c > usize::MAX / 10 {
        usize::MAX
    } else {
        min_c * 10
    };
    proof {
        assert(bound == times_ten_sat(min_c));
        assert forall|a: int, b: int| 0 <= a < costs@.len() && 0 <= b < costs@.len() && max_c <= bound implies #[trigger] costs@[a] <= times_ten_sat(
            #[trigger] costs@[b],
        ) by {
            assert(costs@[b] >= min_c);
            assert(costs@[a] <= max_c);
        }
        if max_c > bound {
            let a = choose|a: int| 0 <= a < i && costs@[a] == max_c;
            let b = choose|b: int| 0 <= b < i && costs@[b] == min_c;
            assert(!(costs@[a] <= times_ten_sat(costs@[b])));
        }
    }
    max_c <= bound
}

} // verus!
