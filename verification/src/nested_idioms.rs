//! Two nested range loops replaced by one call of a parallel runtime
//! helper: a matrix-vector product, a row broadcast add, a sum along an
//! axis, a transpose and a one-dimensional convolution. For each outer
//! loop the first inner loop that makes the pair match is taken; the pairs
//! are found first and then replaced in order, each by a block that borrows
//! the output slice and calls the helper, entered from the outer loop's
//! entry block.
use vstd::prelude::*;
use crate::mir::{Body, Operand};
use crate::detect::{SimpleLoop, find_simple_loops, loops_spec, block_range, loop_ok, lemma_loops_in_range, contains_usize};
use crate::shape::{alias_map, lemma_entry_preds_bounded};
use crate::loop_call::{
    TempInit, CallArg, LoopCall, LoopCallView, loop_header, loop_call_applied, apply_loop_call,
    lemma_loop_call_keeps_targets,
};
use crate::loop_idioms::{LoopIdiomGates, dst_borrow, temps_ok, idiom_count, lemma_shape_entry};
use crate::matvec::{matvec_plan, conv1d_plan, resolved_as, analyze_matvec_loops, analyze_conv1d_loops};
use crate::grid_loops::{
    broadcast_plan, axis_reduce_plan, transpose_plan, analyze_broadcast_loops, analyze_axis_reduce_loops,
    analyze_transpose_loops,
};
use crate::iter_methods::{helper_listed, helper_available, copy_operand};
use crate::gates::{sysroot_crate, quick_skip, is_in_sysroot_crate, parallel_pass_quick_skip};
use crate::text::{contains_text, contains_str};

verus! {

/// The idioms of two nested range loops.
#[derive(Clone, Copy, PartialEq, Eq, Debug, Structural)]
pub enum NestedIdiom {
    /// `y[i] = sum over j of a[i * n + j] * x[j]`.
    Matvec,
    /// `a[i * n + j] += b[j]`.
    BroadcastAdd,
    /// `out[j] += a[i * n + j]`.
    AxisReduceSum,
    /// `b[j * m + i] = a[i * n + j]`.
    Transpose,
    /// `y[i] = sum over k of x[i + k] * w[k]`.
    Conv1d,
}

/// The helper of a nested idiom.
pub open spec fn nested_helper(k: NestedIdiom) -> Seq<char> {
    match k {
        NestedIdiom::Matvec => "parallel_runtime_parallel_matvec_f64"@,
        NestedIdiom::BroadcastAdd => "parallel_runtime_parallel_broadcast_add_f64"@,
        NestedIdiom::AxisReduceSum => "parallel_runtime_parallel_axis_reduce_sum_f64"@,
        NestedIdiom::Transpose => "parallel_runtime_parallel_transpose_f64"@,
        NestedIdiom::Conv1d => "parallel_runtime_parallel_conv1d_f64"@,
    }
}

fn nested_helper_of(k: NestedIdiom) -> (r: &'static str)
    ensures
        r@ == nested_helper(k),
{
    match k {
        NestedIdiom::Matvec => "parallel_runtime_parallel_matvec_f64",
        NestedIdiom::BroadcastAdd => "parallel_runtime_parallel_broadcast_add_f64",
        NestedIdiom::AxisReduceSum => "parallel_runtime_parallel_axis_reduce_sum_f64",
        NestedIdiom::Transpose => "parallel_runtime_parallel_transpose_f64",
        NestedIdiom::Conv1d => "parallel_runtime_parallel_conv1d_f64",
    }
}

/// The pair (outer, inner) matches idiom `k`.
pub open spec fn nested_matches(k: NestedIdiom, body: Body, outer: SimpleLoop, inner: SimpleLoop) -> bool {
    match k {
        NestedIdiom::Matvec => matvec_plan(body, outer, inner) is Some,
        NestedIdiom::BroadcastAdd => broadcast_plan(body, outer, inner) is Some,
        NestedIdiom::AxisReduceSum => axis_reduce_plan(body, outer, inner) is Some,
        NestedIdiom::Transpose => transpose_plan(body, outer, inner) is Some,
        NestedIdiom::Conv1d => conv1d_plan(body, outer, inner) is Some,
    }
}

/// Argument `a` hands over the plan's operand `o`, its locals resolved
/// through the outer loop's aliases.
pub open spec fn op_arg(a: CallArg, o: Operand, m: Map<usize, usize>) -> bool {
    a matches CallArg::Op(r) && resolved_as(r, o, m)
}

/// The call of a two-dimensional helper: the re-borrowed `primary`, a copy
/// of `other`, then the two range ends.
pub open spec fn dims_call_ok(
    c: LoopCallView,
    k: NestedIdiom,
    entry: usize,
    exit: usize,
    primary: usize,
    other: usize,
    m_op: Operand,
    n_op: Operand,
    om: Map<usize, usize>,
) -> bool {
    &&& c.0 == entry
    &&& c.1 == exit
    &&& c.2 == nested_helper(k)
    &&& c.3 == dst_borrow(primary)
    &&& c.4.len() == 4
    &&& c.4[0] == CallArg::Temp(0)
    &&& c.4[1] == CallArg::Copy(other)
    &&& op_arg(c.4[2], m_op, om)
    &&& op_arg(c.4[3], n_op, om)
}

/// The replacement `c` is the one idiom `k` asks for the pair (outer,
/// inner).
pub open spec fn nested_call_ok(k: NestedIdiom, body: Body, outer: SimpleLoop, inner: SimpleLoop, c: LoopCallView) -> bool {
    let om = alias_map(body, outer.body@);
    match k {
        NestedIdiom::Matvec => matvec_plan(body, outer, inner) matches Some(v) && {
            &&& c.0 == v.0
            &&& c.1 == v.1
            &&& c.2 == nested_helper(k)
            &&& c.3 == dst_borrow(v.2)
            &&& c.4.len() == 5
            &&& c.4[0] == CallArg::Temp(0)
            &&& c.4[1] == CallArg::Copy(v.3)
            &&& c.4[2] == CallArg::Copy(v.4)
            &&& op_arg(c.4[3], v.5, om)
            &&& op_arg(c.4[4], v.6, om)
        },
        NestedIdiom::BroadcastAdd => broadcast_plan(body, outer, inner) matches Some(v) && dims_call_ok(
            c,
            k,
            v.0,
            v.1,
            v.2,
            v.3,
            v.4,
            v.5,
            om,
        ),
        NestedIdiom::AxisReduceSum => axis_reduce_plan(body, outer, inner) matches Some(v) && dims_call_ok(
            c,
            k,
            v.0,
            v.1,
            v.2,
            v.3,
            v.4,
            v.5,
            om,
        ),
        NestedIdiom::Transpose => transpose_plan(body, outer, inner) matches Some(v) && dims_call_ok(
            c,
            k,
            v.0,
            v.1,
            v.2,
            v.3,
            v.4,
            v.5,
            om,
        ),
        NestedIdiom::Conv1d => conv1d_plan(body, outer, inner) matches Some(v) && {
            &&& c.0 == v.0
            &&& c.1 == v.1
            &&& c.2 == nested_helper(k)
            &&& c.3 == seq![TempInit::Reborrow { of: v.2, mutable: true }, TempInit::Len(v.3)]
            &&& c.4.len() == 5
            &&& c.4[0] == CallArg::Temp(0)
            &&& c.4[1] == CallArg::Copy(v.3)
            &&& c.4[2] == CallArg::Copy(v.4)
            &&& c.4[3] == CallArg::Temp(1)
            &&& op_arg(c.4[4], v.5, om)
        },
    }
}

/// Inner loop `j` may pair with outer loop `i`: another loop, with another
/// header, that lies in the outer loop's blocks, and the pair matches.
pub open spec fn pairs_with(k: NestedIdiom, body: Body, loops: Seq<SimpleLoop>, i: int, j: int) -> bool {
    &&& i != j
    &&& loops[i].header != loops[j].header
    &&& loops[i].body@.contains(loops[j].header)
    &&& nested_matches(k, body, loops[i], loops[j])
}

/// The first inner loop from `j` on that pairs with outer loop `i`.
pub open spec fn first_inner(k: NestedIdiom, body: Body, loops: Seq<SimpleLoop>, i: int, j: int) -> Option<int>
    decreases loops.len() - j,
{
    if j < 0 || j >= loops.len() {
        None
    } else if pairs_with(k, body, loops, i, j) {
        Some(j)
    } else {
        first_inner(k, body, loops, i, j + 1)
    }
}

/// The matched pairs (outer index, inner index) among the first `n` outer
/// loops, in order of the outer loops.
pub open spec fn nested_pairs(k: NestedIdiom, body: Body, loops: Seq<SimpleLoop>, n: nat) -> Seq<(int, int)>
    decreases n,
{
    if n == 0 {
        Seq::empty()
    } else {
        let prev = nested_pairs(k, body, loops, (n - 1) as nat);
        match first_inner(k, body, loops, n - 1, 0) {
            Some(j) => prev.push((n - 1, j)),
            None => prev,
        }
    }
}

/// `loops` are the body's loops (see `loops_spec`).
pub open spec fn loops_of(loops: Seq<SimpleLoop>, body: Body) -> bool {
    let ls = loops_spec(body);
    &&& loops.len() == ls.len()
    &&& forall|j: int|
        0 <= j < loops.len() ==> (#[trigger] loops[j]).header == ls[j].0 && loops[j].body@ == block_range(
            ls[j].0,
            ls[j].1,
        )
}

/// `cs` are the replacements of the matched pairs of `loops`, in order.
pub open spec fn nested_calls_ok(k: NestedIdiom, body: Body, loops: Seq<SimpleLoop>, cs: Seq<LoopCallView>) -> bool {
    let ps = nested_pairs(k, body, loops, loops.len());
    &&& cs.len() == ps.len()
    &&& forall|t: int| 0 <= t < cs.len() ==> #[trigger] nested_call_ok(k, body, loops[ps[t].0], loops[ps[t].1], cs[t])
}

/// One replacement, from `b0` to `b1`: applied when the runtime has its
/// helper, nothing otherwise.
pub open spec fn nested_step(b0: Body, b1: Body, c: LoopCallView, available: Seq<String>) -> bool {
    if helper_listed(available, c.2) {
        loop_call_applied(b0, b1, c)
    } else {
        b1 == b0
    }
}

/// `b1` is `b0` with the replacements `cs` applied in order, `n` of them
/// taking place (see `idiom_count`).
pub open spec fn nested_applied(b0: Body, b1: Body, cs: Seq<LoopCallView>, available: Seq<String>, n: nat) -> bool {
    exists|bodies: Seq<Body>|
        {
            &&& bodies.len() == cs.len() + 1
            &&& bodies[0] == b0
            &&& bodies.last() == b1
            &&& forall|j: int| 0 <= j < cs.len() ==> #[trigger] nested_step(bodies[j], bodies[j + 1], cs[j], available)
            &&& n == idiom_count(bodies, cs, available, cs.len())
        }
}

/// The outcome of a nested idiom rewrite: with the body's loops `loops`,
/// `cs` are the replacements of the matched pairs and `b1` is `b0` with them
/// applied, `n` taking place.
pub open spec fn nested_outcome(
    k: NestedIdiom,
    b0: Body,
    b1: Body,
    loops: Seq<SimpleLoop>,
    cs: Seq<LoopCallView>,
    available: Seq<String>,
    n: nat,
) -> bool {
    &&& loops_of(loops, b0)
    &&& nested_calls_ok(k, b0, loops, cs)
    &&& nested_applied(b0, b1, cs, available, n)
}

fn op_call_arg(o: &Operand) -> (r: CallArg)
    ensures
        r matches CallArg::Op(x) && crate::iter_methods::same_operand(x, *o),
{
    CallArg::Op(copy_operand(o))
}

proof fn lemma_resolved_copy(x: Operand, r: Operand, o: Operand, m: Map<usize, usize>)
    requires
        resolved_as(r, o, m),
        crate::iter_methods::same_operand(x, r),
    ensures
        resolved_as(x, o, m),
{
}

/// The replacement idiom `k` asks for the pair (outer, inner), if it
/// matches.
fn nested_call_of(k: NestedIdiom, body: &Body, outer: &SimpleLoop, inner: &SimpleLoop) -> (r: Option<LoopCall>)
    requires
        body.targets_valid(),
        body.all_terminated(),
        loop_ok(*body, outer.body@),
        loop_ok(*body, inner.body@),
        outer.header < body.num_blocks(),
        inner.header < body.num_blocks(),
    ensures
        r is Some <==> nested_matches(k, *body, *outer, *inner),
        r matches Some(c) ==> nested_call_ok(k, *body, *outer, *inner, c.view_tuple()) && c.entry_bb
            < body.num_blocks() && c.exit_bb < body.num_blocks() && temps_ok(c.view_tuple()),
{
    proof {
        lemma_shape_entry(*body, outer.header, outer.body@);
        lemma_entry_preds_bounded(*body, outer.header, outer.body@, body.num_blocks());
    }
    let ghost om = alias_map(*body, outer.body@);
    let helper = nested_helper_of(k);
    match k {
        NestedIdiom::Matvec => match analyze_matvec_loops(body, outer, inner) {
            None => None,
            Some(p) => {
                let mut c = crate::loop_idioms::borrow_call(p.outer_entry_bb, p.outer_exit_bb, helper, p.y_local, vec![p.a_local, p.x_local]);
                let a3 = op_call_arg(&p.m_op);
                let a4 = op_call_arg(&p.n_op);
                proof {
                    let v = matvec_plan(*body, *outer, *inner)->0;
                    lemma_resolved_copy(a3->Op_0, p.m_op, v.5, om);
                    lemma_resolved_copy(a4->Op_0, p.n_op, v.6, om);
                }
                c.args.push(a3);
                c.args.push(a4);
                Some(c)
            },
        },
        NestedIdiom::BroadcastAdd => match analyze_broadcast_loops(body, outer, inner) {
            None => None,
            Some(p) => {
                let mut c = crate::loop_idioms::borrow_call(p.outer_entry_bb, p.outer_exit_bb, helper, p.a_local, vec![p.b_local]);
                let a2 = op_call_arg(&p.m_op);
                let a3 = op_call_arg(&p.n_op);
                proof {
                    let v = broadcast_plan(*body, *outer, *inner)->0;
                    lemma_resolved_copy(a2->Op_0, p.m_op, v.4, om);
                    lemma_resolved_copy(a3->Op_0, p.n_op, v.5, om);
                }
                c.args.push(a2);
                c.args.push(a3);
                Some(c)
            },
        },
        NestedIdiom::AxisReduceSum => match analyze_axis_reduce_loops(body, outer, inner) {
            None => None,
            Some(p) => {
                let mut c = crate::loop_idioms::borrow_call(p.outer_entry_bb, p.outer_exit_bb, helper, p.out_local, vec![p.a_local]);
                let a2 = op_call_arg(&p.m_op);
                let a3 = op_call_arg(&p.n_op);
                proof {
                    let v = axis_reduce_plan(*body, *outer, *inner)->0;
                    lemma_resolved_copy(a2->Op_0, p.m_op, v.4, om);
                    lemma_resolved_copy(a3->Op_0, p.n_op, v.5, om);
                }
                c.args.push(a2);
                c.args.push(a3);
                Some(c)
            },
        },
        NestedIdiom::Transpose => match analyze_transpose_loops(body, outer, inner) {
            None => None,
            Some(p) => {
                let mut c = crate::loop_idioms::borrow_call(p.outer_entry_bb, p.outer_exit_bb, helper, p.b_local, vec![p.a_local]);
                let a2 = op_call_arg(&p.m_op);
                let a3 = op_call_arg(&p.n_op);
                proof {
                    let v = transpose_plan(*body, *outer, *inner)->0;
                    lemma_resolved_copy(a2->Op_0, p.m_op, v.4, om);
                    lemma_resolved_copy(a3->Op_0, p.n_op, v.5, om);
                }
                c.args.push(a2);
                c.args.push(a3);
                Some(c)
            },
        },
        NestedIdiom::Conv1d => match analyze_conv1d_loops(body, outer, inner) {
            None => None,
            Some(p) => {
                let mut c = crate::loop_idioms::borrow_call(p.outer_entry_bb, p.outer_exit_bb, helper, p.y_local, vec![p.x_local, p.w_local]);
                c.temps.push(TempInit::Len(p.x_local));
                c.args.push(CallArg::Temp(1));
                let a4 = op_call_arg(&p.ks_op);
                proof {
                    let v = conv1d_plan(*body, *outer, *inner)->0;
                    lemma_resolved_copy(a4->Op_0, p.ks_op, v.5, om);
                }
                c.args.push(a4);
                proof {
                    assert(c.temps@ =~= seq![TempInit::Reborrow { of: p.y_local, mutable: true }, TempInit::Len(p.x_local)]);
                }
                Some(c)
            },
        },
    }
}

/// The replacement for outer loop `i` with the first inner loop that pairs
/// with it.
fn find_inner(k: NestedIdiom, body: &Body, loops: &Vec<SimpleLoop>, i: usize) -> (r: Option<LoopCall>)
    requires
        body.targets_valid(),
        body.all_terminated(),
        i < loops@.len(),
        forall|j: int| 0 <= j < loops@.len() ==> loop_ok(*body, (#[trigger] loops@[j]).body@) && loops@[j].header < body.num_blocks(),
    ensures
        match r {
            None => first_inner(k, *body, loops@, i as int, 0) is None,
            Some(c) => first_inner(k, *body, loops@, i as int, 0) matches Some(j) && nested_call_ok(
                k,
                *body,
                loops@[i as int],
                loops@[j],
                c.view_tuple(),
            ) && c.entry_bb < body.num_blocks() && c.exit_bb < body.num_blocks() && temps_ok(c.view_tuple()),
        },
{
    let mut j: usize = 0;
    while j < loops.len()
        invariant
            j <= loops@.len(),
            i < loops@.len(),
            body.targets_valid(),
            body.all_terminated(),
            forall|q: int| 0 <= q < loops@.len() ==> loop_ok(*body, (#[trigger] loops@[q]).body@) && loops@[q].header < body.num_blocks(),
            first_inner(k, *body, loops@, i as int, 0) == first_inner(k, *body, loops@, i as int, j as int),
        decreases loops@.len() - j,
    {
        let outer = &loops[i];
        let inner = &loops[j];
        if i != j && outer.header != inner.header && contains_usize(&outer.body, inner.header) {
            match nested_call_of(k, body, outer, inner) {
                Some(c) => {
                    return Some(c);
                },
                None => {},
            }
        }
        j = j + 1;
    }
    None
}

/// Names of the runtime's own functions that idiom `k` leaves alone.
pub open spec fn nested_excluded_name(k: NestedIdiom, n: Seq<char>) -> bool {
    let c = |w: Seq<char>| contains_text(n, w);
    ||| c("parallel_runtime"@)
    ||| c("parallel_invoke"@)
    ||| match k {
        NestedIdiom::Matvec => c("parallel_matvec"@) || c("parallel_axpy"@) || c("parallel_apply_"@),
        NestedIdiom::BroadcastAdd => c("parallel_broadcast"@) || c("parallel_matvec"@),
        NestedIdiom::AxisReduceSum => c("parallel_axis_reduce"@) || c("parallel_matvec"@),
        NestedIdiom::Transpose => c("parallel_transpose"@) || c("parallel_matvec"@),
        NestedIdiom::Conv1d => c("parallel_conv1d"@) || c("parallel_matvec"@),
    }
}

fn nested_excluded_name_exec(k: NestedIdiom, n: &str) -> (r: bool)
    ensures
        r == nested_excluded_name(k, n@),
{
    let base = contains_str(n, "parallel_runtime") || contains_str(n, "parallel_invoke");
    let more = match k {
        NestedIdiom::Matvec => contains_str(n, "parallel_matvec") || contains_str(n, "parallel_axpy") || contains_str(
            n,
            "parallel_apply_",
        ),
        NestedIdiom::BroadcastAdd => contains_str(n, "parallel_broadcast") || contains_str(n, "parallel_matvec"),
        NestedIdiom::AxisReduceSum => contains_str(n, "parallel_axis_reduce") || contains_str(n, "parallel_matvec"),
        NestedIdiom::Transpose => contains_str(n, "parallel_transpose") || contains_str(n, "parallel_matvec"),
        NestedIdiom::Conv1d => contains_str(n, "parallel_conv1d") || contains_str(n, "parallel_matvec"),
    };
    base || more
}

/// Bodies that idiom `k` leaves alone: transforms off, a sysroot crate, the
/// runtime's own functions, no opt-in to reassociated float sums, fewer
/// than six blocks or no call, or a runtime without the idiom's helper.
pub open spec fn nested_gate_refuses(k: NestedIdiom, body: Body, g: LoopIdiomGates) -> bool {
    ||| !g.enabled
    ||| sysroot_crate(g.crate_name@)
    ||| nested_excluded_name(k, g.fn_name@)
    ||| !g.float_opt_in
    ||| quick_skip(body, 6, true, g.inline_always_or_naked)
    ||| !helper_listed(g.available_helpers@, nested_helper(k))
}

/// Replaces the nested loop pairs of a body that match idiom `k` (see
/// `nested_outcome`), each by one call of the idiom's helper, and returns
/// how many were replaced.
pub fn try_transform_nested_idiom(body: &mut Body, k: NestedIdiom, gates: &LoopIdiomGates) -> (n: usize)
    requires
        old(body).targets_valid(),
        old(body).all_terminated(),
    ensures
        nested_gate_refuses(k, *old(body), *gates) ==> n == 0 && *final(body) == *old(body),
        !nested_gate_refuses(k, *old(body), *gates) ==> exists|loops: Seq<SimpleLoop>, cs: Seq<LoopCallView>|
            #[trigger] nested_outcome(k, *old(body), *final(body), loops, cs, gates.available_helpers@, n as nat),
        final(body).targets_valid(),
        final(body).all_terminated(),
{
    if !gates.enabled || is_in_sysroot_crate(gates.crate_name.as_str()) || nested_excluded_name_exec(
        k,
        gates.fn_name.as_str(),
    ) || !gates.float_opt_in || parallel_pass_quick_skip(body, 6, true, gates.inline_always_or_naked)
        || !helper_available(&gates.available_helpers, nested_helper_of(k)) {
        return 0;
    }
    let ghost src = *body;
    let ghost ls = loops_spec(src);
    let loops = find_simple_loops(body);
    proof {
        lemma_loops_in_range(src);
        assert forall|j: int| 0 <= j < loops@.len() implies loop_ok(src, (#[trigger] loops@[j]).body@)
            && loops@[j].header < src.num_blocks() by {
            assert(ls[j].0 < ls[j].1 < src.num_blocks());
        }
        assert(loops_of(loops@, src));
    }
    let mut calls: Vec<LoopCall> = Vec::new();
    let mut i: usize = 0;
    while i < loops.len()
        invariant
            *body == src,
            src.targets_valid(),
            src.all_terminated(),
            i <= loops@.len(),
            forall|j: int| 0 <= j < loops@.len() ==> loop_ok(src, (#[trigger] loops@[j]).body@) && loops@[j].header < src.num_blocks(),
            calls@.len() == nested_pairs(k, src, loops@, i as nat).len(),
            forall|t: int|
                0 <= t < calls@.len() ==> nested_call_ok(
                    k,
                    src,
                    loops@[nested_pairs(k, src, loops@, i as nat)[t].0],
                    loops@[nested_pairs(k, src, loops@, i as nat)[t].1],
                    (#[trigger] calls@[t]).view_tuple(),
                ) && calls@[t].entry_bb < src.num_blocks() && calls@[t].exit_bb < src.num_blocks() && temps_ok(
                    calls@[t].view_tuple(),
                ),
        decreases loops@.len() - i,
    {
        let ghost prev = calls@;
        match find_inner(k, body, &loops, i) {
            Some(c) => {
                calls.push(c);
            },
            None => {},
        }
        proof {
            let ps1 = nested_pairs(k, src, loops@, (i + 1) as nat);
            let ps0 = nested_pairs(k, src, loops@, i as nat);
            assert forall|t: int| 0 <= t < calls@.len() implies nested_call_ok(
                k,
                src,
                loops@[ps1[t].0],
                loops@[ps1[t].1],
                (#[trigger] calls@[t]).view_tuple(),
            ) && calls@[t].entry_bb < src.num_blocks() && calls@[t].exit_bb < src.num_blocks() && temps_ok(
                calls@[t].view_tuple(),
            ) by {
                if t < prev.len() {
                    assert(calls@[t] == prev[t]);
                    assert(ps1[t] == ps0[t]);
                }
            }
        }
        i = i + 1;
    }
    let ghost all = calls@;
    let ghost cs = all.map_values(|c: LoopCall| c.view_tuple());
    proof {
        assert(nested_calls_ok(k, src, loops@, cs));
    }
    let ghost mut bodies: Seq<Body> = seq![src];
    let ghost mut q: int = 0;
    let mut count: usize = 0;
    assert(calls@.len() == calls.len());
    while calls.len() > 0
        invariant
            0 <= q <= cs.len(),
            all.len() == cs.len(),
            all.len() <= usize::MAX,
            calls@ == all.skip(q),
            forall|j: int|
                0 <= j < all.len() ==> (#[trigger] all[j]).view_tuple() == cs[j] && all[j].entry_bb < src.num_blocks()
                    && all[j].exit_bb < src.num_blocks() && temps_ok(all[j].view_tuple()),
            bodies.len() == q + 1,
            bodies[0] == src,
            bodies.last() == *body,
            forall|j: int| 0 <= j < q ==> #[trigger] nested_step(bodies[j], bodies[j + 1], cs[j], gates.available_helpers@),
            count == idiom_count(bodies, cs, gates.available_helpers@, q as nat),
            count <= q,
            body.num_blocks() >= src.num_blocks(),
            body.targets_valid(),
            body.all_terminated(),
        decreases calls@.len(),
    {
        let c = calls.remove(0);
        let ghost mid = *body;
        assert(c == all[q]);
        let ghost cv = c.view_tuple();
        assert(cv == cs[q] && c.entry_bb < src.num_blocks() && c.exit_bb < src.num_blocks() && temps_ok(cv));
        let listed = helper_available(&gates.available_helpers, c.helper.as_str());
        let mut did = false;
        if listed {
            did = apply_loop_call(body, c);
        }
        if did {
            count = count + 1;
        }
        proof {
            if listed {
                lemma_loop_call_keeps_targets(mid, *body, cv);
            }
            let nb = bodies.push(*body);
            assert forall|j: int| 0 <= j < q + 1 implies #[trigger] nested_step(
                nb[j],
                nb[j + 1],
                cs[j],
                gates.available_helpers@,
            ) by {
                if j < q {
                    assert(nb[j] == bodies[j] && nb[j + 1] == bodies[j + 1]);
                } else {
                    assert(nb[j] == mid && nb[j + 1] == *body);
                }
            }
            crate::loop_idioms::lemma_count_prefix(bodies, nb, cs, gates.available_helpers@, q as nat);
            assert(nb[q] == mid);
            bodies = nb;
            assert(calls@ =~= all.skip(q + 1));
            q = q + 1;
        }
    }
    proof {
        assert(nested_applied(src, *body, cs, gates.available_helpers@, count as nat));
        assert(nested_outcome(k, src, *body, loops@, cs, gates.available_helpers@, count as nat));
    }
    count
}

/// Replaces matrix-vector products by calls of the matvec helper; returns how many loop nests were replaced.
pub fn try_transform_slice_matvec_f64(body: &mut Body, gates: &LoopIdiomGates) -> (n: usize)
    requires
        old(body).targets_valid(),
        old(body).all_terminated(),
    ensures
        nested_gate_refuses(NestedIdiom::Matvec, *old(body), *gates) ==> n == 0 && *final(body) == *old(body),
        !nested_gate_refuses(NestedIdiom::Matvec, *old(body), *gates) ==> exists|loops: Seq<SimpleLoop>, cs: Seq<LoopCallView>|
            #[trigger] nested_outcome(NestedIdiom::Matvec, *old(body), *final(body), loops, cs, gates.available_helpers@, n as nat),
        final(body).targets_valid(),
        final(body).all_terminated(),
{
    try_transform_nested_idiom(body, NestedIdiom::Matvec, gates)
}

/// Replaces row broadcast adds by calls of the broadcast add helper; returns how many loop nests were replaced.
pub fn try_transform_slice_broadcast_add_f64(body: &mut Body, gates: &LoopIdiomGates) -> (n: usize)
    requires
        old(body).targets_valid(),
        old(body).all_terminated(),
    ensures
        nested_gate_refuses(NestedIdiom::BroadcastAdd, *old(body), *gates) ==> n == 0 && *final(body) == *old(body),
        !nested_gate_refuses(NestedIdiom::BroadcastAdd, *old(body), *gates) ==> exists|loops: Seq<SimpleLoop>, cs: Seq<LoopCallView>|
            #[trigger] nested_outcome(NestedIdiom::BroadcastAdd, *old(body), *final(body), loops, cs, gates.available_helpers@, n as nat),
        final(body).targets_valid(),
        final(body).all_terminated(),
{
    try_transform_nested_idiom(body, NestedIdiom::BroadcastAdd, gates)
}

/// Replaces sums along the outer axis by calls of the axis reduce helper; returns how many loop nests were replaced.
pub fn try_transform_slice_axis_reduce_sum_f64(body: &mut Body, gates: &LoopIdiomGates) -> (n: usize)
    requires
        old(body).targets_valid(),
        old(body).all_terminated(),
    ensures
        nested_gate_refuses(NestedIdiom::AxisReduceSum, *old(body), *gates) ==> n == 0 && *final(body) == *old(body),
        !nested_gate_refuses(NestedIdiom::AxisReduceSum, *old(body), *gates) ==> exists|loops: Seq<SimpleLoop>, cs: Seq<LoopCallView>|
            #[trigger] nested_outcome(NestedIdiom::AxisReduceSum, *old(body), *final(body), loops, cs, gates.available_helpers@, n as nat),
        final(body).targets_valid(),
        final(body).all_terminated(),
{
    try_transform_nested_idiom(body, NestedIdiom::AxisReduceSum, gates)
}

/// Replaces transposes by calls of the transpose helper; returns how many loop nests were replaced.
pub fn try_transform_slice_transpose_f64(body: &mut Body, gates: &LoopIdiomGates) -> (n: usize)
    requires
        old(body).targets_valid(),
        old(body).all_terminated(),
    ensures
        nested_gate_refuses(NestedIdiom::Transpose, *old(body), *gates) ==> n == 0 && *final(body) == *old(body),
        !nested_gate_refuses(NestedIdiom::Transpose, *old(body), *gates) ==> exists|loops: Seq<SimpleLoop>, cs: Seq<LoopCallView>|
            #[trigger] nested_outcome(NestedIdiom::Transpose, *old(body), *final(body), loops, cs, gates.available_helpers@, n as nat),
        final(body).targets_valid(),
        final(body).all_terminated(),
{
    try_transform_nested_idiom(body, NestedIdiom::Transpose, gates)
}

/// Replaces one-dimensional convolutions by calls of the convolution helper; returns how many loop nests were replaced.
pub fn try_transform_slice_conv1d_f64(body: &mut Body, gates: &LoopIdiomGates) -> (n: usize)
    requires
        old(body).targets_valid(),
        old(body).all_terminated(),
    ensures
        nested_gate_refuses(NestedIdiom::Conv1d, *old(body), *gates) ==> n == 0 && *final(body) == *old(body),
        !nested_gate_refuses(NestedIdiom::Conv1d, *old(body), *gates) ==> exists|loops: Seq<SimpleLoop>, cs: Seq<LoopCallView>|
            #[trigger] nested_outcome(NestedIdiom::Conv1d, *old(body), *final(body), loops, cs, gates.available_helpers@, n as nat),
        final(body).targets_valid(),
        final(body).all_terminated(),
{
    try_transform_nested_idiom(body, NestedIdiom::Conv1d, gates)
}

} // verus!
