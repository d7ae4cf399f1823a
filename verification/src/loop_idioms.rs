//! Element-wise loops over a range replaced by one call of a parallel
//! runtime helper: for each idiom, the loops that match it are found first
//! and then replaced in order, each by a block that borrows the destination
//! slice and calls the idiom's helper with the loop's inputs.
use vstd::prelude::*;
use crate::mir::{Body, LocalTy, Operand, Const};
use crate::detect::{SimpleLoop, find_simple_loops, loops_spec, block_range, loop_ok, lemma_loops_in_range};
use crate::shape::{range_loop_shape, lemma_entry_preds_bounded};
use crate::loop_call::{
    TempInit, CallArg, LoopCall, LoopCallView, loop_header, loop_call_applied, apply_loop_call,
    lemma_loop_call_keeps_targets,
};
use crate::apply_loops::{
    ScalePlan, ElemwisePlan, ElemwiseShape, scale_plan, unary_apply_plan, binary_apply_plan, abs_diff_plan,
    fma_write_plan, clamp_plan, elemwise_plan, multi_axpy_plan, analyze_scale_loop, analyze_unary_apply_loop,
    analyze_binary_apply_loop, analyze_abs_diff_loop, analyze_fma_write_loop, analyze_clamp_loop,
    analyze_elemwise_write_loop, analyze_multi_axpy_loop,
};
use crate::zip_loops::{
    zip_sub_write_plan, zip_diff_sq_add_plan, analyze_zip_sub_write_loop, analyze_zip_diff_sq_add_loop,
};
use crate::idioms::{unary_helper_name, binary_helper_name};
use crate::iter_methods::{helper_listed, helper_available};
use crate::gates::{sysroot_crate, quick_skip, is_in_sysroot_crate, parallel_pass_quick_skip};
use crate::text::{contains_text, contains_str};

verus! {

/// The element-wise loop idioms that a single range loop can match.
#[derive(Clone, Copy, PartialEq, Eq, Debug, Structural)]
pub enum LoopIdiom {
    /// `y[i] *= alpha`.
    Scale,
    /// `y[i] = x[i].f()` for a unary float method with a helper.
    UnaryApply,
    /// `y[i] = a[i].f(b[i])` for a binary float method with a helper.
    BinaryApply,
    /// `y[i] = (a[i] - b[i]).abs()`.
    AbsDiff,
    /// `y[i] = a[i] * b[i] + c[i]`.
    FmaWrite,
    /// `y[i] = x[i].clamp(lo, hi)`.
    Clamp,
    /// `y[i] += alpha * x[i] + beta * z[i]`.
    MultiAxpy,
    /// `y[i] = a[i] - b[i]`.
    ZipSubWrite,
    /// `y[i] += (a[i] - b[i])^2`.
    ZipDiffSqAdd,
    /// A fill, a copy, or an element-wise sum, product or quotient.
    ElemwiseWrite,
}

/// The one temporary of every idiom: a unique re-borrow of the destination
/// slice.
pub open spec fn dst_borrow(dst: usize) -> Seq<TempInit> {
    seq![TempInit::Reborrow { of: dst, mutable: true }]
}

/// The helper and its arguments after the destination for an element-wise
/// write.
pub open spec fn elemwise_call(p: ElemwisePlan) -> LoopCallView {
    let (helper, args) = match p.shape {
        ElemwiseShape::FillConst { bits } => (
            "parallel_runtime_parallel_fill_f64"@,
            seq![CallArg::Temp(0), CallArg::Op(Operand::Constant(Const::Scalar { bits: bits as u128, size_bits: 64 }))],
        ),
        ElemwiseShape::FillRuntime { src } => (
            "parallel_runtime_parallel_fill_f64"@,
            seq![CallArg::Temp(0), CallArg::Copy(src)],
        ),
        ElemwiseShape::Copy { src } => (
            "parallel_runtime_parallel_copy_from_slice_f64"@,
            seq![CallArg::Temp(0), CallArg::Copy(src)],
        ),
        ElemwiseShape::ZipAdd { a, b } => (
            "parallel_runtime_parallel_zip_add_write_f64"@,
            seq![CallArg::Temp(0), CallArg::Copy(a), CallArg::Copy(b)],
        ),
        ElemwiseShape::ZipMul { a, b } => (
            "parallel_runtime_parallel_zip_mul_write_f64"@,
            seq![CallArg::Temp(0), CallArg::Copy(a), CallArg::Copy(b)],
        ),
        ElemwiseShape::ZipDiv { a, b } => (
            "parallel_runtime_parallel_zip_div_write_f64"@,
            seq![CallArg::Temp(0), CallArg::Copy(a), CallArg::Copy(b)],
        ),
    };
    (p.entry_bb, p.exit_bb, helper, dst_borrow(p.dst_local), args)
}

/// The replacement that idiom `k` asks for the loop with header `h` and
/// blocks `bs`, when the loop matches it: the helper gets the re-borrowed
/// destination, then copies of the loop's inputs.
pub open spec fn idiom_call(k: LoopIdiom, body: Body, h: usize, bs: Seq<usize>) -> Option<LoopCallView> {
    match k {
        LoopIdiom::Scale => match scale_plan(body, h, bs) {
            None => None,
            Some(p) => Some((
                p.entry_bb,
                p.exit_bb,
                "parallel_runtime_parallel_scale_f64"@,
                dst_borrow(p.dst_local),
                seq![CallArg::Temp(0), CallArg::Copy(p.alpha_local)],
            )),
        },
        LoopIdiom::UnaryApply => match unary_apply_plan(body, h, bs) {
            None => None,
            Some(v) => Some((
                v.0,
                v.1,
                "parallel_runtime_parallel_apply_"@ + v.4 + "_f64"@,
                dst_borrow(v.2),
                seq![CallArg::Temp(0), CallArg::Copy(v.3)],
            )),
        },
        LoopIdiom::BinaryApply => match binary_apply_plan(body, h, bs) {
            None => None,
            Some(v) => Some((
                v.0,
                v.1,
                "parallel_runtime_parallel_apply_"@ + v.5 + "_f64"@,
                dst_borrow(v.2),
                seq![CallArg::Temp(0), CallArg::Copy(v.3), CallArg::Copy(v.4)],
            )),
        },
        LoopIdiom::AbsDiff => match abs_diff_plan(body, h, bs) {
            None => None,
            Some(p) => Some((
                p.entry_bb,
                p.exit_bb,
                "parallel_runtime_parallel_abs_diff_write_f64"@,
                dst_borrow(p.dst_local),
                seq![CallArg::Temp(0), CallArg::Copy(p.a_local), CallArg::Copy(p.b_local)],
            )),
        },
        LoopIdiom::FmaWrite => match fma_write_plan(body, h, bs) {
            None => None,
            Some(p) => Some((
                p.entry_bb,
                p.exit_bb,
                "parallel_runtime_parallel_fma_write_f64"@,
                dst_borrow(p.dst_local),
                seq![CallArg::Temp(0), CallArg::Copy(p.a_local), CallArg::Copy(p.b_local), CallArg::Copy(p.c_local)],
            )),
        },
        LoopIdiom::Clamp => match clamp_plan(body, h, bs) {
            None => None,
            Some(p) => Some((
                p.entry_bb,
                p.exit_bb,
                "parallel_runtime_parallel_clamp_f64"@,
                dst_borrow(p.dst_local),
                seq![CallArg::Temp(0), CallArg::Copy(p.src_local), CallArg::Copy(p.lo_local), CallArg::Copy(p.hi_local)],
            )),
        },
        LoopIdiom::MultiAxpy => match multi_axpy_plan(body, h, bs) {
            None => None,
            Some(p) => Some((
                p.entry_bb,
                p.exit_bb,
                "parallel_runtime_parallel_multi_axpy_f64"@,
                dst_borrow(p.dst_local),
                seq![
                    CallArg::Temp(0),
                    CallArg::Copy(p.x_local),
                    CallArg::Copy(p.alpha_local),
                    CallArg::Copy(p.z_local),
                    CallArg::Copy(p.beta_local),
                ],
            )),
        },
        LoopIdiom::ZipSubWrite => match zip_sub_write_plan(body, h, bs) {
            None => None,
            Some(p) => Some((
                p.entry_bb,
                p.exit_bb,
                "parallel_runtime_parallel_zip_sub_write_f64"@,
                dst_borrow(p.dst_local),
                seq![CallArg::Temp(0), CallArg::Copy(p.a_local), CallArg::Copy(p.b_local)],
            )),
        },
        LoopIdiom::ZipDiffSqAdd => match zip_diff_sq_add_plan(body, h, bs) {
            None => None,
            Some(p) => Some((
                p.entry_bb,
                p.exit_bb,
                "parallel_runtime_parallel_zip_diff_sq_add_f64"@,
                dst_borrow(p.dst_local),
                seq![CallArg::Temp(0), CallArg::Copy(p.a_local), CallArg::Copy(p.b_local)],
            )),
        },
        LoopIdiom::ElemwiseWrite => match elemwise_plan(body, h, bs) {
            None => None,
            Some(p) => Some(elemwise_call(p)),
        },
    }
}

/// The replacements of the first `n` loops of `ls`, in order, for the
/// loops that match idiom `k`.
pub open spec fn idiom_calls_upto(k: LoopIdiom, body: Body, ls: Seq<(usize, usize)>, n: nat) -> Seq<LoopCallView>
    decreases n,
{
    if n == 0 || n > ls.len() {
        Seq::empty()
    } else {
        let prev = idiom_calls_upto(k, body, ls, (n - 1) as nat);
        match idiom_call(k, body, ls[n - 1].0, block_range(ls[n - 1].0, ls[n - 1].1)) {
            Some(c) => prev.push(c),
            None => prev,
        }
    }
}

/// The replacements for all the loops of a body (see `loops_spec`) that
/// match idiom `k`, in the order of the loops.
pub open spec fn idiom_calls(k: LoopIdiom, body: Body) -> Seq<LoopCallView> {
    idiom_calls_upto(k, body, loops_spec(body), loops_spec(body).len())
}

/// One replacement, from body `b0` to body `b1`: applied when the runtime
/// has its helper; otherwise nothing changes, except that an element-wise
/// write has already added its destination temporary.
pub open spec fn idiom_step(k: LoopIdiom, b0: Body, b1: Body, c: LoopCallView, available: Seq<String>) -> bool {
    if helper_listed(available, c.2) {
        loop_call_applied(b0, b1, c)
    } else if k == LoopIdiom::ElemwiseWrite {
        &&& b1.basic_blocks == b0.basic_blocks
        &&& b1.arg_count == b0.arg_count
        &&& b1.local_tys@ == b0.local_tys@.push(LocalTy::Other)
    } else {
        b1 == b0
    }
}

/// How many of the first `m` replacements took place: the helper exists
/// and, in the body the replacement was applied to, the loop's entry block
/// has a successor.
pub open spec fn idiom_count(bodies: Seq<Body>, cs: Seq<LoopCallView>, available: Seq<String>, m: nat) -> nat
    decreases m,
{
    if m == 0 {
        0
    } else {
        idiom_count(bodies, cs, available, (m - 1) as nat) + if helper_listed(available, cs[m - 1].2)
            && loop_header(bodies[m - 1], cs[m - 1].0) is Some {
            1nat
        } else {
            0nat
        }
    }
}

/// `b1` is `b0` with the replacements `cs` applied in order, `n` of them
/// taking place.
pub open spec fn idioms_applied(k: LoopIdiom, b0: Body, b1: Body, cs: Seq<LoopCallView>, available: Seq<String>, n: nat) -> bool {
    exists|bodies: Seq<Body>|
        {
            &&& bodies.len() == cs.len() + 1
            &&& bodies[0] == b0
            &&& bodies.last() == b1
            &&& forall|j: int| 0 <= j < cs.len() ==> #[trigger] idiom_step(k, bodies[j], bodies[j + 1], cs[j], available)
            &&& n == idiom_count(bodies, cs, available, cs.len())
        }
}

/// The matched loop's entry and exit blocks are blocks of the body.
pub(crate) proof fn lemma_shape_entry(body: Body, h: usize, bs: Seq<usize>)
    requires
        body.targets_valid(),
        h < body.num_blocks(),
    ensures
        range_loop_shape(body, h, bs) matches Some(s) ==> s.0 < body.num_blocks() && s.1 < body.num_blocks(),
{
    lemma_entry_preds_bounded(body, h, bs, body.num_blocks());
    let n = body.num_blocks();
    match body.basic_blocks@[h as int].terminator {
        Some(crate::mir::TerminatorKind::Call { target: Some(post), .. }) => {
            assert(post < n);
            match body.basic_blocks@[post as int].terminator {
                Some(crate::mir::TerminatorKind::SwitchInt { targets, .. }) => {
                    crate::shape::lemma_last_target_in(targets@, 0, n);
                },
                _ => {},
            }
        },
        _ => {},
    }
}

pub(crate) fn copy_args(dst_args: Vec<usize>) -> (r: Vec<CallArg>)
    ensures
        r@.len() == dst_args@.len() + 1,
        r@[0] == CallArg::Temp(0),
        forall|j: int| 0 <= j < dst_args@.len() ==> r@[j + 1] == CallArg::Copy(#[trigger] dst_args@[j]),
{
    let mut r: Vec<CallArg> = Vec::new();
    r.push(CallArg::Temp(0));
    let mut j: usize = 0;
    while j < dst_args.len()
        invariant
            j <= dst_args@.len(),
            r@.len() == j + 1,
            r@[0] == CallArg::Temp(0),
            forall|q: int| 0 <= q < j ==> r@[q + 1] == CallArg::Copy(#[trigger] dst_args@[q]),
        decreases dst_args@.len() - j,
    {
        r.push(CallArg::Copy(dst_args[j]));
        j = j + 1;
    }
    r
}

/// A replacement borrowing `dst` and copying the locals `inputs`.
pub(crate) fn borrow_call(entry: usize, exit: usize, helper: &str, dst: usize, inputs: Vec<usize>) -> (r: LoopCall)
    ensures
        r.entry_bb == entry,
        r.exit_bb == exit,
        r.helper@ == helper@,
        r.temps@ == dst_borrow(dst),
        r.args@.len() == inputs@.len() + 1,
        r.args@[0] == CallArg::Temp(0),
        forall|j: int| 0 <= j < inputs@.len() ==> r.args@[j + 1] == CallArg::Copy(#[trigger] inputs@[j]),
{
    let mut temps: Vec<TempInit> = Vec::new();
    temps.push(TempInit::Reborrow { of: dst, mutable: true });
    assert(temps@ =~= dst_borrow(dst));
    LoopCall { entry_bb: entry, exit_bb: exit, helper: helper.to_string(), temps, args: copy_args(inputs) }
}

/// Every `Temp` argument of `c` names one of its temporaries.
pub open spec fn temps_ok(c: LoopCallView) -> bool {
    forall|q: int| 0 <= q < c.4.len() && #[trigger] c.4[q] is Temp ==> c.4[q]->Temp_0 < c.3.len()
}

/// The replacement idiom `k` asks for the loop `lp`, if it matches.
pub fn idiom_call_of(k: LoopIdiom, body: &Body, lp: &SimpleLoop) -> (r: Option<LoopCall>)
    requires
        body.targets_valid(),
        body.all_terminated(),
        loop_ok(*body, lp.body@),
        lp.header < body.num_blocks(),
    ensures
        match r {
            None => idiom_call(k, *body, lp.header, lp.body@) is None,
            Some(c) => {
                &&& idiom_call(k, *body, lp.header, lp.body@) == Some(c.view_tuple())
                &&& c.entry_bb < body.num_blocks()
                &&& c.exit_bb < body.num_blocks()
                &&& temps_ok(c.view_tuple())
            },
        },
{
    proof {
        lemma_shape_entry(*body, lp.header, lp.body@);
    }
    let r = match k {
        LoopIdiom::Scale => match analyze_scale_loop(body, lp) {
            None => None,
            Some(p) => {
                let c = borrow_call(p.entry_bb, p.exit_bb, "parallel_runtime_parallel_scale_f64", p.dst_local, vec![p.alpha_local]);
                assert(c.args@ =~= seq![CallArg::Temp(0), CallArg::Copy(p.alpha_local)]);
                Some(c)
            },
        },
        LoopIdiom::UnaryApply => match analyze_unary_apply_loop(body, lp) {
            None => None,
            Some(p) => match unary_helper_name(p.method.as_str(), p.fty) {
                None => None,
                Some(h) => {
                    let c = borrow_call(p.entry_bb, p.exit_bb, h, p.dst_local, vec![p.src_local]);
                    assert(c.args@ =~= seq![CallArg::Temp(0), CallArg::Copy(p.src_local)]);
                    Some(c)
                },
            },
        },
        LoopIdiom::BinaryApply => match analyze_binary_apply_loop(body, lp) {
            None => None,
            Some(p) => match binary_helper_name(p.method.as_str(), p.fty) {
                None => None,
                Some(h) => {
                    let c = borrow_call(p.entry_bb, p.exit_bb, h, p.dst_local, vec![p.a_local, p.b_local]);
                    assert(c.args@ =~= seq![CallArg::Temp(0), CallArg::Copy(p.a_local), CallArg::Copy(p.b_local)]);
                    Some(c)
                },
            },
        },
        LoopIdiom::AbsDiff => match analyze_abs_diff_loop(body, lp) {
            None => None,
            Some(p) => {
                let c = borrow_call(
                    p.entry_bb,
                    p.exit_bb,
                    "parallel_runtime_parallel_abs_diff_write_f64",
                    p.dst_local,
                    vec![p.a_local, p.b_local],
                );
                assert(c.args@ =~= seq![CallArg::Temp(0), CallArg::Copy(p.a_local), CallArg::Copy(p.b_local)]);
                Some(c)
            },
        },
        LoopIdiom::FmaWrite => match analyze_fma_write_loop(body, lp) {
            None => None,
            Some(p) => {
                let c = borrow_call(
                    p.entry_bb,
                    p.exit_bb,
                    "parallel_runtime_parallel_fma_write_f64",
                    p.dst_local,
                    vec![p.a_local, p.b_local, p.c_local],
                );
                assert(c.args@ =~= seq![
                    CallArg::Temp(0),
                    CallArg::Copy(p.a_local),
                    CallArg::Copy(p.b_local),
                    CallArg::Copy(p.c_local),
                ]);
                Some(c)
            },
        },
        LoopIdiom::Clamp => match analyze_clamp_loop(body, lp) {
            None => None,
            Some(p) => {
                let c = borrow_call(
                    p.entry_bb,
                    p.exit_bb,
                    "parallel_runtime_parallel_clamp_f64",
                    p.dst_local,
                    vec![p.src_local, p.lo_local, p.hi_local],
                );
                assert(c.args@ =~= seq![
                    CallArg::Temp(0),
                    CallArg::Copy(p.src_local),
                    CallArg::Copy(p.lo_local),
                    CallArg::Copy(p.hi_local),
                ]);
                Some(c)
            },
        },
        LoopIdiom::MultiAxpy => match analyze_multi_axpy_loop(body, lp) {
            None => None,
            Some(p) => {
                let c = borrow_call(
                    p.entry_bb,
                    p.exit_bb,
                    "parallel_runtime_parallel_multi_axpy_f64",
                    p.dst_local,
                    vec![p.x_local, p.alpha_local, p.z_local, p.beta_local],
                );
                assert(c.args@ =~= seq![
                    CallArg::Temp(0),
                    CallArg::Copy(p.x_local),
                    CallArg::Copy(p.alpha_local),
                    CallArg::Copy(p.z_local),
                    CallArg::Copy(p.beta_local),
                ]);
                Some(c)
            },
        },
        LoopIdiom::ZipSubWrite => match analyze_zip_sub_write_loop(body, lp) {
            None => None,
            Some(p) => {
                let c = borrow_call(
                    p.entry_bb,
                    p.exit_bb,
                    "parallel_runtime_parallel_zip_sub_write_f64",
                    p.dst_local,
                    vec![p.a_local, p.b_local],
                );
                assert(c.args@ =~= seq![CallArg::Temp(0), CallArg::Copy(p.a_local), CallArg::Copy(p.b_local)]);
                Some(c)
            },
        },
        LoopIdiom::ZipDiffSqAdd => match analyze_zip_diff_sq_add_loop(body, lp) {
            None => None,
            Some(p) => {
                let c = borrow_call(
                    p.entry_bb,
                    p.exit_bb,
                    "parallel_runtime_parallel_zip_diff_sq_add_f64",
                    p.dst_local,
                    vec![p.a_local, p.b_local],
                );
                assert(c.args@ =~= seq![CallArg::Temp(0), CallArg::Copy(p.a_local), CallArg::Copy(p.b_local)]);
                Some(c)
            },
        },
        LoopIdiom::ElemwiseWrite => match analyze_elemwise_write_loop(body, lp) {
            None => None,
            Some(p) => Some(elemwise_call_of(&p)),
        },
    };
    r
}

fn elemwise_call_of(p: &ElemwisePlan) -> (r: LoopCall)
    ensures
        r.view_tuple() == elemwise_call(*p),
{
    let c = match p.shape {
        ElemwiseShape::FillConst { bits } => {
            let mut c = borrow_call(p.entry_bb, p.exit_bb, "parallel_runtime_parallel_fill_f64", p.dst_local, vec![]);
            c.args.push(CallArg::Op(Operand::Constant(Const::Scalar { bits: bits as u128, size_bits: 64 })));
            assert(c.args@ =~= seq![
                CallArg::Temp(0),
                CallArg::Op(Operand::Constant(Const::Scalar { bits: bits as u128, size_bits: 64 })),
            ]);
            c
        },
        ElemwiseShape::FillRuntime { src } => {
            let c = borrow_call(p.entry_bb, p.exit_bb, "parallel_runtime_parallel_fill_f64", p.dst_local, vec![src]);
            assert(c.args@ =~= seq![CallArg::Temp(0), CallArg::Copy(src)]);
            c
        },
        ElemwiseShape::Copy { src } => {
            let c = borrow_call(
                p.entry_bb,
                p.exit_bb,
                "parallel_runtime_parallel_copy_from_slice_f64",
                p.dst_local,
                vec![src],
            );
            assert(c.args@ =~= seq![CallArg::Temp(0), CallArg::Copy(src)]);
            c
        },
        ElemwiseShape::ZipAdd { a, b } => {
            let c = borrow_call(p.entry_bb, p.exit_bb, "parallel_runtime_parallel_zip_add_write_f64", p.dst_local, vec![a, b]);
            assert(c.args@ =~= seq![CallArg::Temp(0), CallArg::Copy(a), CallArg::Copy(b)]);
            c
        },
        ElemwiseShape::ZipMul { a, b } => {
            let c = borrow_call(p.entry_bb, p.exit_bb, "parallel_runtime_parallel_zip_mul_write_f64", p.dst_local, vec![a, b]);
            assert(c.args@ =~= seq![CallArg::Temp(0), CallArg::Copy(a), CallArg::Copy(b)]);
            c
        },
        ElemwiseShape::ZipDiv { a, b } => {
            let c = borrow_call(p.entry_bb, p.exit_bb, "parallel_runtime_parallel_zip_div_write_f64", p.dst_local, vec![a, b]);
            assert(c.args@ =~= seq![CallArg::Temp(0), CallArg::Copy(a), CallArg::Copy(b)]);
            c
        },
    };
    c
}

/// Names of the runtime's own functions that idiom `k` leaves alone: the
/// function's printed name holds one of these.
pub open spec fn excluded_name(k: LoopIdiom, n: Seq<char>) -> bool {
    let c = |w: Seq<char>| contains_text(n, w);
    ||| c("parallel_runtime"@)
    ||| c("parallel_invoke"@)
    ||| match k {
        LoopIdiom::Scale | LoopIdiom::ElemwiseWrite => c("parallel_reduce_"@) || c("parallel_zip_"@) || c(
            "parallel_axpy"@,
        ) || c("parallel_fill"@) || c("parallel_copy_from_slice"@) || c("parallel_scale"@),
        LoopIdiom::ZipSubWrite | LoopIdiom::ZipDiffSqAdd => c("parallel_reduce_"@) || c("parallel_zip_"@) || c(
            "parallel_axpy"@,
        ),
        LoopIdiom::UnaryApply | LoopIdiom::BinaryApply => c("parallel_apply_"@),
        LoopIdiom::AbsDiff => c("parallel_apply_"@) || c("parallel_abs_diff"@),
        LoopIdiom::FmaWrite => c("parallel_apply_"@) || c("parallel_fma_"@),
        LoopIdiom::Clamp => c("parallel_clamp"@) || c("parallel_apply_"@),
        LoopIdiom::MultiAxpy => c("parallel_multi_axpy"@) || c("parallel_axpy"@),
    }
}

fn excluded_name_exec(k: LoopIdiom, n: &str) -> (r: bool)
    ensures
        r == excluded_name(k, n@),
{
    let base = contains_str(n, "parallel_runtime") || contains_str(n, "parallel_invoke");
    let more = match k {
        LoopIdiom::Scale | LoopIdiom::ElemwiseWrite => contains_str(n, "parallel_reduce_") || contains_str(
            n,
            "parallel_zip_",
        ) || contains_str(n, "parallel_axpy") || contains_str(n, "parallel_fill") || contains_str(
            n,
            "parallel_copy_from_slice",
        ) || contains_str(n, "parallel_scale"),
        LoopIdiom::ZipSubWrite | LoopIdiom::ZipDiffSqAdd => contains_str(n, "parallel_reduce_") || contains_str(
            n,
            "parallel_zip_",
        ) || contains_str(n, "parallel_axpy"),
        LoopIdiom::UnaryApply | LoopIdiom::BinaryApply => contains_str(n, "parallel_apply_"),
        LoopIdiom::AbsDiff => contains_str(n, "parallel_apply_") || contains_str(n, "parallel_abs_diff"),
        LoopIdiom::FmaWrite => contains_str(n, "parallel_apply_") || contains_str(n, "parallel_fma_"),
        LoopIdiom::Clamp => contains_str(n, "parallel_clamp") || contains_str(n, "parallel_apply_"),
        LoopIdiom::MultiAxpy => contains_str(n, "parallel_multi_axpy") || contains_str(n, "parallel_axpy"),
    };
    base || more
}

/// The helper without which idiom `k` leaves every body alone (the apply
/// idioms and the element-wise writes look their helper up per loop).
pub open spec fn required_helper(k: LoopIdiom) -> Option<Seq<char>> {
    match k {
        LoopIdiom::Scale => Some("parallel_runtime_parallel_scale_f64"@),
        LoopIdiom::AbsDiff => Some("parallel_runtime_parallel_abs_diff_write_f64"@),
        LoopIdiom::FmaWrite => Some("parallel_runtime_parallel_fma_write_f64"@),
        LoopIdiom::Clamp => Some("parallel_runtime_parallel_clamp_f64"@),
        LoopIdiom::MultiAxpy => Some("parallel_runtime_parallel_multi_axpy_f64"@),
        LoopIdiom::ZipSubWrite => Some("parallel_runtime_parallel_zip_sub_write_f64"@),
        LoopIdiom::ZipDiffSqAdd => Some("parallel_runtime_parallel_zip_diff_sq_add_f64"@),
        _ => None,
    }
}

fn required_helper_of(k: LoopIdiom) -> (r: Option<&'static str>)
    ensures
        r is Some <==> required_helper(k) is Some,
        r matches Some(h) ==> h@ == required_helper(k)->0,
{
    match k {
        LoopIdiom::Scale => Some("parallel_runtime_parallel_scale_f64"),
        LoopIdiom::AbsDiff => Some("parallel_runtime_parallel_abs_diff_write_f64"),
        LoopIdiom::FmaWrite => Some("parallel_runtime_parallel_fma_write_f64"),
        LoopIdiom::Clamp => Some("parallel_runtime_parallel_clamp_f64"),
        LoopIdiom::MultiAxpy => Some("parallel_runtime_parallel_multi_axpy_f64"),
        LoopIdiom::ZipSubWrite => Some("parallel_runtime_parallel_zip_sub_write_f64"),
        LoopIdiom::ZipDiffSqAdd => Some("parallel_runtime_parallel_zip_diff_sq_add_f64"),
        _ => None,
    }
}

/// What the loop idiom rewrites need to know of the compilation: whether
/// idiom transforms are on, the crate's and the function's names, whether
/// the function is marked always-inline or naked, whether float sums may
/// be reassociated, and which runtime helpers exist.
pub struct LoopIdiomGates {
    pub enabled: bool,
    pub crate_name: String,
    pub fn_name: String,
    pub inline_always_or_naked: bool,
    /// Whether the crate opted in to reassociating float sums (asked by the
    /// idioms whose helpers add up in another order).
    pub float_opt_in: bool,
    pub available_helpers: Vec<String>,
}

/// Bodies that idiom `k` leaves alone: transforms off, a sysroot crate, the
/// runtime's own functions, fewer than four blocks or no call, or a runtime
/// without the idiom's helper.
pub open spec fn idiom_gate_refuses(k: LoopIdiom, body: Body, g: LoopIdiomGates) -> bool {
    ||| !g.enabled
    ||| sysroot_crate(g.crate_name@)
    ||| excluded_name(k, g.fn_name@)
    ||| quick_skip(body, 4, true, g.inline_always_or_naked)
    ||| (required_helper(k) matches Some(h) && !helper_listed(g.available_helpers@, h))
}

/// Adds a local that nothing uses (the destination temporary of an
/// element-wise write whose helper is missing).
fn add_spare_local(body: &mut Body)
    ensures
        final(body).basic_blocks == old(body).basic_blocks,
        final(body).arg_count == old(body).arg_count,
        final(body).local_tys@ == old(body).local_tys@.push(LocalTy::Other),
{
    body.local_tys.push(LocalTy::Other);
}

/// Replaces the loops of a body that match idiom `k` (see `idiom_calls`),
/// in order, each by one call of its helper (see `idiom_step`), and
/// returns how many were replaced.
pub fn try_transform_loop_idiom(body: &mut Body, k: LoopIdiom, gates: &LoopIdiomGates) -> (n: usize)
    requires
        old(body).targets_valid(),
        old(body).all_terminated(),
    ensures
        idiom_gate_refuses(k, *old(body), *gates) ==> n == 0 && *final(body) == *old(body),
        !idiom_gate_refuses(k, *old(body), *gates) ==> idioms_applied(
            k,
            *old(body),
            *final(body),
            idiom_calls(k, *old(body)),
            gates.available_helpers@,
            n as nat,
        ),
        final(body).targets_valid(),
        final(body).all_terminated(),
{
    if !gates.enabled || is_in_sysroot_crate(gates.crate_name.as_str()) || excluded_name_exec(k, gates.fn_name.as_str())
        || parallel_pass_quick_skip(body, 4, true, gates.inline_always_or_naked) {
        return 0;
    }
    match required_helper_of(k) {
        Some(h) => {
            if !helper_available(&gates.available_helpers, h) {
                return 0;
            }
        },
        None => {},
    }
    let ghost src = *body;
    let ghost ls = loops_spec(src);
    let loops = find_simple_loops(body);
    proof {
        lemma_loops_in_range(src);
    }
    // the replacements, found on the body as it was
    let mut calls: Vec<LoopCall> = Vec::new();
    let mut i: usize = 0;
    while i < loops.len()
        invariant
            *body == src,
            src.targets_valid(),
            src.all_terminated(),
            i <= loops@.len(),
            loops@.len() == ls.len(),
            ls == loops_spec(src),
            forall|j: int| 0 <= j < ls.len() ==> (#[trigger] ls[j]).0 < ls[j].1 < src.num_blocks(),
            forall|j: int|
                0 <= j < loops@.len() ==> (#[trigger] loops@[j]).header == ls[j].0 && loops@[j].body@
                    == block_range(ls[j].0, ls[j].1),
            calls@.len() == idiom_calls_upto(k, src, ls, i as nat).len(),
            forall|j: int|
                0 <= j < calls@.len() ==> (#[trigger] calls@[j]).view_tuple() == idiom_calls_upto(k, src, ls, i as nat)[j]
                    && calls@[j].entry_bb < src.num_blocks() && calls@[j].exit_bb < src.num_blocks()
                    && temps_ok(calls@[j].view_tuple()),
        decreases loops@.len() - i,
    {
        let lp = &loops[i];
        proof {
            assert(ls[i as int].0 < ls[i as int].1 < src.num_blocks());
            assert forall|j: int| 0 <= j < lp.body@.len() implies #[trigger] lp.body@[j] < src.num_blocks() by {}
        }
        let ghost prev = calls@;
        match idiom_call_of(k, body, lp) {
            Some(c) => {
                calls.push(c);
            },
            None => {},
        }
        proof {
            assert forall|j: int|
                0 <= j < calls@.len() implies (#[trigger] calls@[j]).view_tuple() == idiom_calls_upto(
                k,
                src,
                ls,
                (i + 1) as nat,
            )[j] && calls@[j].entry_bb < src.num_blocks() && calls@[j].exit_bb < src.num_blocks() && temps_ok(
                calls@[j].view_tuple(),
            ) by {
                if j < prev.len() {
                    assert(calls@[j] == prev[j]);
                }
            }
        }
        i = i + 1;
    }
    let ghost cs = idiom_calls(k, src);
    assert(cs == idiom_calls_upto(k, src, ls, i as nat));
    let ghost all = calls@;
    let ghost mut bodies: Seq<Body> = seq![src];
    let ghost mut q: int = 0;
    let mut count: usize = 0;
    assert(calls@.len() == calls.len());
    while calls.len() > 0
        invariant
            0 <= q <= cs.len(),
            all.len() == cs.len(),
            all.len() <= usize::MAX,
            calls@ == all.skip(q),
            forall|j: int|
                0 <= j < all.len() ==> (#[trigger] all[j]).view_tuple() == cs[j] && all[j].entry_bb < src.num_blocks()
                    && all[j].exit_bb < src.num_blocks() && temps_ok(all[j].view_tuple()),
            bodies.len() == q + 1,
            bodies[0] == src,
            bodies.last() == *body,
            forall|j: int| 0 <= j < q ==> #[trigger] idiom_step(k, bodies[j], bodies[j + 1], cs[j], gates.available_helpers@),
            count == idiom_count(bodies, cs, gates.available_helpers@, q as nat),
            count <= q,
            body.num_blocks() >= src.num_blocks(),
            body.targets_valid(),
            src.all_terminated() ==> body.all_terminated(),
        decreases calls@.len(),
    {
        let c = calls.remove(0);
        let ghost mid = *body;
        assert(c == all[q]);
        let ghost cv = c.view_tuple();
        assert(cv == cs[q] && c.entry_bb < src.num_blocks() && c.exit_bb < src.num_blocks() && temps_ok(cv));
        let listed = helper_available(&gates.available_helpers, c.helper.as_str());
        let mut did = false;
        if listed {
            did = apply_loop_call(body, c);
        } else if k == LoopIdiom::ElemwiseWrite {
            add_spare_local(body);
        }
        if did {
            count = count + 1;
        }
        proof {
            if listed {
                lemma_loop_call_keeps_targets(mid, *body, cv);
            }
            let nb = bodies.push(*body);
            assert forall|j: int| 0 <= j < q + 1 implies #[trigger] idiom_step(
                k,
                nb[j],
                nb[j + 1],
                cs[j],
                gates.available_helpers@,
            ) by {
                if j < q {
                    assert(nb[j] == bodies[j] && nb[j + 1] == bodies[j + 1]);
                } else {
                    assert(nb[j] == mid && nb[j + 1] == *body);
                }
            }
            assert(idiom_count(nb, cs, gates.available_helpers@, q as nat) == idiom_count(
                bodies,
                cs,
                gates.available_helpers@,
                q as nat,
            )) by {
                lemma_count_prefix(bodies, nb, cs, gates.available_helpers@, q as nat);
            }
            assert(nb[q] == mid);
            bodies = nb;
            assert(calls@ =~= all.skip(q + 1));
            q = q + 1;
        }
    }
    proof {
        assert(bodies.len() == cs.len() + 1);
    }
    count
}

/// The count over the first `m` replacements reads only the first `m`
/// bodies.
pub(crate) proof fn lemma_count_prefix(a: Seq<Body>, b: Seq<Body>, cs: Seq<LoopCallView>, available: Seq<String>, m: nat)
    requires
        m <= a.len(),
        m <= b.len(),
        forall|j: int| 0 <= j < m ==> a[j] == b[j],
    ensures
        idiom_count(a, cs, available, m) == idiom_count(b, cs, available, m),
    decreases m,
{
    if m > 0 {
        lemma_count_prefix(a, b, cs, available, (m - 1) as nat);
    }
}

/// Replaces `y[i] *= alpha` loops by calls of the scale helper; returns how many loops were replaced.
pub fn try_transform_slice_scale_f64(body: &mut Body, gates: &LoopIdiomGates) -> (n: usize)
    requires
        old(body).targets_valid(),
        old(body).all_terminated(),
    ensures
        idiom_gate_refuses(LoopIdiom::Scale, *old(body), *gates) ==> n == 0 && *final(body) == *old(body),
        !idiom_gate_refuses(LoopIdiom::Scale, *old(body), *gates) ==> idioms_applied(
            LoopIdiom::Scale,
            *old(body),
            *final(body),
            idiom_calls(LoopIdiom::Scale, *old(body)),
            gates.available_helpers@,
            n as nat,
        ),
        final(body).targets_valid(),
        final(body).all_terminated(),
{
    try_transform_loop_idiom(body, LoopIdiom::Scale, gates)
}

/// Replaces `y[i] = x[i].f()` loops by calls of the apply helper of `f`; returns how many loops were replaced.
pub fn try_transform_slice_unary_apply_f64(body: &mut Body, gates: &LoopIdiomGates) -> (n: usize)
    requires
        old(body).targets_valid(),
        old(body).all_terminated(),
    ensures
        idiom_gate_refuses(LoopIdiom::UnaryApply, *old(body), *gates) ==> n == 0 && *final(body) == *old(body),
        !idiom_gate_refuses(LoopIdiom::UnaryApply, *old(body), *gates) ==> idioms_applied(
            LoopIdiom::UnaryApply,
            *old(body),
            *final(body),
            idiom_calls(LoopIdiom::UnaryApply, *old(body)),
            gates.available_helpers@,
            n as nat,
        ),
        final(body).targets_valid(),
        final(body).all_terminated(),
{
    try_transform_loop_idiom(body, LoopIdiom::UnaryApply, gates)
}

/// Replaces `y[i] = a[i].f(b[i])` loops by calls of the apply helper of `f`; returns how many loops were replaced.
pub fn try_transform_slice_binary_apply_f64(body: &mut Body, gates: &LoopIdiomGates) -> (n: usize)
    requires
        old(body).targets_valid(),
        old(body).all_terminated(),
    ensures
        idiom_gate_refuses(LoopIdiom::BinaryApply, *old(body), *gates) ==> n == 0 && *final(body) == *old(body),
        !idiom_gate_refuses(LoopIdiom::BinaryApply, *old(body), *gates) ==> idioms_applied(
            LoopIdiom::BinaryApply,
            *old(body),
            *final(body),
            idiom_calls(LoopIdiom::BinaryApply, *old(body)),
            gates.available_helpers@,
            n as nat,
        ),
        final(body).targets_valid(),
        final(body).all_terminated(),
{
    try_transform_loop_idiom(body, LoopIdiom::BinaryApply, gates)
}

/// Replaces `y[i] = (a[i] - b[i]).abs()` loops by calls of the absolute difference helper; returns how many loops were replaced.
pub fn try_transform_slice_abs_diff_f64(body: &mut Body, gates: &LoopIdiomGates) -> (n: usize)
    requires
        old(body).targets_valid(),
        old(body).all_terminated(),
    ensures
        idiom_gate_refuses(LoopIdiom::AbsDiff, *old(body), *gates) ==> n == 0 && *final(body) == *old(body),
        !idiom_gate_refuses(LoopIdiom::AbsDiff, *old(body), *gates) ==> idioms_applied(
            LoopIdiom::AbsDiff,
            *old(body),
            *final(body),
            idiom_calls(LoopIdiom::AbsDiff, *old(body)),
            gates.available_helpers@,
            n as nat,
        ),
        final(body).targets_valid(),
        final(body).all_terminated(),
{
    try_transform_loop_idiom(body, LoopIdiom::AbsDiff, gates)
}

/// Replaces `y[i] = a[i] * b[i] + c[i]` loops by calls of the fused multiply-add helper; returns how many loops were replaced.
pub fn try_transform_slice_fma_write_f64(body: &mut Body, gates: &LoopIdiomGates) -> (n: usize)
    requires
        old(body).targets_valid(),
        old(body).all_terminated(),
    ensures
        idiom_gate_refuses(LoopIdiom::FmaWrite, *old(body), *gates) ==> n == 0 && *final(body) == *old(body),
        !idiom_gate_refuses(LoopIdiom::FmaWrite, *old(body), *gates) ==> idioms_applied(
            LoopIdiom::FmaWrite,
            *old(body),
            *final(body),
            idiom_calls(LoopIdiom::FmaWrite, *old(body)),
            gates.available_helpers@,
            n as nat,
        ),
        final(body).targets_valid(),
        final(body).all_terminated(),
{
    try_transform_loop_idiom(body, LoopIdiom::FmaWrite, gates)
}

/// Replaces `y[i] = x[i].clamp(lo, hi)` loops by calls of the clamp helper; returns how many loops were replaced.
pub fn try_transform_slice_clamp_f64(body: &mut Body, gates: &LoopIdiomGates) -> (n: usize)
    requires
        old(body).targets_valid(),
        old(body).all_terminated(),
    ensures
        idiom_gate_refuses(LoopIdiom::Clamp, *old(body), *gates) ==> n == 0 && *final(body) == *old(body),
        !idiom_gate_refuses(LoopIdiom::Clamp, *old(body), *gates) ==> idioms_applied(
            LoopIdiom::Clamp,
            *old(body),
            *final(body),
            idiom_calls(LoopIdiom::Clamp, *old(body)),
            gates.available_helpers@,
            n as nat,
        ),
        final(body).targets_valid(),
        final(body).all_terminated(),
{
    try_transform_loop_idiom(body, LoopIdiom::Clamp, gates)
}

/// Replaces `y[i] += alpha * x[i] + beta * z[i]` loops by calls of the two-term axpy helper; returns how many loops were replaced.
pub fn try_transform_slice_multi_axpy_f64(body: &mut Body, gates: &LoopIdiomGates) -> (n: usize)
    requires
        old(body).targets_valid(),
        old(body).all_terminated(),
    ensures
        idiom_gate_refuses(LoopIdiom::MultiAxpy, *old(body), *gates) ==> n == 0 && *final(body) == *old(body),
        !idiom_gate_refuses(LoopIdiom::MultiAxpy, *old(body), *gates) ==> idioms_applied(
            LoopIdiom::MultiAxpy,
            *old(body),
            *final(body),
            idiom_calls(LoopIdiom::MultiAxpy, *old(body)),
            gates.available_helpers@,
            n as nat,
        ),
        final(body).targets_valid(),
        final(body).all_terminated(),
{
    try_transform_loop_idiom(body, LoopIdiom::MultiAxpy, gates)
}

/// Replaces `y[i] = a[i] - b[i]` loops by calls of the difference helper; returns how many loops were replaced.
pub fn try_transform_slice_zip_sub_write_f64(body: &mut Body, gates: &LoopIdiomGates) -> (n: usize)
    requires
        old(body).targets_valid(),
        old(body).all_terminated(),
    ensures
        idiom_gate_refuses(LoopIdiom::ZipSubWrite, *old(body), *gates) ==> n == 0 && *final(body) == *old(body),
        !idiom_gate_refuses(LoopIdiom::ZipSubWrite, *old(body), *gates) ==> idioms_applied(
            LoopIdiom::ZipSubWrite,
            *old(body),
            *final(body),
            idiom_calls(LoopIdiom::ZipSubWrite, *old(body)),
            gates.available_helpers@,
            n as nat,
        ),
        final(body).targets_valid(),
        final(body).all_terminated(),
{
    try_transform_loop_idiom(body, LoopIdiom::ZipSubWrite, gates)
}

/// Replaces `y[i] += (a[i] - b[i])^2` loops by calls of the squared difference helper; returns how many loops were replaced.
pub fn try_transform_slice_zip_diff_sq_add_f64(body: &mut Body, gates: &LoopIdiomGates) -> (n: usize)
    requires
        old(body).targets_valid(),
        old(body).all_terminated(),
    ensures
        idiom_gate_refuses(LoopIdiom::ZipDiffSqAdd, *old(body), *gates) ==> n == 0 && *final(body) == *old(body),
        !idiom_gate_refuses(LoopIdiom::ZipDiffSqAdd, *old(body), *gates) ==> idioms_applied(
            LoopIdiom::ZipDiffSqAdd,
            *old(body),
            *final(body),
            idiom_calls(LoopIdiom::ZipDiffSqAdd, *old(body)),
            gates.available_helpers@,
            n as nat,
        ),
        final(body).targets_valid(),
        final(body).all_terminated(),
{
    try_transform_loop_idiom(body, LoopIdiom::ZipDiffSqAdd, gates)
}

/// Replaces fills, copies and element-wise sums, products and quotients by calls of their helpers; returns how many loops were replaced.
pub fn try_transform_slice_elemwise_write_f64(body: &mut Body, gates: &LoopIdiomGates) -> (n: usize)
    requires
        old(body).targets_valid(),
        old(body).all_terminated(),
    ensures
        idiom_gate_refuses(LoopIdiom::ElemwiseWrite, *old(body), *gates) ==> n == 0 && *final(body) == *old(body),
        !idiom_gate_refuses(LoopIdiom::ElemwiseWrite, *old(body), *gates) ==> idioms_applied(
            LoopIdiom::ElemwiseWrite,
            *old(body),
            *final(body),
            idiom_calls(LoopIdiom::ElemwiseWrite, *old(body)),
            gates.available_helpers@,
            n as nat,
        ),
        final(body).targets_valid(),
        final(body).all_terminated(),
{
    try_transform_loop_idiom(body, LoopIdiom::ElemwiseWrite, gates)
}

} // verus!
