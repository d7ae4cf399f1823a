//! `.iter().sum()`, `.iter().product()` and `.iter().count()` on a slice of
//! integers: the first two become one call of the runtime's slice reduce
//! helper, the last the slice's length.
use vstd::prelude::*;
use crate::mir::{
    Body, BasicBlockData, StatementKind, TerminatorKind, Operand, Const, Place, ProjectionElem,
    Rvalue, UnOp, UnwindAction, LocalTy, local_ty, local_ty_of, AggregateKind,
};
use crate::detect::{term_of, stmts_of};
use crate::idioms::{AccTyTag, ScalarTy, tag_word, slice_helper_for};
use crate::text::{last_segment, last_path_segment, str_eq, contains_text, contains_str, ends_with_text, ends_with_str};
use crate::gates::{sysroot_crate, is_in_sysroot_crate, quick_skip, parallel_pass_quick_skip};

verus! {

/// The iterator method that ends the chain.
#[derive(Clone, Copy, PartialEq, Eq, Debug, Structural)]
pub enum IterMethod {
    Sum,
    Product,
    Count,
}

/// The method named by the last segment of a callee's path.
pub open spec fn iter_method_named(seg: Seq<char>) -> Option<IterMethod> {
    if seg == "sum"@ {
        Some(IterMethod::Sum)
    } else if seg == "product"@ {
        Some(IterMethod::Product)
    } else if seg == "count"@ {
        Some(IterMethod::Count)
    } else {
        None
    }
}

/// The accumulator type of a scalar type.
pub open spec fn acc_tag(t: ScalarTy) -> Option<AccTyTag> {
    match t {
        ScalarTy::U32 => Some(AccTyTag::U32),
        ScalarTy::U64 => Some(AccTyTag::U64),
        ScalarTy::Usize => Some(AccTyTag::Usize),
        ScalarTy::I32 => Some(AccTyTag::I32),
        ScalarTy::I64 => Some(AccTyTag::I64),
        ScalarTy::Isize => Some(AccTyTag::Isize),
        ScalarTy::F64 => Some(AccTyTag::F64),
        _ => None,
    }
}

/// The element type of local `l` when it is a reference to a slice of a
/// supported scalar.
pub open spec fn slice_elem_tag(body: Body, l: usize) -> Option<AccTyTag> {
    match local_ty(body, l) {
        LocalTy::RefSlice { elem, .. } => acc_tag(elem),
        _ => None,
    }
}

/// A copy (`false`) or move (`true`) of a bare local.
pub open spec fn bare_operand(o: Operand) -> Option<(usize, bool)> {
    match o {
        Operand::Copy(p) => if p.projection@.len() == 0 {
            Some((p.local, false))
        } else {
            None
        },
        Operand::Move(p) => if p.projection@.len() == 0 {
            Some((p.local, true))
        } else {
            None
        },
        _ => None,
    }
}

/// A chain found at block `b`: (b, slice local, whether it is moved,
/// destination local and projection of the method call, the block after
/// it, the method, the element type).
pub open spec fn iter_plan_at(body: Body, b: int) -> Option<
    (usize, usize, bool, usize, Seq<ProjectionElem>, usize, IterMethod, AccTyTag),
> {
    match term_of(body, b) {
        Some(
            TerminatorKind::Call {
                func: Operand::Constant(Const::FnDef { path }),
                args,
                destination,
                target: Some(t),
                ..
            },
        ) => if destination.projection@.len() == 0 && last_segment(path@) == "iter"@ && contains_text(
            path@,
            "slice"@,
        ) && args@.len() == 1 && t < body.basic_blocks@.len() {
            match bare_operand(args@[0]) {
                None => None,
                Some((sl, mv)) => match slice_elem_tag(body, sl) {
                    None => None,
                    Some(tag) => match term_of(body, t as int) {
                        Some(
                            TerminatorKind::Call {
                                func: Operand::Constant(Const::FnDef { path: mp }),
                                args: margs,
                                destination: md,
                                target: Some(after),
                                ..
                            },
                        ) => match iter_method_named(last_segment(mp@)) {
                            None => None,
                            Some(method) => if margs@.len() == 1 && (bare_operand(margs@[0]) matches Some(
                                (ml, _),
                            ) && ml == destination.local) {
                                Some((b as usize, sl, mv, md.local, md.projection@, after, method, tag))
                            } else {
                                None
                            },
                        },
                        _ => None,
                    },
                },
            }
        } else {
            None
        },
        _ => None,
    }
}

/// The chains found in the first `m` blocks, in block order.
pub open spec fn iter_plans(body: Body, m: nat) -> Seq<
    (usize, usize, bool, usize, Seq<ProjectionElem>, usize, IterMethod, AccTyTag),
>
    decreases m,
{
    if m == 0 {
        Seq::empty()
    } else {
        iter_plans(body, (m - 1) as nat) + match iter_plan_at(body, m - 1) {
            Some(p) => seq![p],
            None => Seq::empty(),
        }
    }
}

/// A chain to rewrite.
#[derive(Clone, Debug)]
pub struct IterMethodPlan {
    pub bb_iter: usize,
    pub slice_local: usize,
    pub slice_is_move: bool,
    pub method_dest: Place,
    pub after_method_bb: usize,
    pub method: IterMethod,
    pub elem_tag: AccTyTag,
}

impl IterMethodPlan {
    pub open spec fn view_tuple(&self) -> (usize, usize, bool, usize, Seq<ProjectionElem>, usize, IterMethod, AccTyTag) {
        (
            self.bb_iter,
            self.slice_local,
            self.slice_is_move,
            self.method_dest.local,
            self.method_dest.projection@,
            self.after_method_bb,
            self.method,
            self.elem_tag,
        )
    }
}

/// A copy of a place.
pub fn copy_place(p: &Place) -> (r: Place)
    ensures
        r.local == p.local,
        r.projection@ == p.projection@,
{
    let mut proj: Vec<ProjectionElem> = Vec::new();
    let mut k: usize = 0;
    while k < p.projection.len()
        invariant
            k <= p.projection@.len(),
            proj@ == p.projection@.take(k as int),
        decreases p.projection@.len() - k,
    {
        proj.push(p.projection[k]);
        k = k + 1;
        assert(proj@ =~= p.projection@.take(k as int));
    }
    assert(proj@ =~= p.projection@);
    Place { local: p.local, projection: proj }
}

pub(crate) fn bare_operand_of(o: &Operand) -> (r: Option<(usize, bool)>)
    ensures
        r == bare_operand(*o),
{
    match o {
        Operand::Copy(p) => if p.projection.len() == 0 {
            Some((p.local, false))
        } else {
            None
        },
        Operand::Move(p) => if p.projection.len() == 0 {
            Some((p.local, true))
        } else {
            None
        },
        _ => None,
    }
}

pub(crate) fn slice_elem_tag_of(body: &Body, l: usize) -> (r: Option<AccTyTag>)
    ensures
        r == slice_elem_tag(*body, l),
{
    match local_ty_of(body, l) {
        LocalTy::RefSlice { elem, .. } => AccTyTag::from_ty(elem),
        _ => None,
    }
}

pub(crate) fn iter_method_of(seg: &str) -> (r: Option<IterMethod>)
    ensures
        r == iter_method_named(seg@),
{
    if str_eq(seg, "sum") {
        Some(IterMethod::Sum)
    } else if str_eq(seg, "product") {
        Some(IterMethod::Product)
    } else if str_eq(seg, "count") {
        Some(IterMethod::Count)
    } else {
        None
    }
}

fn iter_plan_from(body: &Body, b: usize) -> (r: Option<IterMethodPlan>)
    requires
        b < body.basic_blocks@.len(),
    ensures
        match r {
            None => iter_plan_at(*body, b as int) is None,
            Some(p) => iter_plan_at(*body, b as int) == Some(p.view_tuple()),
        },
{
    match &body.basic_blocks[b].terminator {
        Some(
            TerminatorKind::Call {
                func: Operand::Constant(Const::FnDef { path }),
                args,
                destination,
                target: Some(t),
                ..
            },
        ) => {
            if destination.projection.len() != 0 || !str_eq(last_path_segment(path.as_str()), "iter")
                || !contains_str(path.as_str(), "slice") || args.len() != 1 || *t >= body.basic_blocks.len() {
                return None;
            }
            let (sl, mv) = match bare_operand_of(&args[0]) {
                Some(x) => x,
                None => {
                    return None;
                },
            };
            let tag = match slice_elem_tag_of(body, sl) {
                Some(x) => x,
                None => {
                    return None;
                },
            };
            match &body.basic_blocks[*t].terminator {
                Some(
                    TerminatorKind::Call {
                        func: Operand::Constant(Const::FnDef { path: mp }),
                        args: margs,
                        destination: md,
                        target: Some(after),
                        ..
                    },
                ) => {
                    let method = match iter_method_of(last_path_segment(mp.as_str())) {
                        Some(m) => m,
                        None => {
                            return None;
                        },
                    };
                    if margs.len() != 1 {
                        return None;
                    }
                    match bare_operand_of(&margs[0]) {
                        Some((ml, _)) => {
                            if ml != destination.local {
                                return None;
                            }
                        },
                        None => {
                            return None;
                        },
                    }
                    Some(
                        IterMethodPlan {
                            bb_iter: b,
                            slice_local: sl,
                            slice_is_move: mv,
                            method_dest: copy_place(md),
                            after_method_bb: *after,
                            method,
                            elem_tag: tag,
                        },
                    )
                },
                _ => None,
            }
        },
        _ => None,
    }
}

/// The chains of a body, in block order.
pub fn find_iter_method_plans(body: &Body) -> (r: Vec<IterMethodPlan>)
    ensures
        r@.len() == iter_plans(*body, body.basic_blocks@.len()).len(),
        forall|k: int|
            0 <= k < r@.len() ==> (#[trigger] r@[k]).view_tuple() == iter_plans(
                *body,
                body.basic_blocks@.len(),
            )[k],
{
    let mut plans: Vec<IterMethodPlan> = Vec::new();
    let mut b: usize = 0;
    while b < body.basic_blocks.len()
        invariant
            b <= body.basic_blocks@.len(),
            plans@.len() == iter_plans(*body, b as nat).len(),
            forall|k: int| 0 <= k < plans@.len() ==> (#[trigger] plans@[k]).view_tuple() == iter_plans(*body, b as nat)[k],
        decreases body.basic_blocks@.len() - b,
    {
        let found = iter_plan_from(body, b);
        proof {
            assert(iter_plans(*body, (b + 1) as nat) == iter_plans(*body, b as nat) + match iter_plan_at(*body, b as int) {
                Some(p) => seq![p],
                None => Seq::empty(),
            });
        }
        match found {
            Some(p) => {
                plans.push(p);
            },
            None => {},
        }
        b = b + 1;
    }
    plans
}

/// The runtime's slice reduce helper for a sum or a product.
pub open spec fn iter_helper_name(method: IterMethod, tag: AccTyTag) -> Seq<char> {
    if method == IterMethod::Sum {
        "parallel_runtime_parallel_reduce_sum_slice_"@ + tag_word(tag)
    } else {
        "parallel_runtime_parallel_reduce_mul_slice_"@ + tag_word(tag)
    }
}

/// `name` is among the helpers that the runtime provides.
pub open spec fn helper_listed(available: Seq<String>, name: Seq<char>) -> bool {
    exists|k: int| 0 <= k < available.len() && (#[trigger] available[k])@ == name
}

/// Is a chain rewritten? A count always is; a sum or a product only on
/// integers (a float reduction is not associative, and a plain float sum
/// or product is left to auto-vectorisation), only without overflow checks
/// (the helper wraps where the loop would panic), and only when the
/// runtime has the helper.
pub open spec fn iter_plan_applies(method: IterMethod, tag: AccTyTag, overflow_checks: bool, available: Seq<String>) -> bool {
    match method {
        IterMethod::Count => true,
        _ => tag != AccTyTag::F64 && !overflow_checks && helper_listed(available, iter_helper_name(method, tag)),
    }
}

/// A copy (`false`) or move (`true`) of local `l`, unprojected.
pub open spec fn operand_is(o: Operand, l: usize, mv: bool) -> bool {
    bare_operand(o) == Some((l, mv))
}

/// Block `new` is block `old` with the chain `p` rewritten: for a count, the
/// slice's length is stored into the destination and the block jumps past
/// the method call; for a sum or a product, the block's call becomes one
/// call of the helper on the slice, into the destination, unwinding
/// unreachable.
pub open spec fn block_rewritten(
    old: BasicBlockData,
    new: BasicBlockData,
    p: (usize, usize, bool, usize, Seq<ProjectionElem>, usize, IterMethod, AccTyTag),
) -> bool {
    match p.6 {
        IterMethod::Count => {
            &&& new.statements@.len() == old.statements@.len() + 1
            &&& new.statements@.take(old.statements@.len() as int) == old.statements@
            &&& new.statements@.last() matches StatementKind::Assign(dst, Rvalue::UnaryOp(UnOp::PtrMetadata, o))
                && dst.local == p.3 && dst.projection@ == p.4 && operand_is(o, p.1, p.2)
            &&& new.terminator == Some(TerminatorKind::Goto { target: p.5 })
        },
        _ => {
            &&& new.statements == old.statements
            &&& new.terminator matches Some(
                TerminatorKind::Call {
                    func: Operand::Constant(Const::FnDef { path }),
                    args,
                    destination,
                    target,
                    unwind,
                },
            ) && path@ == iter_helper_name(p.6, p.7) && args@.len() == 1 && operand_is(args@[0], p.1, p.2)
                && destination.local == p.3 && destination.projection@ == p.4 && target == Some(p.5) && unwind
                == UnwindAction::Unreachable
        },
    }
}

/// How many of the chains are rewritten.
pub open spec fn applied_count(
    plans: Seq<(usize, usize, bool, usize, Seq<ProjectionElem>, usize, IterMethod, AccTyTag)>,
    overflow_checks: bool,
    available: Seq<String>,
) -> nat
    decreases plans.len(),
{
    if plans.len() == 0 {
        0
    } else {
        applied_count(plans.drop_last(), overflow_checks, available) + if iter_plan_applies(
            plans.last().6,
            plans.last().7,
            overflow_checks,
            available,
        ) {
            1nat
        } else {
            0nat
        }
    }
}

/// Body `new` is body `old` with the chains `plans` that apply rewritten and
/// every other block as it was.
pub open spec fn iter_rewrite(
    old: Body,
    new: Body,
    plans: Seq<(usize, usize, bool, usize, Seq<ProjectionElem>, usize, IterMethod, AccTyTag)>,
    overflow_checks: bool,
    available: Seq<String>,
) -> bool {
    &&& new.basic_blocks@.len() == old.basic_blocks@.len()
    &&& new.arg_count == old.arg_count
    &&& new.local_tys == old.local_tys
    &&& forall|k: int|
        0 <= k < plans.len() && iter_plan_applies(plans[k].6, plans[k].7, overflow_checks, available)
            ==> block_rewritten(
            old.basic_blocks@[plans[k].0 as int],
            new.basic_blocks@[plans[k].0 as int],
            #[trigger] plans[k],
        )
    &&& forall|j: int|
        0 <= j < old.basic_blocks@.len() && (forall|k: int|
            0 <= k < plans.len() && #[trigger] plans[k].0 == j ==> !iter_plan_applies(
                plans[k].6,
                plans[k].7,
                overflow_checks,
                available,
            )) ==> new.basic_blocks@[j] == old.basic_blocks@[j]
}

/// What the rewrite needs to know of the compilation: whether idiom
/// transforms are on, the crate's and the function's names, whether
/// overflow checks are on, and which runtime helpers exist.
pub struct IterTransformGates {
    pub enabled: bool,
    pub crate_name: String,
    pub fn_name: String,
    pub overflow_checks: bool,
    /// Whether the runtime's `&dyn Fn` map-reduce helpers take two inputs
    /// (the slice and the closure).
    pub dyn_helpers_take_two: bool,
    pub available_helpers: Vec<String>,
}

/// Bodies left alone: transforms off, a sysroot crate, a body with fewer
/// than two blocks or without a call, the runtime's own functions, or a
/// runtime without the u64 slice sum helper.
pub open spec fn iter_gate_refuses(body: Body, g: IterTransformGates) -> bool {
    ||| !g.enabled
    ||| sysroot_crate(g.crate_name@)
    ||| quick_skip(body, 2, true, false)
    ||| contains_text(g.fn_name@, "parallel_reduce_"@)
    ||| contains_text(g.fn_name@, "parallel_runtime"@)
    ||| !helper_listed(g.available_helpers@, "parallel_runtime_parallel_reduce_sum_slice_u64"@)
}

pub(crate) fn helper_available(available: &Vec<String>, name: &str) -> (r: bool)
    ensures
        r == helper_listed(available@, name@),
{
    let mut k: usize = 0;
    while k < available.len()
        invariant
            k <= available@.len(),
            forall|j: int| 0 <= j < k ==> (#[trigger] available@[j])@ != name@,
        decreases available@.len() - k,
    {
        if str_eq(available[k].as_str(), name) {
            return true;
        }
        k = k + 1;
    }
    false
}

fn rewrite_iter_block(body: &mut Body, p: &IterMethodPlan, helper: &str)
    requires
        p.bb_iter < old(body).basic_blocks@.len(),
        p.method != IterMethod::Count ==> helper@ == iter_helper_name(p.method, p.elem_tag),
    ensures
        final(body).basic_blocks@.len() == old(body).basic_blocks@.len(),
        final(body).arg_count == old(body).arg_count,
        final(body).local_tys == old(body).local_tys,
        block_rewritten(
            old(body).basic_blocks@[p.bb_iter as int],
            final(body).basic_blocks@[p.bb_iter as int],
            p.view_tuple(),
        ),
        forall|j: int|
            0 <= j < old(body).basic_blocks@.len() && j != p.bb_iter ==> final(body).basic_blocks@[j]
                == old(body).basic_blocks@[j],
{
    let slice_place = Place { local: p.slice_local, projection: Vec::new() };
    let slice_op = if p.slice_is_move {
        Operand::Move(slice_place)
    } else {
        Operand::Copy(slice_place)
    };
    let dest = copy_place(&p.method_dest);
    let blk = &mut body.basic_blocks[p.bb_iter];
    match p.method {
        IterMethod::Count => {
            let ghost before = blk.statements@;
            blk.statements.push(StatementKind::Assign(dest, Rvalue::UnaryOp(UnOp::PtrMetadata, slice_op)));
            assert(blk.statements@.take(before.len() as int) =~= before);
            blk.terminator = Some(TerminatorKind::Goto { target: p.after_method_bb });
        },
        _ => {
            let mut args: Vec<Operand> = Vec::new();
            args.push(slice_op);
            blk.terminator = Some(
                TerminatorKind::Call {
                    func: Operand::Constant(Const::FnDef { path: helper.to_string() }),
                    args,
                    destination: dest,
                    target: Some(p.after_method_bb),
                    unwind: UnwindAction::Unreachable,
                },
            );
        },
    }
}

proof fn lemma_iter_plans_ordered(body: Body, m: nat)
    requires
        m <= body.basic_blocks.len(),
    ensures
        forall|i: int| 0 <= i < iter_plans(body, m).len() ==> (#[trigger] iter_plans(body, m)[i]).0 < m,
        forall|i: int, j: int|
            0 <= i < j < iter_plans(body, m).len() ==> (#[trigger] iter_plans(body, m)[i]).0 < (
            #[trigger] iter_plans(body, m)[j]).0,
    decreases m,
{
    if m > 0 {
        lemma_iter_plans_ordered(body, (m - 1) as nat);
        let prev = iter_plans(body, (m - 1) as nat);
        match iter_plan_at(body, m - 1) {
            Some(p) => {
                assert(p.0 == m - 1);
                assert(iter_plans(body, m) =~= prev.push(p));
            },
            None => {
                assert(iter_plans(body, m) =~= prev);
            },
        }
    }
}

proof fn lemma_applied_count_step(
    ps: Seq<(usize, usize, bool, usize, Seq<ProjectionElem>, usize, IterMethod, AccTyTag)>,
    k: int,
    overflow_checks: bool,
    available: Seq<String>,
)
    requires
        0 <= k < ps.len(),
    ensures
        applied_count(ps.take(k + 1), overflow_checks, available) == applied_count(ps.take(k), overflow_checks, available)
            + if iter_plan_applies(ps[k].6, ps[k].7, overflow_checks, available) {
            1nat
        } else {
            0nat
        },
{
    assert(ps.take(k + 1).drop_last() =~= ps.take(k));
}

fn iter_gates_refuse(body: &Body, gates: &IterTransformGates) -> (r: bool)
    ensures
        r == iter_gate_refuses(*body, *gates),
{
    !gates.enabled || is_in_sysroot_crate(gates.crate_name.as_str()) || parallel_pass_quick_skip(body, 2, true, false)
        || contains_str(gates.fn_name.as_str(), "parallel_reduce_") || contains_str(
        gates.fn_name.as_str(),
        "parallel_runtime",
    ) || !helper_available(&gates.available_helpers, "parallel_runtime_parallel_reduce_sum_slice_u64")
}

/// Rewrites the `.iter().sum()`, `.iter().product()` and `.iter().count()`
/// chains of a body (see `iter_plan_at` for what a chain is and
/// `iter_plan_applies` for which are rewritten) and returns how many it
/// rewrote.
fn rewrite_slice_chains(body: &mut Body, gates: &IterTransformGates) -> (n: usize)
    ensures
        iter_rewrite(
            *old(body),
            *final(body),
            iter_plans(*old(body), old(body).basic_blocks@.len()),
            gates.overflow_checks,
            gates.available_helpers@,
        ),
        n == applied_count(iter_plans(*old(body), old(body).basic_blocks@.len()), gates.overflow_checks, gates.available_helpers@),
        n <= old(body).basic_blocks@.len(),
{
    let plans = find_iter_method_plans(body);
    let ghost old_body = *body;
    let ghost nb = old_body.basic_blocks@.len();
    let ghost ps = iter_plans(old_body, nb);
    let ghost oc = gates.overflow_checks;
    let ghost av = gates.available_helpers@;
    proof {
        lemma_iter_plans_ordered(old_body, nb);
        lemma_iter_plans_len(old_body, nb);
        reveal_strlit("sum");
        reveal_strlit("product");
        assert(ps.take(0) =~= Seq::<(usize, usize, bool, usize, Seq<ProjectionElem>, usize, IterMethod, AccTyTag)>::empty());
    }
    let mut count: usize = 0;
    let mut k: usize = 0;
    while k < plans.len()
        invariant
            k <= plans@.len(),
            plans@.len() == ps.len(),
            forall|i: int| 0 <= i < plans@.len() ==> (#[trigger] plans@[i]).view_tuple() == ps[i],
            forall|i: int| 0 <= i < ps.len() ==> (#[trigger] ps[i]).0 < nb,
            forall|i: int, j: int| 0 <= i < j < ps.len() ==> (#[trigger] ps[i]).0 < (#[trigger] ps[j]).0,
            oc == gates.overflow_checks,
            av == gates.available_helpers@,
            body.basic_blocks@.len() == nb,
            body.arg_count == old_body.arg_count,
            body.local_tys == old_body.local_tys,
            count <= k,
            count == applied_count(ps.take(k as int), oc, av),
            forall|i: int|
                0 <= i < k && iter_plan_applies(ps[i].6, ps[i].7, oc, av) ==> block_rewritten(
                    old_body.basic_blocks@[ps[i].0 as int],
                    body.basic_blocks@[ps[i].0 as int],
                    #[trigger] ps[i],
                ),
            forall|j: int|
                0 <= j < nb && (forall|i: int|
                    0 <= i < k && #[trigger] ps[i].0 == j ==> !iter_plan_applies(ps[i].6, ps[i].7, oc, av))
                    ==> body.basic_blocks@[j] == old_body.basic_blocks@[j],
        decreases plans@.len() - k,
    {
        let p = &plans[k];
        let ghost pk = ps[k as int];
        proof {
            reveal_strlit("sum");
            reveal_strlit("product");
        }
        let helper: Option<&str> = match p.method {
            IterMethod::Count => None,
            IterMethod::Sum => {
                let h = slice_helper_for("sum", p.elem_tag);
                assert(h matches Some(x) && x@ == iter_helper_name(IterMethod::Sum, p.elem_tag));
                h
            },
            IterMethod::Product => {
                let h = slice_helper_for("product", p.elem_tag);
                assert("product"@ != "sum"@) by {
                    assert("product"@[1] != "sum"@[1]);
                }
                assert(h matches Some(x) && x@ == iter_helper_name(IterMethod::Product, p.elem_tag));
                h
            },
        };
        assert(p.method != IterMethod::Count ==> (helper matches Some(h) && h@ == iter_helper_name(p.method, p.elem_tag)));
        let applies = match p.method {
            IterMethod::Count => true,
            _ => match helper {
                Some(h) => p.elem_tag != AccTyTag::F64 && !gates.overflow_checks && helper_available(
                    &gates.available_helpers,
                    h,
                ),
                None => false,
            },
        };
        proof {
            lemma_applied_count_step(ps, k as int, oc, av);
        }
        if applies {
            let ghost before = *body;
            let name: &str = match helper {
                Some(h) => h,
                None => "",
            };
            assert(before.basic_blocks@[pk.0 as int] == old_body.basic_blocks@[pk.0 as int]) by {
                assert forall|i: int| 0 <= i < k && #[trigger] ps[i].0 == pk.0 implies !iter_plan_applies(
                    ps[i].6,
                    ps[i].7,
                    oc,
                    av,
                ) by {
                    assert(ps[i].0 < ps[k as int].0);
                }
            }
            rewrite_iter_block(body, p, name);
            count = count + 1;
            proof {
                assert forall|i: int|
                    0 <= i < k + 1 && iter_plan_applies(ps[i].6, ps[i].7, oc, av) implies block_rewritten(
                    old_body.basic_blocks@[ps[i].0 as int],
                    body.basic_blocks@[ps[i].0 as int],
                    #[trigger] ps[i],
                ) by {
                    if i < k {
                        assert(ps[i].0 < ps[k as int].0);
                    }
                }
                assert forall|j: int|
                    0 <= j < nb && (forall|i: int|
                        0 <= i < k + 1 && #[trigger] ps[i].0 == j ==> !iter_plan_applies(ps[i].6, ps[i].7, oc, av))
                        implies body.basic_blocks@[j] == old_body.basic_blocks@[j] by {
                    assert(ps[k as int].0 != j);
                    assert forall|i: int| 0 <= i < k && #[trigger] ps[i].0 == j implies !iter_plan_applies(
                        ps[i].6,
                        ps[i].7,
                        oc,
                        av,
                    ) by {
                    }
                }
            }
        } else {
            proof {
                assert forall|j: int|
                    0 <= j < nb && (forall|i: int|
                        0 <= i < k + 1 && #[trigger] ps[i].0 == j ==> !iter_plan_applies(ps[i].6, ps[i].7, oc, av))
                        implies body.basic_blocks@[j] == old_body.basic_blocks@[j] by {
                    assert forall|i: int| 0 <= i < k && #[trigger] ps[i].0 == j implies !iter_plan_applies(
                        ps[i].6,
                        ps[i].7,
                        oc,
                        av,
                    ) by {
                    }
                }
            }
        }
        k = k + 1;
    }
    proof {
        assert(ps.take(ps.len() as int) =~= ps);
        assert forall|j: int|
            0 <= j < nb && (forall|i: int|
                0 <= i < ps.len() && #[trigger] ps[i].0 == j ==> !iter_plan_applies(ps[i].6, ps[i].7, oc, av))
                implies body.basic_blocks@[j] == old_body.basic_blocks@[j] by {
            assert forall|i: int| 0 <= i < k && #[trigger] ps[i].0 == j implies !iter_plan_applies(
                ps[i].6,
                ps[i].7,
                oc,
                av,
            ) by {
            }
        }
    }
    count
}

// ── Range chains ──────────────────────────────────────────────────────

/// Two operands are the same: the same local and projection read the same
/// way, or equal constants.
pub open spec fn same_operand(a: Operand, b: Operand) -> bool {
    match (a, b) {
        (Operand::Copy(p), Operand::Copy(q)) => p.local == q.local && p.projection@ == q.projection@,
        (Operand::Move(p), Operand::Move(q)) => p.local == q.local && p.projection@ == q.projection@,
        (Operand::Constant(c), Operand::Constant(d)) => c == d,
        _ => false,
    }
}

/// A copy of an operand.
pub fn copy_operand(o: &Operand) -> (r: Operand)
    ensures
        same_operand(r, *o),
{
    match o {
        Operand::Copy(p) => Operand::Copy(copy_place(p)),
        Operand::Move(p) => Operand::Move(copy_place(p)),
        Operand::Constant(c) => Operand::Constant(
            match c {
                Const::Scalar { bits, size_bits } => Const::Scalar { bits: *bits, size_bits: *size_bits },
                Const::FnDef { path } => Const::FnDef { path: path.clone() },
                Const::Other => Const::Other,
            },
        ),
    }
}

/// A statement building a `Range` (an ADT whose path ends in `Range`) of
/// two fields over a supported element type into a bare local: (the
/// local, start, end, element type).
pub open spec fn range_aggregate(s: StatementKind) -> Option<(usize, Operand, Operand, AccTyTag)> {
    match s {
        StatementKind::Assign(place, Rvalue::Aggregate(AggregateKind::Adt { path, first_ty }, fields)) => {
            if place.projection@.len() == 0 && fields@.len() == 2 && (ends_with_text(path@, "ops::Range"@)
                || ends_with_text(path@, "Range"@)) {
                match first_ty {
                    Some(t) => match acc_tag(t) {
                        Some(tag) => Some((place.local, fields@[0], fields@[1], tag)),
                        None => None,
                    },
                    None => None,
                }
            } else {
                None
            }
        },
        _ => None,
    }
}

/// The last such statement among `ss`.
pub open spec fn last_range_aggregate(ss: Seq<StatementKind>) -> Option<(usize, Operand, Operand, AccTyTag)>
    decreases ss.len(),
{
    if ss.len() == 0 {
        None
    } else {
        match range_aggregate(ss.last()) {
            Some(x) => Some(x),
            None => last_range_aggregate(ss.drop_last()),
        }
    }
}

/// A range chain at block `b`: the block's last `Range` aggregate and its
/// call of `sum` or `product` on that range: (b, start, end, destination
/// local and projection, the block after, the method, the element type).
pub open spec fn range_plan_at(body: Body, b: int) -> Option<
    (usize, Operand, Operand, usize, Seq<ProjectionElem>, usize, IterMethod, AccTyTag),
> {
    match last_range_aggregate(stmts_of(body, b)) {
        None => None,
        Some((rl, so, eo, tag)) => match term_of(body, b) {
            Some(
                TerminatorKind::Call {
                    func: Operand::Constant(Const::FnDef { path }),
                    args,
                    destination,
                    target: Some(after),
                    ..
                },
            ) => match iter_method_named(last_segment(path@)) {
                Some(method) => if method != IterMethod::Count && args@.len() == 1 && (bare_operand(args@[0]) matches Some(
                    (l, _),
                ) && l == rl) {
                    Some((b as usize, so, eo, destination.local, destination.projection@, after, method, tag))
                } else {
                    None
                },
                None => None,
            },
            _ => None,
        },
    }
}

/// The range chains of the first `m` blocks, in block order.
pub open spec fn range_plans(body: Body, m: nat) -> Seq<
    (usize, Operand, Operand, usize, Seq<ProjectionElem>, usize, IterMethod, AccTyTag),
>
    decreases m,
{
    if m == 0 {
        Seq::empty()
    } else {
        range_plans(body, (m - 1) as nat) + match range_plan_at(body, m - 1) {
            Some(p) => seq![p],
            None => Seq::empty(),
        }
    }
}

/// A range chain to rewrite.
#[derive(Debug)]
pub struct RangeMethodPlan {
    pub bb: usize,
    pub start_op: Operand,
    pub end_op: Operand,
    pub method_dest: Place,
    pub after_bb: usize,
    pub method: IterMethod,
    pub elem_tag: AccTyTag,
}

impl RangeMethodPlan {
    /// The plan stands for the chain `v`.
    pub open spec fn stands_for(
        &self,
        v: (usize, Operand, Operand, usize, Seq<ProjectionElem>, usize, IterMethod, AccTyTag),
    ) -> bool {
        &&& self.bb == v.0
        &&& same_operand(self.start_op, v.1)
        &&& same_operand(self.end_op, v.2)
        &&& self.method_dest.local == v.3
        &&& self.method_dest.projection@ == v.4
        &&& self.after_bb == v.5
        &&& self.method == v.6
        &&& self.elem_tag == v.7
    }
}

/// The runtime's range reduce helper for a sum or a product.
pub open spec fn range_helper_name(method: IterMethod, tag: AccTyTag) -> Seq<char> {
    if method == IterMethod::Sum {
        "parallel_runtime_parallel_reduce_sum_range_"@ + tag_word(tag)
    } else {
        "parallel_runtime_parallel_reduce_mul_range_"@ + tag_word(tag)
    }
}

/// A range chain is rewritten when its element type is an integer and the
/// runtime has the helper.
pub open spec fn range_plan_applies(method: IterMethod, tag: AccTyTag, available: Seq<String>) -> bool {
    tag != AccTyTag::F64 && helper_listed(available, range_helper_name(method, tag))
}

/// Block `new` is block `old` with the range chain `p` rewritten: its call
/// becomes one call of the helper on the range's start and end, into the
/// destination, unwinding unreachable.
pub open spec fn range_block_rewritten(
    old: BasicBlockData,
    new: BasicBlockData,
    p: (usize, Operand, Operand, usize, Seq<ProjectionElem>, usize, IterMethod, AccTyTag),
) -> bool {
    &&& new.statements == old.statements
    &&& new.terminator matches Some(
        TerminatorKind::Call { func: Operand::Constant(Const::FnDef { path }), args, destination, target, unwind },
    ) && path@ == range_helper_name(p.6, p.7) && args@.len() == 2 && same_operand(args@[0], p.1) && same_operand(
        args@[1],
        p.2,
    ) && destination.local == p.3 && destination.projection@ == p.4 && target == Some(p.5) && unwind
        == UnwindAction::Unreachable
}

/// How many range chains are rewritten.
pub open spec fn range_applied_count(
    plans: Seq<(usize, Operand, Operand, usize, Seq<ProjectionElem>, usize, IterMethod, AccTyTag)>,
    available: Seq<String>,
) -> nat
    decreases plans.len(),
{
    if plans.len() == 0 {
        0
    } else {
        range_applied_count(plans.drop_last(), available) + if range_plan_applies(plans.last().6, plans.last().7, available) {
            1nat
        } else {
            0nat
        }
    }
}

/// Body `new` is body `old` with the range chains that apply rewritten and
/// every other block as it was.
pub open spec fn range_rewrite(
    old: Body,
    new: Body,
    plans: Seq<(usize, Operand, Operand, usize, Seq<ProjectionElem>, usize, IterMethod, AccTyTag)>,
    available: Seq<String>,
) -> bool {
    &&& new.basic_blocks@.len() == old.basic_blocks@.len()
    &&& new.arg_count == old.arg_count
    &&& new.local_tys == old.local_tys
    &&& forall|k: int|
        0 <= k < plans.len() && range_plan_applies(plans[k].6, plans[k].7, available) ==> range_block_rewritten(
            old.basic_blocks@[plans[k].0 as int],
            new.basic_blocks@[plans[k].0 as int],
            #[trigger] plans[k],
        )
    &&& forall|j: int|
        0 <= j < old.basic_blocks@.len() && (forall|k: int|
            0 <= k < plans.len() && #[trigger] plans[k].0 == j ==> !range_plan_applies(plans[k].6, plans[k].7, available))
            ==> new.basic_blocks@[j] == old.basic_blocks@[j]
}

fn range_aggregate_of(s: &StatementKind) -> (r: Option<(usize, &Operand, &Operand, AccTyTag)>)
    ensures
        match r {
            None => range_aggregate(*s) is None,
            Some((l, so, eo, tag)) => range_aggregate(*s) == Some((l, *so, *eo, tag)),
        },
{
    match s {
        StatementKind::Assign(place, Rvalue::Aggregate(AggregateKind::Adt { path, first_ty }, fields)) => {
            if place.projection.len() != 0 || fields.len() != 2 || !(ends_with_str(path.as_str(), "ops::Range")
                || ends_with_str(path.as_str(), "Range")) {
                return None;
            }
            match first_ty {
                Some(t) => match AccTyTag::from_ty(*t) {
                    Some(tag) => Some((place.local, &fields[0], &fields[1], tag)),
                    None => None,
                },
                None => None,
            }
        },
        _ => None,
    }
}

fn last_range_aggregate_of(stmts: &Vec<StatementKind>) -> (r: Option<(usize, &Operand, &Operand, AccTyTag)>)
    ensures
        match r {
            None => last_range_aggregate(stmts@) is None,
            Some((l, so, eo, tag)) => last_range_aggregate(stmts@) == Some((l, *so, *eo, tag)),
        },
{
    let mut i: usize = stmts.len();
    assert(stmts@.take(i as int) =~= stmts@);
    while i > 0
        invariant
            i <= stmts@.len(),
            last_range_aggregate(stmts@) == last_range_aggregate(stmts@.take(i as int)),
        decreases i,
    {
        proof {
            assert(stmts@.take(i as int).drop_last() =~= stmts@.take(i - 1));
        }
        match range_aggregate_of(&stmts[i - 1]) {
            Some(x) => {
                return Some(x);
            },
            None => {},
        }
        i = i - 1;
    }
    None
}

fn range_plan_from(body: &Body, b: usize) -> (r: Option<RangeMethodPlan>)
    requires
        b < body.basic_blocks@.len(),
    ensures
        match r {
            None => range_plan_at(*body, b as int) is None,
            Some(p) => range_plan_at(*body, b as int) matches Some(v) && p.stands_for(v),
        },
{
    let block = &body.basic_blocks[b];
    let (rl, so, eo, tag) = match last_range_aggregate_of(&block.statements) {
        Some(x) => x,
        None => {
            return None;
        },
    };
    match &block.terminator {
        Some(TerminatorKind::Call { func: Operand::Constant(Const::FnDef { path }), args, destination, target: Some(after), .. }) => {
            let method = match iter_method_of(last_path_segment(path.as_str())) {
                Some(m) => m,
                None => {
                    return None;
                },
            };
            if method == IterMethod::Count || args.len() != 1 {
                return None;
            }
            match bare_operand_of(&args[0]) {
                Some((l, _)) => {
                    if l != rl {
                        return None;
                    }
                },
                None => {
                    return None;
                },
            }
            Some(
                RangeMethodPlan {
                    bb: b,
                    start_op: copy_operand(so),
                    end_op: copy_operand(eo),
                    method_dest: copy_place(destination),
                    after_bb: *after,
                    method,
                    elem_tag: tag,
                },
            )
        },
        _ => None,
    }
}

/// The range chains of a body, in block order.
pub fn find_range_method_plans(body: &Body) -> (r: Vec<RangeMethodPlan>)
    ensures
        r@.len() == range_plans(*body, body.basic_blocks@.len()).len(),
        forall|k: int|
            0 <= k < r@.len() ==> (#[trigger] r@[k]).stands_for(range_plans(*body, body.basic_blocks@.len())[k]),
{
    let mut plans: Vec<RangeMethodPlan> = Vec::new();
    let mut b: usize = 0;
    while b < body.basic_blocks.len()
        invariant
            b <= body.basic_blocks@.len(),
            plans@.len() == range_plans(*body, b as nat).len(),
            forall|k: int| 0 <= k < plans@.len() ==> (#[trigger] plans@[k]).stands_for(range_plans(*body, b as nat)[k]),
        decreases body.basic_blocks@.len() - b,
    {
        let found = range_plan_from(body, b);
        proof {
            assert(range_plans(*body, (b + 1) as nat) == range_plans(*body, b as nat) + match range_plan_at(
                *body,
                b as int,
            ) {
                Some(p) => seq![p],
                None => Seq::empty(),
            });
        }
        match found {
            Some(p) => {
                plans.push(p);
            },
            None => {},
        }
        b = b + 1;
    }
    plans
}

proof fn lemma_range_plans_ordered(body: Body, m: nat)
    requires
        m <= body.basic_blocks.len(),
    ensures
        forall|i: int| 0 <= i < range_plans(body, m).len() ==> (#[trigger] range_plans(body, m)[i]).0 < m,
        forall|i: int| 0 <= i < range_plans(body, m).len() ==> (#[trigger] range_plans(body, m)[i]).6 != IterMethod::Count,
        forall|i: int, j: int|
            0 <= i < j < range_plans(body, m).len() ==> (#[trigger] range_plans(body, m)[i]).0 < (
            #[trigger] range_plans(body, m)[j]).0,
    decreases m,
{
    if m > 0 {
        lemma_range_plans_ordered(body, (m - 1) as nat);
        let prev = range_plans(body, (m - 1) as nat);
        match range_plan_at(body, m - 1) {
            Some(p) => {
                assert(p.0 == m - 1);
                assert(range_plans(body, m) =~= prev.push(p));
            },
            None => {
                assert(range_plans(body, m) =~= prev);
            },
        }
    }
}

proof fn lemma_range_count_step(
    ps: Seq<(usize, Operand, Operand, usize, Seq<ProjectionElem>, usize, IterMethod, AccTyTag)>,
    k: int,
    available: Seq<String>,
)
    requires
        0 <= k < ps.len(),
    ensures
        range_applied_count(ps.take(k + 1), available) == range_applied_count(ps.take(k), available) + if range_plan_applies(
            ps[k].6,
            ps[k].7,
            available,
        ) {
            1nat
        } else {
            0nat
        },
{
    assert(ps.take(k + 1).drop_last() =~= ps.take(k));
}

fn rewrite_range_block(body: &mut Body, p: &RangeMethodPlan, helper: &str)
    requires
        p.bb < old(body).basic_blocks@.len(),
        helper@ == range_helper_name(p.method, p.elem_tag),
    ensures
        final(body).basic_blocks@.len() == old(body).basic_blocks@.len(),
        final(body).arg_count == old(body).arg_count,
        final(body).local_tys == old(body).local_tys,
        forall|v: (usize, Operand, Operand, usize, Seq<ProjectionElem>, usize, IterMethod, AccTyTag)|
            p.stands_for(v) ==> range_block_rewritten(
                #[trigger] old(body).basic_blocks@[v.0 as int],
                final(body).basic_blocks@[v.0 as int],
                v,
            ),
        forall|j: int|
            0 <= j < old(body).basic_blocks@.len() && j != p.bb ==> final(body).basic_blocks@[j]
                == old(body).basic_blocks@[j],
{
    let mut args: Vec<Operand> = Vec::new();
    args.push(copy_operand(&p.start_op));
    args.push(copy_operand(&p.end_op));
    let dest = copy_place(&p.method_dest);
    let blk = &mut body.basic_blocks[p.bb];
    blk.terminator = Some(
        TerminatorKind::Call {
            func: Operand::Constant(Const::FnDef { path: helper.to_string() }),
            args,
            destination: dest,
            target: Some(p.after_bb),
            unwind: UnwindAction::Unreachable,
        },
    );
    proof {
        assert forall|v: (usize, Operand, Operand, usize, Seq<ProjectionElem>, usize, IterMethod, AccTyTag)|
            p.stands_for(v) implies range_block_rewritten(
            #[trigger] old(body).basic_blocks@[v.0 as int],
            final(body).basic_blocks@[v.0 as int],
            v,
        ) by {
            let t = final(body).basic_blocks@[v.0 as int].terminator->0;
            assert(same_operand(t->Call_args@[0], v.1)) by {
                assert(same_operand(t->Call_args@[0], p.start_op));
            }
            assert(same_operand(t->Call_args@[1], v.2)) by {
                assert(same_operand(t->Call_args@[1], p.end_op));
            }
        }
    }
}

/// Rewrites the `(start..end).sum()` and `(start..end).product()` chains of
/// a body (see `range_plan_at`) whose element type is an integer and whose
/// helper the runtime has; returns how many it rewrote.
pub fn try_transform_range_iterator_methods(body: &mut Body, available: &Vec<String>) -> (n: usize)
    ensures
        range_rewrite(*old(body), *final(body), range_plans(*old(body), old(body).basic_blocks@.len()), available@),
        n == range_applied_count(range_plans(*old(body), old(body).basic_blocks@.len()), available@),
{
    let plans = find_range_method_plans(body);
    let ghost old_body = *body;
    let ghost nb = old_body.basic_blocks@.len();
    let ghost ps = range_plans(old_body, nb);
    let ghost av = available@;
    proof {
        lemma_range_plans_ordered(old_body, nb);
        assert(ps.take(0) =~= Seq::<(usize, Operand, Operand, usize, Seq<ProjectionElem>, usize, IterMethod, AccTyTag)>::empty());
    }
    let mut count: usize = 0;
    let mut k: usize = 0;
    while k < plans.len()
        invariant
            k <= plans@.len(),
            plans@.len() == ps.len(),
            forall|i: int| 0 <= i < plans@.len() ==> (#[trigger] plans@[i]).stands_for(ps[i]),
            forall|i: int| 0 <= i < ps.len() ==> (#[trigger] ps[i]).0 < nb,
            forall|i: int| 0 <= i < ps.len() ==> (#[trigger] ps[i]).6 != IterMethod::Count,
            forall|i: int, j: int| 0 <= i < j < ps.len() ==> (#[trigger] ps[i]).0 < (#[trigger] ps[j]).0,
            av == available@,
            body.basic_blocks@.len() == nb,
            body.arg_count == old_body.arg_count,
            body.local_tys == old_body.local_tys,
            count <= k,
            count == range_applied_count(ps.take(k as int), av),
            forall|i: int|
                0 <= i < k && range_plan_applies(ps[i].6, ps[i].7, av) ==> range_block_rewritten(
                    old_body.basic_blocks@[ps[i].0 as int],
                    body.basic_blocks@[ps[i].0 as int],
                    #[trigger] ps[i],
                ),
            forall|j: int|
                0 <= j < nb && (forall|i: int|
                    0 <= i < k && #[trigger] ps[i].0 == j ==> !range_plan_applies(ps[i].6, ps[i].7, av))
                    ==> body.basic_blocks@[j] == old_body.basic_blocks@[j],
        decreases plans@.len() - k,
    {
        let p = &plans[k];
        let ghost pk = ps[k as int];
        proof {
            reveal_strlit("sum");
            reveal_strlit("product");
            assert("product"@ != "sum"@) by {
                assert("product"@[1] != "sum"@[1]);
            }
            lemma_range_count_step(ps, k as int, av);
        }
        let helper: Option<&str> = match p.method {
            IterMethod::Sum => crate::idioms::range_helper_for("sum", p.elem_tag),
            IterMethod::Product => crate::idioms::range_helper_for("product", p.elem_tag),
            IterMethod::Count => None,
        };
        assert(p.method != IterMethod::Count ==> (helper is Some <==> p.elem_tag != AccTyTag::F64));
        assert(helper matches Some(h) ==> h@ == range_helper_name(p.method, p.elem_tag));
        let applies = match helper {
            Some(h) => helper_available(available, h),
            None => false,
        };
        assert(pk.6 != IterMethod::Count);
        if applies {
            let ghost before = *body;
            let name: &str = match helper {
                Some(h) => h,
                None => "",
            };
            assert(before.basic_blocks@[pk.0 as int] == old_body.basic_blocks@[pk.0 as int]) by {
                assert forall|i: int| 0 <= i < k && #[trigger] ps[i].0 == pk.0 implies !range_plan_applies(
                    ps[i].6,
                    ps[i].7,
                    av,
                ) by {
                    assert(ps[i].0 < ps[k as int].0);
                }
            }
            rewrite_range_block(body, p, name);
            count = count + 1;
            proof {
                assert forall|i: int|
                    0 <= i < k + 1 && range_plan_applies(ps[i].6, ps[i].7, av) implies range_block_rewritten(
                    old_body.basic_blocks@[ps[i].0 as int],
                    body.basic_blocks@[ps[i].0 as int],
                    #[trigger] ps[i],
                ) by {
                    if i < k {
                        assert(ps[i].0 < ps[k as int].0);
                    } else {
                        assert(range_block_rewritten(before.basic_blocks@[pk.0 as int], body.basic_blocks@[pk.0 as int], pk));
                    }
                }
                assert forall|j: int|
                    0 <= j < nb && (forall|i: int|
                        0 <= i < k + 1 && #[trigger] ps[i].0 == j ==> !range_plan_applies(ps[i].6, ps[i].7, av))
                        implies body.basic_blocks@[j] == old_body.basic_blocks@[j] by {
                    assert(ps[k as int].0 != j);
                    assert forall|i: int| 0 <= i < k && #[trigger] ps[i].0 == j implies !range_plan_applies(
                        ps[i].6,
                        ps[i].7,
                        av,
                    ) by {
                    }
                }
            }
        } else {
            proof {
                assert forall|j: int|
                    0 <= j < nb && (forall|i: int|
                        0 <= i < k + 1 && #[trigger] ps[i].0 == j ==> !range_plan_applies(ps[i].6, ps[i].7, av))
                        implies body.basic_blocks@[j] == old_body.basic_blocks@[j] by {
                    assert forall|i: int| 0 <= i < k && #[trigger] ps[i].0 == j implies !range_plan_applies(
                        ps[i].6,
                        ps[i].7,
                        av,
                    ) by {
                    }
                }
            }
        }
        k = k + 1;
    }
    proof {
        assert(ps.take(ps.len() as int) =~= ps);
        assert forall|j: int|
            0 <= j < nb && (forall|i: int|
                0 <= i < ps.len() && #[trigger] ps[i].0 == j ==> !range_plan_applies(ps[i].6, ps[i].7, av))
                implies body.basic_blocks@[j] == old_body.basic_blocks@[j] by {
            assert forall|i: int| 0 <= i < k && #[trigger] ps[i].0 == j implies !range_plan_applies(
                ps[i].6,
                ps[i].7,
                av,
            ) by {
            }
        }
    }
    count
}

proof fn lemma_iter_plans_len(body: Body, m: nat)
    ensures
        iter_plans(body, m).len() <= m,
    decreases m,
{
    if m > 0 {
        lemma_iter_plans_len(body, (m - 1) as nat);
    }
}

/// Rewrites the iterator chains of a body: first the `.iter().sum()`,
/// `.iter().product()` and `.iter().count()` chains on slices (see
/// `iter_plan_at` and `iter_plan_applies`), then, in the body so rewritten,
/// the `(start..end).sum()` and `.product()` chains (see `range_plan_at`
/// and `range_plan_applies`). Returns how many chains it rewrote (at most
/// `usize::MAX`). A body that a gate refuses is left as it is.
pub fn try_transform_iterator_methods(
    body: &mut Body,
    gates: &IterTransformGates,
    facts: &Vec<crate::combinators::CallFacts>,
) -> (n: usize)
    requires
        facts@.len() == old(body).num_blocks(),
    ensures
        iter_gate_refuses(*old(body), *gates) ==> *final(body) == *old(body) && n == 0,
        !iter_gate_refuses(*old(body), *gates) ==> exists|mid: Body, mid2: Body|
            {
                &&& iter_rewrite(
                    *old(body),
                    mid,
                    iter_plans(*old(body), old(body).basic_blocks@.len()),
                    gates.overflow_checks,
                    gates.available_helpers@,
                )
                &&& range_rewrite(mid, mid2, range_plans(mid, mid.basic_blocks@.len()), gates.available_helpers@)
                &&& crate::map_methods::maps_applied(
                    mid2,
                    *final(body),
                    mid2,
                    crate::map_methods::map_plans(mid2, facts@, mid2.num_blocks()),
                    gates.dyn_helpers_take_two,
                    gates.available_helpers@,
                )
                &&& n == vstd::math::min(
                    applied_count(
                        iter_plans(*old(body), old(body).basic_blocks@.len()),
                        gates.overflow_checks,
                        gates.available_helpers@,
                    ) + range_applied_count(range_plans(mid, mid.basic_blocks@.len()), gates.available_helpers@)
                        + crate::map_methods::map_count(
                        crate::map_methods::map_plans(mid2, facts@, mid2.num_blocks()),
                        gates.dyn_helpers_take_two,
                        gates.available_helpers@,
                    ) as int,
                    usize::MAX as int,
                )
            },
{
    if iter_gates_refuse(body, gates) {
        return 0;
    }
    let a = rewrite_slice_chains(body, gates);
    let ghost mid = *body;
    let b = try_transform_range_iterator_methods(body, &gates.available_helpers);
    let ghost mid2 = *body;
    let c = crate::map_methods::try_transform_map_iterator_methods(
        body,
        gates.dyn_helpers_take_two,
        &gates.available_helpers,
        facts,
    );
    let n = a.saturating_add(b).saturating_add(c);
    assert(iter_rewrite(
        *old(body),
        mid,
        iter_plans(*old(body), old(body).basic_blocks@.len()),
        gates.overflow_checks,
        gates.available_helpers@,
    ));
    assert(range_rewrite(mid, mid2, range_plans(mid, mid.basic_blocks@.len()), gates.available_helpers@));
    n
}

} // verus!
