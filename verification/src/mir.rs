//! A plain-value model of the parts of a MIR body that the analyses read:
//! basic blocks, their statements and terminators, places, operands and
//! right-hand sides. Block and local indices are plain `usize` values.
use vstd::prelude::*;
use crate::idioms::ScalarTy;

verus! {

/// What happens when a terminator unwinds.
#[derive(Clone, Copy, PartialEq, Eq, Debug, Structural)]
pub enum UnwindAction {
    Continue,
    Unreachable,
    Terminate,
    /// Unwinding continues in the given cleanup block.
    Cleanup(usize),
}

/// One projection step of a place.
#[derive(Clone, Copy, PartialEq, Eq, Debug, Structural)]
pub enum ProjectionElem {
    Deref,
    Field(usize),
    /// Indexing by the value of a local.
    Index(usize),
    /// Viewing an enum as one of its variants.
    Downcast(usize),
    Other,
}

/// A local with a (possibly empty) projection path.
#[derive(Clone, Debug)]
pub struct Place {
    pub local: usize,
    pub projection: Vec<ProjectionElem>,
}

/// A constant operand: a scalar with its raw bits and width, a reference to
/// a function item (by its printed definition path), or anything else.
#[derive(Clone, Debug)]
pub enum Const {
    Scalar { bits: u128, size_bits: u32 },
    FnDef { path: String },
    Other,
}

#[derive(Clone, Debug)]
pub enum Operand {
    Copy(Place),
    Move(Place),
    Constant(Const),
}

/// Binary operators of MIR.
#[derive(Clone, Copy, PartialEq, Eq, Debug, Structural)]
pub enum BinOp {
    Add,
    AddUnchecked,
    AddWithOverflow,
    Sub,
    SubUnchecked,
    SubWithOverflow,
    Mul,
    MulUnchecked,
    MulWithOverflow,
    Div,
    Rem,
    BitXor,
    BitAnd,
    BitOr,
    Shl,
    ShlUnchecked,
    Shr,
    ShrUnchecked,
    Eq,
    Lt,
    Le,
    Ne,
    Ge,
    Gt,
    Cmp,
    Offset,
}

#[derive(Clone, Copy, PartialEq, Eq, Debug, Structural)]
pub enum UnOp {
    Not,
    Neg,
    PtrMetadata,
}

#[derive(Clone, Copy, PartialEq, Eq, Debug, Structural)]
pub enum BorrowKind {
    Shared,
    Fake,
    Mut,
}

/// What an aggregate builds: a value of an ADT, by its printed definition
/// path, with the first type among its generic arguments when that is a
/// scalar; or anything else.
#[derive(Clone, Debug)]
pub enum AggregateKind {
    Adt { path: String, first_ty: Option<ScalarTy> },
    Other,
}

/// Right-hand side of an assignment.
#[derive(Clone, Debug)]
pub enum Rvalue {
    Use(Operand),
    Repeat(Operand),
    Ref(BorrowKind, Place),
    ThreadLocalRef,
    RawPtr(Place),
    Cast(Operand),
    BinaryOp(BinOp, Operand, Operand),
    UnaryOp(UnOp, Operand),
    Discriminant(Place),
    Aggregate(AggregateKind, Vec<Operand>),
    ShallowInitBox(Operand),
    CopyForDeref(Place),
    WrapUnsafeBinder(Operand),
}

/// Statement kinds of MIR.
#[derive(Clone, Debug)]
pub enum StatementKind {
    Assign(Place, Rvalue),
    FakeRead,
    SetDiscriminant,
    StorageLive(usize),
    StorageDead(usize),
    Retag,
    PlaceMention,
    AscribeUserType,
    Coverage,
    Intrinsic,
    ConstEvalCounter,
    Nop,
    BackwardIncompatibleDropHint,
}

/// Terminator kinds of MIR, with the block indices they lead to.
#[derive(Clone, Debug)]
pub enum TerminatorKind {
    Goto { target: usize },
    /// Switch on the value of `discr`; `targets` holds the (value, block)
    /// pairs in order.
    SwitchInt { discr: Operand, targets: Vec<(u128, usize)>, otherwise: usize },
    UnwindResume,
    UnwindTerminate,
    Return,
    Unreachable,
    Drop { target: usize, unwind: UnwindAction },
    Call {
        func: Operand,
        args: Vec<Operand>,
        destination: Place,
        target: Option<usize>,
        unwind: UnwindAction,
    },
    TailCall,
    Assert { target: usize, unwind: UnwindAction },
    Yield { resume: usize, drop: Option<usize> },
    CoroutineDrop,
    FalseEdge { real_target: usize, imaginary_target: usize },
    FalseUnwind { real_target: usize, unwind: UnwindAction },
    InlineAsm { targets: Vec<usize>, unwind: UnwindAction },
}

/// A basic block: its statements and its terminator (absent only while a
/// body is under construction).
#[derive(Clone, Debug)]
pub struct BasicBlockData {
    pub statements: Vec<StatementKind>,
    pub terminator: Option<TerminatorKind>,
}

/// The type of a local, as far as the matchers tell types apart.
#[derive(Clone, Copy, PartialEq, Eq, Debug, Structural)]
pub enum LocalTy {
    /// A primitive scalar.
    Scalar(ScalarTy),
    /// A shared (or, when `mutable`, unique) reference to a slice of
    /// scalars.
    RefSlice { elem: ScalarTy, mutable: bool },
    /// A shared (or, when `mutable`, unique) reference to a `Vec` of
    /// scalars (an ADT whose printed path is `Vec` or ends in `::Vec`).
    RefVec { elem: ScalarTy, mutable: bool },
    /// A `HashMap` with two type arguments (a key and a value type), or a
    /// reference to one.
    HashMap,
    /// Any other type.
    Other,
}

/// A function body: its basic blocks (block 0 is the start block), the
/// number of arguments (locals `1..=arg_count`; local 0 is the return place),
/// and the types of its locals.
#[derive(Clone, Debug)]
pub struct Body {
    pub basic_blocks: Vec<BasicBlockData>,
    pub arg_count: usize,
    pub local_tys: Vec<LocalTy>,
}

/// The type of local `l` (`Other` for a local the body does not declare).
pub open spec fn local_ty(body: Body, l: usize) -> LocalTy {
    if l < body.local_tys@.len() {
        body.local_tys@[l as int]
    } else {
        LocalTy::Other
    }
}

/// The type of local `l`.
pub fn local_ty_of(body: &Body, l: usize) -> (r: LocalTy)
    ensures
        r == local_ty(*body, l),
{
    if l < body.local_tys.len() {
        body.local_tys[l]
    } else {
        LocalTy::Other
    }
}

pub open spec fn unwind_target_ok(u: UnwindAction, n: nat) -> bool {
    match u {
        UnwindAction::Cleanup(b) => b < n,
        _ => true,
    }
}

/// Every block index that the terminator names is below `n`.
pub open spec fn terminator_targets_ok(k: TerminatorKind, n: nat) -> bool {
    match k {
        TerminatorKind::Goto { target } => target < n,
        TerminatorKind::SwitchInt { targets, otherwise, .. } => {
            &&& otherwise < n
            &&& forall|i: int| 0 <= i < targets@.len() ==> (#[trigger] targets@[i]).1 < n
        },
        TerminatorKind::Drop { target, unwind } => target < n && unwind_target_ok(unwind, n),
        TerminatorKind::Call { target, unwind, .. } => {
            &&& (target matches Some(t) ==> t < n)
            &&& unwind_target_ok(unwind, n)
        },
        TerminatorKind::Assert { target, unwind } => target < n && unwind_target_ok(unwind, n),
        TerminatorKind::Yield { resume, drop } => resume < n && (drop matches Some(d) ==> d < n),
        TerminatorKind::FalseEdge { real_target, imaginary_target } => real_target < n
            && imaginary_target < n,
        TerminatorKind::FalseUnwind { real_target, unwind } => real_target < n && unwind_target_ok(
            unwind,
            n,
        ),
        TerminatorKind::InlineAsm { targets, unwind } => {
            &&& unwind_target_ok(unwind, n)
            &&& forall|i: int| 0 <= i < targets@.len() ==> #[trigger] targets@[i] < n
        },
        _ => true,
    }
}

impl Body {
    /// Number of basic blocks.
    pub open spec fn num_blocks(&self) -> nat {
        self.basic_blocks@.len()
    }

    /// The body has a start block and every terminator names existing blocks.
    pub open spec fn targets_valid(&self) -> bool {
        &&& self.basic_blocks@.len() >= 1
        &&& forall|i: int|
            0 <= i < self.basic_blocks@.len() ==> match (#[trigger] self.basic_blocks@[i]).terminator {
                Some(k) => terminator_targets_ok(k, self.basic_blocks@.len()),
                None => true,
            }
    }

    /// Every block has its terminator.
    pub open spec fn all_terminated(&self) -> bool {
        forall|i: int|
            0 <= i < self.basic_blocks@.len() ==> (#[trigger] self.basic_blocks@[i]).terminator
                is Some
    }
}

/// The value of `a OP b` on 64-bit unsigned values, for the operators that
/// give a value of their operands' type (arithmetic wraps; for an
/// overflow-checked operator, the value part of its result).
pub open spec fn binop_value(bo: BinOp, a: u64, b: u64) -> Option<u64> {
    match bo {
        BinOp::Add | BinOp::AddUnchecked | BinOp::AddWithOverflow => Some(
            ((a + b) % 0x1_0000_0000_0000_0000) as u64,
        ),
        BinOp::Sub | BinOp::SubUnchecked | BinOp::SubWithOverflow => Some(
            ((a - b) % 0x1_0000_0000_0000_0000) as u64,
        ),
        BinOp::Mul | BinOp::MulUnchecked | BinOp::MulWithOverflow => Some(
            ((a * b) % 0x1_0000_0000_0000_0000) as u64,
        ),
        BinOp::BitAnd => Some(a & b),
        BinOp::BitOr => Some(a | b),
        BinOp::BitXor => Some(a ^ b),
        _ => None,
    }
}

} // verus!
