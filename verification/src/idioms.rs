//! The reduction, apply and invoke helpers of the parallel runtime that the
//! idiom matchers target, named by operation and element type, and the
//! allowlists that the matchers consult.
use vstd::prelude::*;
use crate::mir::BinOp;
use crate::text::{str_eq, last_path_segment, last_segment, decimal, digit_char, ends_with_text};
use vstd::arithmetic::power2::{pow2, lemma2_to64, lemma2_to64_rest};

verus! {

/// One supported accumulator type.
#[derive(Debug, Clone, Copy, PartialEq, Eq, Structural)]
pub enum AccTyTag {
    U32,
    U64,
    I32,
    I64,
    Usize,
    Isize,
    F64,
}

/// Supported reduction op, associative and commutative.
#[derive(Debug, Clone, Copy, PartialEq, Eq, Structural)]
pub enum ReduceOp {
    Add,
    Mul,
    BitAnd,
    BitOr,
    BitXor,
    Min,
    Max,
}

/// Floating-point element type of the apply helpers.
#[derive(Debug, Clone, Copy, PartialEq, Eq, Structural)]
pub enum FloatTy {
    F64,
}

/// Primitive scalar types of MIR.
#[derive(Debug, Clone, Copy, PartialEq, Eq, Structural)]
pub enum ScalarTy {
    U8,
    U16,
    U32,
    U64,
    U128,
    Usize,
    I8,
    I16,
    I32,
    I64,
    I128,
    Isize,
    F16,
    F32,
    F64,
    F128,
    Other,
}

/// The type's name as it appears in helper names.
pub open spec fn tag_word(tag: AccTyTag) -> Seq<char> {
    match tag {
        AccTyTag::U32 => "u32"@,
        AccTyTag::U64 => "u64"@,
        AccTyTag::I32 => "i32"@,
        AccTyTag::I64 => "i64"@,
        AccTyTag::Usize => "usize"@,
        AccTyTag::Isize => "isize"@,
        AccTyTag::F64 => "f64"@,
    }
}

/// The operation's name as it appears in helper names.
pub open spec fn op_word(op: ReduceOp) -> Seq<char> {
    match op {
        ReduceOp::Add => "add"@,
        ReduceOp::Mul => "mul"@,
        ReduceOp::BitAnd => "and"@,
        ReduceOp::BitOr => "or"@,
        ReduceOp::BitXor => "xor"@,
        ReduceOp::Min => "min"@,
        ReduceOp::Max => "max"@,
    }
}

/// One of the four narrow integer types that every helper family covers.
pub open spec fn is_narrow_int(tag: AccTyTag) -> bool {
    tag == AccTyTag::U64 || tag == AccTyTag::U32 || tag == AccTyTag::I64 || tag == AccTyTag::I32
}

/// Width of the type in bits.
pub open spec fn width_spec(tag: AccTyTag) -> nat {
    match tag {
        AccTyTag::U32 | AccTyTag::I32 => 32,
        _ => 64,
    }
}

/// The type is a signed integer.
pub open spec fn is_signed(tag: AccTyTag) -> bool {
    tag == AccTyTag::I32 || tag == AccTyTag::I64 || tag == AccTyTag::Isize
}

/// Bit pattern of the identity element of `op` on values of type `tag`:
/// 0 for sums, or and xor; 1 for products (the bits of 1.0 for `f64`);
/// all ones for and; the type's maximum for min and its minimum (two's
/// complement bits) for max.
pub open spec fn identity_spec(op: ReduceOp, tag: AccTyTag) -> int {
    let w = width_spec(tag);
    match op {
        ReduceOp::Add | ReduceOp::BitOr | ReduceOp::BitXor => 0,
        ReduceOp::Mul => if tag == AccTyTag::F64 {
            0x3FF0_0000_0000_0000
        } else {
            1
        },
        ReduceOp::BitAnd => pow2(w) - 1,
        ReduceOp::Min => if is_signed(tag) {
            pow2((w - 1) as nat) - 1
        } else {
            pow2(w) - 1
        },
        ReduceOp::Max => if is_signed(tag) {
            pow2((w - 1) as nat) as int
        } else {
            0
        },
    }
}

/// Name of the index-form reduce helper: empty for floats, which have none.
pub open spec fn reduce_helper_name(op: ReduceOp, tag: AccTyTag) -> Seq<char> {
    if tag == AccTyTag::F64 {
        Seq::empty()
    } else {
        "parallel_runtime_parallel_reduce_"@ + op_word(op) + "_"@ + tag_word(tag)
    }
}

impl ReduceOp {
    /// Identity element bits; the accumulator's init must match it.
    pub fn identity_bits(self, tag: AccTyTag) -> (r: u128)
        ensures
            r == identity_spec(self, tag),
    {
        let width: u32 = match tag {
            AccTyTag::U32 | AccTyTag::I32 => 32,
            AccTyTag::U64 | AccTyTag::I64 | AccTyTag::Usize | AccTyTag::Isize | AccTyTag::F64 => 64,
        };
        proof {
            lemma2_to64();
            lemma2_to64_rest();
            if width == 32 {
                assert((1u128 << 32u32) == 0x1_0000_0000u128) by (bit_vector);
                assert((1u128 << 31u32) == 0x8000_0000u128) by (bit_vector);
            } else {
                assert((1u128 << 64u32) == 0x1_0000_0000_0000_0000u128) by (bit_vector);
                assert((1u128 << 63u32) == 0x8000_0000_0000_0000u128) by (bit_vector);
            }
        }
        let mask: u128 = if width == 128 {
            u128::MAX
        } else {
            (1u128 << width) - 1
        };
        let signed = matches!(tag, AccTyTag::I32 | AccTyTag::I64 | AccTyTag::Isize);
        match self {
            ReduceOp::Add | ReduceOp::BitOr | ReduceOp::BitXor => 0,
            ReduceOp::Mul => {
                if tag == AccTyTag::F64 {
                    return 0x3FF0_0000_0000_0000;
                }
                proof {
                    if width == 32 {
                        assert(1u128 & 0xffff_ffffu128 == 1u128) by (bit_vector);
                    } else {
                        assert(1u128 & 0xffff_ffff_ffff_ffffu128 == 1u128) by (bit_vector);
                    }
                }
                1 & mask
            },
            // all-ones bit pattern of the type
            ReduceOp::BitAnd => mask,
            // Min identity is T::MAX
            ReduceOp::Min => {
                if signed {
                    (1u128 << (width - 1)) - 1
                } else {
                    mask
                }
            },
            // Max identity is T::MIN
            ReduceOp::Max => {
                if signed {
                    1u128 << (width - 1)
                } else {
                    0
                }
            },
        }
    }

    /// Diagnostic item of the matching runtime reduce helper; the empty
    /// string for floats, which have no index-form helper.
    pub fn helper_diag_item(self, tag: AccTyTag) -> (r: &'static str)
        ensures
            r@ == reduce_helper_name(self, tag),
    {
        match (self, tag) {
            (ReduceOp::Add, AccTyTag::U32) => {
                proof {
                    reveal_strlit("parallel_runtime_parallel_reduce_add_u32");
                    reveal_strlit("parallel_runtime_parallel_reduce_");
                    reveal_strlit("add");
                    reveal_strlit("_");
                    reveal_strlit("u32");
                }
                "parallel_runtime_parallel_reduce_add_u32"
            },
            (ReduceOp::Add, AccTyTag::U64) => {
                proof {
                    reveal_strlit("parallel_runtime_parallel_reduce_add_u64");
                    reveal_strlit("parallel_runtime_parallel_reduce_");
                    reveal_strlit("add");
                    reveal_strlit("_");
                    reveal_strlit("u64");
                }
                "parallel_runtime_parallel_reduce_add_u64"
            },
            (ReduceOp::Add, AccTyTag::I32) => {
                proof {
                    reveal_strlit("parallel_runtime_parallel_reduce_add_i32");
                    reveal_strlit("parallel_runtime_parallel_reduce_");
                    reveal_strlit("add");
                    reveal_strlit("_");
                    reveal_strlit("i32");
                }
                "parallel_runtime_parallel_reduce_add_i32"
            },
            (ReduceOp::Add, AccTyTag::I64) => {
                proof {
                    reveal_strlit("parallel_runtime_parallel_reduce_add_i64");
                    reveal_strlit("parallel_runtime_parallel_reduce_");
                    reveal_strlit("add");
                    reveal_strlit("_");
                    reveal_strlit("i64");
                }
                "parallel_runtime_parallel_reduce_add_i64"
            },
            (ReduceOp::Add, AccTyTag::Usize) => {
                proof {
                    reveal_strlit("parallel_runtime_parallel_reduce_add_usize");
                    reveal_strlit("parallel_runtime_parallel_reduce_");
                    reveal_strlit("add");
                    reveal_strlit("_");
                    reveal_strlit("usize");
                }
                "parallel_runtime_parallel_reduce_add_usize"
            },
            (ReduceOp::Add, AccTyTag::Isize) => {
                proof {
                    reveal_strlit("parallel_runtime_parallel_reduce_add_isize");
                    reveal_strlit("parallel_runtime_parallel_reduce_");
                    reveal_strlit("add");
                    reveal_strlit("_");
                    reveal_strlit("isize");
                }
                "parallel_runtime_parallel_reduce_add_isize"
            },
            (ReduceOp::Mul, AccTyTag::U32) => {
                proof {
                    reveal_strlit("parallel_runtime_parallel_reduce_mul_u32");
                    reveal_strlit("parallel_runtime_parallel_reduce_");
                    reveal_strlit("mul");
                    reveal_strlit("_");
                    reveal_strlit("u32");
                }
                "parallel_runtime_parallel_reduce_mul_u32"
            },
            (ReduceOp::Mul, AccTyTag::U64) => {
                proof {
                    reveal_strlit("parallel_runtime_parallel_reduce_mul_u64");
                    reveal_strlit("parallel_runtime_parallel_reduce_");
                    reveal_strlit("mul");
                    reveal_strlit("_");
                    reveal_strlit("u64");
                }
                "parallel_runtime_parallel_reduce_mul_u64"
            },
            (ReduceOp::Mul, AccTyTag::I32) => {
                proof {
                    reveal_strlit("parallel_runtime_parallel_reduce_mul_i32");
                    reveal_strlit("parallel_runtime_parallel_reduce_");
                    reveal_strlit("mul");
                    reveal_strlit("_");
                    reveal_strlit("i32");
                }
                "parallel_runtime_parallel_reduce_mul_i32"
            },
            (ReduceOp::Mul, AccTyTag::I64) => {
                proof {
                    reveal_strlit("parallel_runtime_parallel_reduce_mul_i64");
                    reveal_strlit("parallel_runtime_parallel_reduce_");
                    reveal_strlit("mul");
                    reveal_strlit("_");
                    reveal_strlit("i64");
                }
                "parallel_runtime_parallel_reduce_mul_i64"
            },
            (ReduceOp::Mul, AccTyTag::Usize) => {
                proof {
                    reveal_strlit("parallel_runtime_parallel_reduce_mul_usize");
                    reveal_strlit("parallel_runtime_parallel_reduce_");
                    reveal_strlit("mul");
                    reveal_strlit("_");
                    reveal_strlit("usize");
                }
                "parallel_runtime_parallel_reduce_mul_usize"
            },
            (ReduceOp::Mul, AccTyTag::Isize) => {
                proof {
                    reveal_strlit("parallel_runtime_parallel_reduce_mul_isize");
                    reveal_strlit("parallel_runtime_parallel_reduce_");
                    reveal_strlit("mul");
                    reveal_strlit("_");
                    reveal_strlit("isize");
                }
                "parallel_runtime_parallel_reduce_mul_isize"
            },
            (ReduceOp::BitAnd, AccTyTag::U32) => {
                proof {
                    reveal_strlit("parallel_runtime_parallel_reduce_and_u32");
                    reveal_strlit("parallel_runtime_parallel_reduce_");
                    reveal_strlit("and");
                    reveal_strlit("_");
                    reveal_strlit("u32");
                }
                "parallel_runtime_parallel_reduce_and_u32"
            },
            (ReduceOp::BitAnd, AccTyTag::U64) => {
                proof {
                    reveal_strlit("parallel_runtime_parallel_reduce_and_u64");
                    reveal_strlit("parallel_runtime_parallel_reduce_");
                    reveal_strlit("and");
                    reveal_strlit("_");
                    reveal_strlit("u64");
                }
                "parallel_runtime_parallel_reduce_and_u64"
            },
            (ReduceOp::BitAnd, AccTyTag::I32) => {
                proof {
                    reveal_strlit("parallel_runtime_parallel_reduce_and_i32");
                    reveal_strlit("parallel_runtime_parallel_reduce_");
                    reveal_strlit("and");
                    reveal_strlit("_");
                    reveal_strlit("i32");
                }
                "parallel_runtime_parallel_reduce_and_i32"
            },
            (ReduceOp::BitAnd, AccTyTag::I64) => {
                proof {
                    reveal_strlit("parallel_runtime_parallel_reduce_and_i64");
                    reveal_strlit("parallel_runtime_parallel_reduce_");
                    reveal_strlit("and");
                    reveal_strlit("_");
                    reveal_strlit("i64");
                }
                "parallel_runtime_parallel_reduce_and_i64"
            },
            (ReduceOp::BitAnd, AccTyTag::Usize) => {
                proof {
                    reveal_strlit("parallel_runtime_parallel_reduce_and_usize");
                    reveal_strlit("parallel_runtime_parallel_reduce_");
                    reveal_strlit("and");
                    reveal_strlit("_");
                    reveal_strlit("usize");
                }
                "parallel_runtime_parallel_reduce_and_usize"
            },
            (ReduceOp::BitAnd, AccTyTag::Isize) => {
                proof {
                    reveal_strlit("parallel_runtime_parallel_reduce_and_isize");
                    reveal_strlit("parallel_runtime_parallel_reduce_");
                    reveal_strlit("and");
                    reveal_strlit("_");
                    reveal_strlit("isize");
                }
                "parallel_runtime_parallel_reduce_and_isize"
            },
            (ReduceOp::BitOr, AccTyTag::U32) => {
                proof {
                    reveal_strlit("parallel_runtime_parallel_reduce_or_u32");
                    reveal_strlit("parallel_runtime_parallel_reduce_");
                    reveal_strlit("or");
                    reveal_strlit("_");
                    reveal_strlit("u32");
                }
                "parallel_runtime_parallel_reduce_or_u32"
            },
            (ReduceOp::BitOr, AccTyTag::U64) => {
                proof {
                    reveal_strlit("parallel_runtime_parallel_reduce_or_u64");
                    reveal_strlit("parallel_runtime_parallel_reduce_");
                    reveal_strlit("or");
                    reveal_strlit("_");
                    reveal_strlit("u64");
                }
                "parallel_runtime_parallel_reduce_or_u64"
            },
            (ReduceOp::BitOr, AccTyTag::I32) => {
                proof {
                    reveal_strlit("parallel_runtime_parallel_reduce_or_i32");
                    reveal_strlit("parallel_runtime_parallel_reduce_");
                    reveal_strlit("or");
                    reveal_strlit("_");
                    reveal_strlit("i32");
                }
                "parallel_runtime_parallel_reduce_or_i32"
            },
            (ReduceOp::BitOr, AccTyTag::I64) => {
                proof {
                    reveal_strlit("parallel_runtime_parallel_reduce_or_i64");
                    reveal_strlit("parallel_runtime_parallel_reduce_");
                    reveal_strlit("or");
                    reveal_strlit("_");
                    reveal_strlit("i64");
                }
                "parallel_runtime_parallel_reduce_or_i64"
            },
            (ReduceOp::BitOr, AccTyTag::Usize) => {
                proof {
                    reveal_strlit("parallel_runtime_parallel_reduce_or_usize");
                    reveal_strlit("parallel_runtime_parallel_reduce_");
                    reveal_strlit("or");
                    reveal_strlit("_");
                    reveal_strlit("usize");
                }
                "parallel_runtime_parallel_reduce_or_usize"
            },
            (ReduceOp::BitOr, AccTyTag::Isize) => {
                proof {
                    reveal_strlit("parallel_runtime_parallel_reduce_or_isize");
                    reveal_strlit("parallel_runtime_parallel_reduce_");
                    reveal_strlit("or");
                    reveal_strlit("_");
                    reveal_strlit("isize");
                }
                "parallel_runtime_parallel_reduce_or_isize"
            },
            (ReduceOp::BitXor, AccTyTag::U32) => {
                proof {
                    reveal_strlit("parallel_runtime_parallel_reduce_xor_u32");
                    reveal_strlit("parallel_runtime_parallel_reduce_");
                    reveal_strlit("xor");
                    reveal_strlit("_");
                    reveal_strlit("u32");
                }
                "parallel_runtime_parallel_reduce_xor_u32"
            },
            (ReduceOp::BitXor, AccTyTag::U64) => {
                proof {
                    reveal_strlit("parallel_runtime_parallel_reduce_xor_u64");
                    reveal_strlit("parallel_runtime_parallel_reduce_");
                    reveal_strlit("xor");
                    reveal_strlit("_");
                    reveal_strlit("u64");
                }
                "parallel_runtime_parallel_reduce_xor_u64"
            },
            (ReduceOp::BitXor, AccTyTag::I32) => {
                proof {
                    reveal_strlit("parallel_runtime_parallel_reduce_xor_i32");
                    reveal_strlit("parallel_runtime_parallel_reduce_");
                    reveal_strlit("xor");
                    reveal_strlit("_");
                    reveal_strlit("i32");
                }
                "parallel_runtime_parallel_reduce_xor_i32"
            },
            (ReduceOp::BitXor, AccTyTag::I64) => {
                proof {
                    reveal_strlit("parallel_runtime_parallel_reduce_xor_i64");
                    reveal_strlit("parallel_runtime_parallel_reduce_");
                    reveal_strlit("xor");
                    reveal_strlit("_");
                    reveal_strlit("i64");
                }
                "parallel_runtime_parallel_reduce_xor_i64"
            },
            (ReduceOp::BitXor, AccTyTag::Usize) => {
                proof {
                    reveal_strlit("parallel_runtime_parallel_reduce_xor_usize");
                    reveal_strlit("parallel_runtime_parallel_reduce_");
                    reveal_strlit("xor");
                    reveal_strlit("_");
                    reveal_strlit("usize");
                }
                "parallel_runtime_parallel_reduce_xor_usize"
            },
            (ReduceOp::BitXor, AccTyTag::Isize) => {
                proof {
                    reveal_strlit("parallel_runtime_parallel_reduce_xor_isize");
                    reveal_strlit("parallel_runtime_parallel_reduce_");
                    reveal_strlit("xor");
                    reveal_strlit("_");
                    reveal_strlit("isize");
                }
                "parallel_runtime_parallel_reduce_xor_isize"
            },
            (ReduceOp::Min, AccTyTag::U32) => {
                proof {
                    reveal_strlit("parallel_runtime_parallel_reduce_min_u32");
                    reveal_strlit("parallel_runtime_parallel_reduce_");
                    reveal_strlit("min");
                    reveal_strlit("_");
                    reveal_strlit("u32");
                }
                "parallel_runtime_parallel_reduce_min_u32"
            },
            (ReduceOp::Min, AccTyTag::U64) => {
                proof {
                    reveal_strlit("parallel_runtime_parallel_reduce_min_u64");
                    reveal_strlit("parallel_runtime_parallel_reduce_");
                    reveal_strlit("min");
                    reveal_strlit("_");
                    reveal_strlit("u64");
                }
                "parallel_runtime_parallel_reduce_min_u64"
            },
            (ReduceOp::Min, AccTyTag::I32) => {
                proof {
                    reveal_strlit("parallel_runtime_parallel_reduce_min_i32");
                    reveal_strlit("parallel_runtime_parallel_reduce_");
                    reveal_strlit("min");
                    reveal_strlit("_");
                    reveal_strlit("i32");
                }
                "parallel_runtime_parallel_reduce_min_i32"
            },
            (ReduceOp::Min, AccTyTag::I64) => {
                proof {
                    reveal_strlit("parallel_runtime_parallel_reduce_min_i64");
                    reveal_strlit("parallel_runtime_parallel_reduce_");
                    reveal_strlit("min");
                    reveal_strlit("_");
                    reveal_strlit("i64");
                }
                "parallel_runtime_parallel_reduce_min_i64"
            },
            (ReduceOp::Min, AccTyTag::Usize) => {
                proof {
                    reveal_strlit("parallel_runtime_parallel_reduce_min_usize");
                    reveal_strlit("parallel_runtime_parallel_reduce_");
                    reveal_strlit("min");
                    reveal_strlit("_");
                    reveal_strlit("usize");
                }
                "parallel_runtime_parallel_reduce_min_usize"
            },
            (ReduceOp::Min, AccTyTag::Isize) => {
                proof {
                    reveal_strlit("parallel_runtime_parallel_reduce_min_isize");
                    reveal_strlit("parallel_runtime_parallel_reduce_");
                    reveal_strlit("min");
                    reveal_strlit("_");
                    reveal_strlit("isize");
                }
                "parallel_runtime_parallel_reduce_min_isize"
            },
            (ReduceOp::Max, AccTyTag::U32) => {
                proof {
                    reveal_strlit("parallel_runtime_parallel_reduce_max_u32");
                    reveal_strlit("parallel_runtime_parallel_reduce_");
                    reveal_strlit("max");
                    reveal_strlit("_");
                    reveal_strlit("u32");
                }
                "parallel_runtime_parallel_reduce_max_u32"
            },
            (ReduceOp::Max, AccTyTag::U64) => {
                proof {
                    reveal_strlit("parallel_runtime_parallel_reduce_max_u64");
                    reveal_strlit("parallel_runtime_parallel_reduce_");
                    reveal_strlit("max");
                    reveal_strlit("_");
                    reveal_strlit("u64");
                }
                "parallel_runtime_parallel_reduce_max_u64"
            },
            (ReduceOp::Max, AccTyTag::I32) => {
                proof {
                    reveal_strlit("parallel_runtime_parallel_reduce_max_i32");
                    reveal_strlit("parallel_runtime_parallel_reduce_");
                    reveal_strlit("max");
                    reveal_strlit("_");
                    reveal_strlit("i32");
                }
                "parallel_runtime_parallel_reduce_max_i32"
            },
            (ReduceOp::Max, AccTyTag::I64) => {
                proof {
                    reveal_strlit("parallel_runtime_parallel_reduce_max_i64");
                    reveal_strlit("parallel_runtime_parallel_reduce_");
                    reveal_strlit("max");
                    reveal_strlit("_");
                    reveal_strlit("i64");
                }
                "parallel_runtime_parallel_reduce_max_i64"
            },
            (ReduceOp::Max, AccTyTag::Usize) => {
                proof {
                    reveal_strlit("parallel_runtime_parallel_reduce_max_usize");
                    reveal_strlit("parallel_runtime_parallel_reduce_");
                    reveal_strlit("max");
                    reveal_strlit("_");
                    reveal_strlit("usize");
                }
                "parallel_runtime_parallel_reduce_max_usize"
            },
            (ReduceOp::Max, AccTyTag::Isize) => {
                proof {
                    reveal_strlit("parallel_runtime_parallel_reduce_max_isize");
                    reveal_strlit("parallel_runtime_parallel_reduce_");
                    reveal_strlit("max");
                    reveal_strlit("_");
                    reveal_strlit("isize");
                }
                "parallel_runtime_parallel_reduce_max_isize"
            },
            // floats lack index-form helper; sentinel means no-op
            (_, AccTyTag::F64) => {
                proof {
                    reveal_strlit("");
                }
                ""
            },
        }
    }
}

impl AccTyTag {
    /// Native width in bits for this type.
    pub fn width_bits(self) -> (r: u32)
        ensures
            r == width_spec(self),
    {
        match self {
            AccTyTag::U32 | AccTyTag::I32 => 32,
            AccTyTag::U64 | AccTyTag::I64 | AccTyTag::Usize | AccTyTag::Isize | AccTyTag::F64 => 64,
        }
    }

    /// The accumulator type of a scalar type, if it is one.
    pub fn from_ty(t: ScalarTy) -> (r: Option<AccTyTag>)
        ensures
            r == match t {
                ScalarTy::U32 => Some(AccTyTag::U32),
                ScalarTy::U64 => Some(AccTyTag::U64),
                ScalarTy::Usize => Some(AccTyTag::Usize),
                ScalarTy::I32 => Some(AccTyTag::I32),
                ScalarTy::I64 => Some(AccTyTag::I64),
                ScalarTy::Isize => Some(AccTyTag::Isize),
                ScalarTy::F64 => Some(AccTyTag::F64),
                _ => None::<AccTyTag>,
            },
    {
        match t {
            ScalarTy::U32 => Some(AccTyTag::U32),
            ScalarTy::U64 => Some(AccTyTag::U64),
            ScalarTy::Usize => Some(AccTyTag::Usize),
            ScalarTy::I32 => Some(AccTyTag::I32),
            ScalarTy::I64 => Some(AccTyTag::I64),
            ScalarTy::Isize => Some(AccTyTag::Isize),
            ScalarTy::F64 => Some(AccTyTag::F64),
            _ => None,
        }
    }

    /// Is this the floating-point type?
    pub fn is_float(self) -> (r: bool)
        ensures
            r == (self == AccTyTag::F64),
    {
        matches!(self, AccTyTag::F64)
    }
}

/// The 2-way invoke helper for closures taking `arity` arguments, for
/// arities 0 to 20.
pub fn invoke_helper_name_for_arity(arity: usize) -> (r: Option<&'static str>)
    ensures
        r is Some <==> arity <= 20,
        r matches Some(s) ==> s@ == "parallel_runtime_parallel_invoke_2_fn"@ + decimal(arity as nat),
{
        match arity {
            0 => {
                proof {
                    reveal_strlit("parallel_runtime_parallel_invoke_2_fn0");
                    reveal_strlit("parallel_runtime_parallel_invoke_2_fn");
                    assert(decimal(0) =~= seq![digit_char(0)]);
                }
                Some("parallel_runtime_parallel_invoke_2_fn0")
            },
            1 => {
                proof {
                    reveal_strlit("parallel_runtime_parallel_invoke_2_fn1");
                    reveal_strlit("parallel_runtime_parallel_invoke_2_fn");
                    assert(decimal(1) =~= seq![digit_char(1)]);
                }
                Some("parallel_runtime_parallel_invoke_2_fn1")
            },
            2 => {
                proof {
                    reveal_strlit("parallel_runtime_parallel_invoke_2_fn2");
                    reveal_strlit("parallel_runtime_parallel_invoke_2_fn");
                    assert(decimal(2) =~= seq![digit_char(2)]);
                }
                Some("parallel_runtime_parallel_invoke_2_fn2")
            },
            3 => {
                proof {
                    reveal_strlit("parallel_runtime_parallel_invoke_2_fn3");
                    reveal_strlit("parallel_runtime_parallel_invoke_2_fn");
                    assert(decimal(3) =~= seq![digit_char(3)]);
                }
                Some("parallel_runtime_parallel_invoke_2_fn3")
            },
            4 => {
                proof {
                    reveal_strlit("parallel_runtime_parallel_invoke_2_fn4");
                    reveal_strlit("parallel_runtime_parallel_invoke_2_fn");
                    assert(decimal(4) =~= seq![digit_char(4)]);
                }
                Some("parallel_runtime_parallel_invoke_2_fn4")
            },
            5 => {
                proof {
                    reveal_strlit("parallel_runtime_parallel_invoke_2_fn5");
                    reveal_strlit("parallel_runtime_parallel_invoke_2_fn");
                    assert(decimal(5) =~= seq![digit_char(5)]);
                }
                Some("parallel_runtime_parallel_invoke_2_fn5")
            },
            6 => {
                proof {
                    reveal_strlit("parallel_runtime_parallel_invoke_2_fn6");
                    reveal_strlit("parallel_runtime_parallel_invoke_2_fn");
                    assert(decimal(6) =~= seq![digit_char(6)]);
                }
                Some("parallel_runtime_parallel_invoke_2_fn6")
            },
            7 => {
                proof {
                    reveal_strlit("parallel_runtime_parallel_invoke_2_fn7");
                    reveal_strlit("parallel_runtime_parallel_invoke_2_fn");
                    assert(decimal(7) =~= seq![digit_char(7)]);
                }
                Some("parallel_runtime_parallel_invoke_2_fn7")
            },
            8 => {
                proof {
                    reveal_strlit("parallel_runtime_parallel_invoke_2_fn8");
                    reveal_strlit("parallel_runtime_parallel_invoke_2_fn");
                    assert(decimal(8) =~= seq![digit_char(8)]);
                }
                Some("parallel_runtime_parallel_invoke_2_fn8")
            },
            9 => {
                proof {
                    reveal_strlit("parallel_runtime_parallel_invoke_2_fn9");
                    reveal_strlit("parallel_runtime_parallel_invoke_2_fn");
                    assert(decimal(9) =~= seq![digit_char(9)]);
                }
                Some("parallel_runtime_parallel_invoke_2_fn9")
            },
            10 => {
                proof {
                    reveal_strlit("parallel_runtime_parallel_invoke_2_fn10");
                    reveal_strlit("parallel_runtime_parallel_invoke_2_fn");
                    assert(decimal(1) =~= seq![digit_char(1)]);
                    assert(decimal(10) =~= seq![digit_char(1), digit_char(0)]);
                }
                Some("parallel_runtime_parallel_invoke_2_fn10")
            },
            11 => {
                proof {
                    reveal_strlit("parallel_runtime_parallel_invoke_2_fn11");
                    reveal_strlit("parallel_runtime_parallel_invoke_2_fn");
                    assert(decimal(1) =~= seq![digit_char(1)]);
                    assert(decimal(11) =~= seq![digit_char(1), digit_char(1)]);
                }
                Some("parallel_runtime_parallel_invoke_2_fn11")
            },
            12 => {
                proof {
                    reveal_strlit("parallel_runtime_parallel_invoke_2_fn12");
                    reveal_strlit("parallel_runtime_parallel_invoke_2_fn");
                    assert(decimal(1) =~= seq![digit_char(1)]);
                    assert(decimal(12) =~= seq![digit_char(1), digit_char(2)]);
                }
                Some("parallel_runtime_parallel_invoke_2_fn12")
            },
            13 => {
                proof {
                    reveal_strlit("parallel_runtime_parallel_invoke_2_fn13");
                    reveal_strlit("parallel_runtime_parallel_invoke_2_fn");
                    assert(decimal(1) =~= seq![digit_char(1)]);
                    assert(decimal(13) =~= seq![digit_char(1), digit_char(3)]);
                }
                Some("parallel_runtime_parallel_invoke_2_fn13")
            },
            14 => {
                proof {
                    reveal_strlit("parallel_runtime_parallel_invoke_2_fn14");
                    reveal_strlit("parallel_runtime_parallel_invoke_2_fn");
                    assert(decimal(1) =~= seq![digit_char(1)]);
                    assert(decimal(14) =~= seq![digit_char(1), digit_char(4)]);
                }
                Some("parallel_runtime_parallel_invoke_2_fn14")
            },
            15 => {
                proof {
                    reveal_strlit("parallel_runtime_parallel_invoke_2_fn15");
                    reveal_strlit("parallel_runtime_parallel_invoke_2_fn");
                    assert(decimal(1) =~= seq![digit_char(1)]);
                    assert(decimal(15) =~= seq![digit_char(1), digit_char(5)]);
                }
                Some("parallel_runtime_parallel_invoke_2_fn15")
            },
            16 => {
                proof {
                    reveal_strlit("parallel_runtime_parallel_invoke_2_fn16");
                    reveal_strlit("parallel_runtime_parallel_invoke_2_fn");
                    assert(decimal(1) =~= seq![digit_char(1)]);
                    assert(decimal(16) =~= seq![digit_char(1), digit_char(6)]);
                }
                Some("parallel_runtime_parallel_invoke_2_fn16")
            },
            17 => {
                proof {
                    reveal_strlit("parallel_runtime_parallel_invoke_2_fn17");
                    reveal_strlit("parallel_runtime_parallel_invoke_2_fn");
                    assert(decimal(1) =~= seq![digit_char(1)]);
                    assert(decimal(17) =~= seq![digit_char(1), digit_char(7)]);
                }
                Some("parallel_runtime_parallel_invoke_2_fn17")
            },
            18 => {
                proof {
                    reveal_strlit("parallel_runtime_parallel_invoke_2_fn18");
                    reveal_strlit("parallel_runtime_parallel_invoke_2_fn");
                    assert(decimal(1) =~= seq![digit_char(1)]);
                    assert(decimal(18) =~= seq![digit_char(1), digit_char(8)]);
                }
                Some("parallel_runtime_parallel_invoke_2_fn18")
            },
            19 => {
                proof {
                    reveal_strlit("parallel_runtime_parallel_invoke_2_fn19");
                    reveal_strlit("parallel_runtime_parallel_invoke_2_fn");
                    assert(decimal(1) =~= seq![digit_char(1)]);
                    assert(decimal(19) =~= seq![digit_char(1), digit_char(9)]);
                }
                Some("parallel_runtime_parallel_invoke_2_fn19")
            },
            20 => {
                proof {
                    reveal_strlit("parallel_runtime_parallel_invoke_2_fn20");
                    reveal_strlit("parallel_runtime_parallel_invoke_2_fn");
                    assert(decimal(2) =~= seq![digit_char(2)]);
                    assert(decimal(20) =~= seq![digit_char(2), digit_char(0)]);
                }
                Some("parallel_runtime_parallel_invoke_2_fn20")
            },
            _ => None,
        }
}

/// Unary float methods that have a parallel apply helper.
pub open spec fn is_unary_apply_method(m: Seq<char>) -> bool {
    ||| m == "abs"@
    ||| m == "sqrt"@
    ||| m == "exp"@
    ||| m == "ln"@
    ||| m == "tanh"@
    ||| m == "sin"@
    ||| m == "cos"@
    ||| m == "recip"@
    ||| m == "floor"@
    ||| m == "ceil"@
    ||| m == "round"@
}

/// Binary float methods that have a parallel apply helper.
pub open spec fn is_binary_apply_method(m: Seq<char>) -> bool {
    ||| m == "max"@
    ||| m == "min"@
    ||| m == "copysign"@
    ||| m == "hypot"@
    ||| m == "atan2"@
    ||| m == "powf"@
}

/// The apply helper of a unary method on `f64` elements.
pub fn unary_helper_name(method: &str, fty: FloatTy) -> (r: Option<&'static str>)
    ensures
        r is Some <==> is_unary_apply_method(method@),
        r matches Some(s) ==> s@ == "parallel_runtime_parallel_apply_"@ + method@ + "_f64"@,
{
        if str_eq(method, "abs") {
            proof {
                reveal_strlit("parallel_runtime_parallel_apply_abs_f64");
                reveal_strlit("parallel_runtime_parallel_apply_");
                reveal_strlit("abs");
                reveal_strlit("_f64");
            }
            Some("parallel_runtime_parallel_apply_abs_f64")
        } else if str_eq(method, "sqrt") {
            proof {
                reveal_strlit("parallel_runtime_parallel_apply_sqrt_f64");
                reveal_strlit("parallel_runtime_parallel_apply_");
                reveal_strlit("sqrt");
                reveal_strlit("_f64");
            }
            Some("parallel_runtime_parallel_apply_sqrt_f64")
        } else if str_eq(method, "exp") {
            proof {
                reveal_strlit("parallel_runtime_parallel_apply_exp_f64");
                reveal_strlit("parallel_runtime_parallel_apply_");
                reveal_strlit("exp");
                reveal_strlit("_f64");
            }
            Some("parallel_runtime_parallel_apply_exp_f64")
        } else if str_eq(method, "ln") {
            proof {
                reveal_strlit("parallel_runtime_parallel_apply_ln_f64");
                reveal_strlit("parallel_runtime_parallel_apply_");
                reveal_strlit("ln");
                reveal_strlit("_f64");
            }
            Some("parallel_runtime_parallel_apply_ln_f64")
        } else if str_eq(method, "tanh") {
            proof {
                reveal_strlit("parallel_runtime_parallel_apply_tanh_f64");
                reveal_strlit("parallel_runtime_parallel_apply_");
                reveal_strlit("tanh");
                reveal_strlit("_f64");
            }
            Some("parallel_runtime_parallel_apply_tanh_f64")
        } else if str_eq(method, "sin") {
            proof {
                reveal_strlit("parallel_runtime_parallel_apply_sin_f64");
                reveal_strlit("parallel_runtime_parallel_apply_");
                reveal_strlit("sin");
                reveal_strlit("_f64");
            }
            Some("parallel_runtime_parallel_apply_sin_f64")
        } else if str_eq(method, "cos") {
            proof {
                reveal_strlit("parallel_runtime_parallel_apply_cos_f64");
                reveal_strlit("parallel_runtime_parallel_apply_");
                reveal_strlit("cos");
                reveal_strlit("_f64");
            }
            Some("parallel_runtime_parallel_apply_cos_f64")
        } else if str_eq(method, "recip") {
            proof {
                reveal_strlit("parallel_runtime_parallel_apply_recip_f64");
                reveal_strlit("parallel_runtime_parallel_apply_");
                reveal_strlit("recip");
                reveal_strlit("_f64");
            }
            Some("parallel_runtime_parallel_apply_recip_f64")
        } else if str_eq(method, "floor") {
            proof {
                reveal_strlit("parallel_runtime_parallel_apply_floor_f64");
                reveal_strlit("parallel_runtime_parallel_apply_");
                reveal_strlit("floor");
                reveal_strlit("_f64");
            }
            Some("parallel_runtime_parallel_apply_floor_f64")
        } else if str_eq(method, "ceil") {
            proof {
                reveal_strlit("parallel_runtime_parallel_apply_ceil_f64");
                reveal_strlit("parallel_runtime_parallel_apply_");
                reveal_strlit("ceil");
                reveal_strlit("_f64");
            }
            Some("parallel_runtime_parallel_apply_ceil_f64")
        } else if str_eq(method, "round") {
            proof {
                reveal_strlit("parallel_runtime_parallel_apply_round_f64");
                reveal_strlit("parallel_runtime_parallel_apply_");
                reveal_strlit("round");
                reveal_strlit("_f64");
            }
            Some("parallel_runtime_parallel_apply_round_f64")
        } else {
            None
        }
}

/// The apply helper of a binary method on `f64` elements.
pub fn binary_helper_name(method: &str, fty: FloatTy) -> (r: Option<&'static str>)
    ensures
        r is Some <==> is_binary_apply_method(method@),
        r matches Some(s) ==> s@ == "parallel_runtime_parallel_apply_"@ + method@ + "_f64"@,
{
        if str_eq(method, "max") {
            proof {
                reveal_strlit("parallel_runtime_parallel_apply_max_f64");
                reveal_strlit("parallel_runtime_parallel_apply_");
                reveal_strlit("max");
                reveal_strlit("_f64");
            }
            Some("parallel_runtime_parallel_apply_max_f64")
        } else if str_eq(method, "min") {
            proof {
                reveal_strlit("parallel_runtime_parallel_apply_min_f64");
                reveal_strlit("parallel_runtime_parallel_apply_");
                reveal_strlit("min");
                reveal_strlit("_f64");
            }
            Some("parallel_runtime_parallel_apply_min_f64")
        } else if str_eq(method, "copysign") {
            proof {
                reveal_strlit("parallel_runtime_parallel_apply_copysign_f64");
                reveal_strlit("parallel_runtime_parallel_apply_");
                reveal_strlit("copysign");
                reveal_strlit("_f64");
            }
            Some("parallel_runtime_parallel_apply_copysign_f64")
        } else if str_eq(method, "hypot") {
            proof {
                reveal_strlit("parallel_runtime_parallel_apply_hypot_f64");
                reveal_strlit("parallel_runtime_parallel_apply_");
                reveal_strlit("hypot");
                reveal_strlit("_f64");
            }
            Some("parallel_runtime_parallel_apply_hypot_f64")
        } else if str_eq(method, "atan2") {
            proof {
                reveal_strlit("parallel_runtime_parallel_apply_atan2_f64");
                reveal_strlit("parallel_runtime_parallel_apply_");
                reveal_strlit("atan2");
                reveal_strlit("_f64");
            }
            Some("parallel_runtime_parallel_apply_atan2_f64")
        } else if str_eq(method, "powf") {
            proof {
                reveal_strlit("parallel_runtime_parallel_apply_powf_f64");
                reveal_strlit("parallel_runtime_parallel_apply_");
                reveal_strlit("powf");
                reveal_strlit("_f64");
            }
            Some("parallel_runtime_parallel_apply_powf_f64")
        } else {
            None
        }
}

/// Integer methods known to be pure (`core::num`), by name.
pub open spec fn is_pure_method(s: Seq<char>) -> bool {
        ||| s == "wrapping_add"@
        ||| s == "wrapping_sub"@
        ||| s == "wrapping_mul"@
        ||| s == "wrapping_div"@
        ||| s == "wrapping_rem"@
        ||| s == "wrapping_neg"@
        ||| s == "wrapping_shl"@
        ||| s == "wrapping_shr"@
        ||| s == "saturating_add"@
        ||| s == "saturating_sub"@
        ||| s == "saturating_mul"@
        ||| s == "checked_add"@
        ||| s == "checked_sub"@
        ||| s == "checked_mul"@
        ||| s == "overflowing_add"@
        ||| s == "overflowing_sub"@
        ||| s == "overflowing_mul"@
        ||| s == "rotate_left"@
        ||| s == "rotate_right"@
        ||| s == "swap_bytes"@
        ||| s == "reverse_bits"@
        ||| s == "leading_zeros"@
        ||| s == "trailing_zeros"@
        ||| s == "leading_ones"@
        ||| s == "trailing_ones"@
        ||| s == "count_ones"@
        ||| s == "count_zeros"@
        ||| s == "abs"@
        ||| s == "abs_diff"@
        ||| s == "max"@
        ||| s == "min"@
        ||| s == "clamp"@
        ||| s == "pow"@
        ||| s == "isqrt"@
        ||| s == "ilog2"@
        ||| s == "ilog10"@
        ||| s == "is_power_of_two"@
        ||| s == "next_power_of_two"@
        ||| s == "from_le_bytes"@
        ||| s == "from_be_bytes"@
        ||| s == "from_ne_bytes"@
        ||| s == "to_le_bytes"@
        ||| s == "to_be_bytes"@
        ||| s == "to_ne_bytes"@
        ||| s == "from_le"@
        ||| s == "from_be"@
        ||| s == "to_le"@
        ||| s == "to_be"@
}

/// Pure `core::num` allowlist, matched on the last path segment.
pub fn is_known_pure_callee(path: &str) -> (r: bool)
    ensures
        r == is_pure_method(last_segment(path@)),
{
    let last = last_path_segment(path);
        str_eq(last, "wrapping_add") ||
        str_eq(last, "wrapping_sub") ||
        str_eq(last, "wrapping_mul") ||
        str_eq(last, "wrapping_div") ||
        str_eq(last, "wrapping_rem") ||
        str_eq(last, "wrapping_neg") ||
        str_eq(last, "wrapping_shl") ||
        str_eq(last, "wrapping_shr") ||
        str_eq(last, "saturating_add") ||
        str_eq(last, "saturating_sub") ||
        str_eq(last, "saturating_mul") ||
        str_eq(last, "checked_add") ||
        str_eq(last, "checked_sub") ||
        str_eq(last, "checked_mul") ||
        str_eq(last, "overflowing_add") ||
        str_eq(last, "overflowing_sub") ||
        str_eq(last, "overflowing_mul") ||
        str_eq(last, "rotate_left") ||
        str_eq(last, "rotate_right") ||
        str_eq(last, "swap_bytes") ||
        str_eq(last, "reverse_bits") ||
        str_eq(last, "leading_zeros") ||
        str_eq(last, "trailing_zeros") ||
        str_eq(last, "leading_ones") ||
        str_eq(last, "trailing_ones") ||
        str_eq(last, "count_ones") ||
        str_eq(last, "count_zeros") ||
        str_eq(last, "abs") ||
        str_eq(last, "abs_diff") ||
        str_eq(last, "max") ||
        str_eq(last, "min") ||
        str_eq(last, "clamp") ||
        str_eq(last, "pow") ||
        str_eq(last, "isqrt") ||
        str_eq(last, "ilog2") ||
        str_eq(last, "ilog10") ||
        str_eq(last, "is_power_of_two") ||
        str_eq(last, "next_power_of_two") ||
        str_eq(last, "from_le_bytes") ||
        str_eq(last, "from_be_bytes") ||
        str_eq(last, "from_ne_bytes") ||
        str_eq(last, "to_le_bytes") ||
        str_eq(last, "to_be_bytes") ||
        str_eq(last, "to_ne_bytes") ||
        str_eq(last, "from_le") ||
        str_eq(last, "from_be") ||
        str_eq(last, "to_le") ||
        str_eq(last, "to_be")
}

/// The binary operation that a `wrapping_*`, `saturating_*`, `checked_*` or
/// `overflowing_*` add/sub/mul method computes, by the last segment of its
/// path.
pub open spec fn wrapping_binop_spec(s: Seq<char>) -> Option<BinOp> {
    if s == "wrapping_add"@ || s == "saturating_add"@ || s == "checked_add"@ || s == "overflowing_add"@ {
        Some(BinOp::Add)
    } else if s == "wrapping_sub"@ || s == "saturating_sub"@ || s == "checked_sub"@ || s
        == "overflowing_sub"@ {
        Some(BinOp::Sub)
    } else if s == "wrapping_mul"@ || s == "saturating_mul"@ || s == "checked_mul"@ || s
        == "overflowing_mul"@ {
        Some(BinOp::Mul)
    } else {
        None
    }
}

/// Map a `wrapping_*`-style method callee, by its definition path, to its
/// BinOp.
pub fn wrapping_method_to_binop(path: &str) -> (r: Option<BinOp>)
    ensures
        r == wrapping_binop_spec(last_segment(path@)),
{
    let last = last_path_segment(path);
    if str_eq(last, "wrapping_add") || str_eq(last, "saturating_add") || str_eq(last, "checked_add")
        || str_eq(last, "overflowing_add") {
        Some(BinOp::Add)
    } else if str_eq(last, "wrapping_sub") || str_eq(last, "saturating_sub") || str_eq(
        last,
        "checked_sub",
    ) || str_eq(last, "overflowing_sub") {
        Some(BinOp::Sub)
    } else if str_eq(last, "wrapping_mul") || str_eq(last, "saturating_mul") || str_eq(
        last,
        "checked_mul",
    ) || str_eq(last, "overflowing_mul") {
        Some(BinOp::Mul)
    } else {
        None
    }
}

/// Associative and commutative operations, the ones the reduce primitives
/// can split.
pub open spec fn is_assoc_comm(op: BinOp) -> bool {
    ||| op == BinOp::Add
    ||| op == BinOp::AddUnchecked
    ||| op == BinOp::AddWithOverflow
    ||| op == BinOp::Mul
    ||| op == BinOp::MulUnchecked
    ||| op == BinOp::MulWithOverflow
    ||| op == BinOp::BitXor
    ||| op == BinOp::BitAnd
    ||| op == BinOp::BitOr
}

/// Is the operation associative and commutative?
pub fn is_associative_commutative(op: BinOp) -> (r: bool)
    ensures
        r == is_assoc_comm(op),
{
    matches!(
        op,
        BinOp::Add | BinOp::AddUnchecked | BinOp::AddWithOverflow | BinOp::Mul | BinOp::MulUnchecked
            | BinOp::MulWithOverflow | BinOp::BitXor | BinOp::BitAnd | BinOp::BitOr
    )
}

/// Zip-multiply-sum helper for an element type.
pub fn zip_mul_helper_for(tag: AccTyTag) -> (r: Option<&'static str>)
    ensures
        r is Some <==> (is_narrow_int(tag) || tag == AccTyTag::F64),
        r matches Some(s) ==> s@ == "parallel_runtime_parallel_reduce_sum_slice_zip_mul_"@ + tag_word(tag),
{
        match tag {
            AccTyTag::U64 => {
                proof {
                    reveal_strlit("parallel_runtime_parallel_reduce_sum_slice_zip_mul_u64");
                    reveal_strlit("parallel_runtime_parallel_reduce_sum_slice_zip_mul_");
                    reveal_strlit("u64");
                }
                Some("parallel_runtime_parallel_reduce_sum_slice_zip_mul_u64")
            },
            AccTyTag::U32 => {
                proof {
                    reveal_strlit("parallel_runtime_parallel_reduce_sum_slice_zip_mul_u32");
                    reveal_strlit("parallel_runtime_parallel_reduce_sum_slice_zip_mul_");
                    reveal_strlit("u32");
                }
                Some("parallel_runtime_parallel_reduce_sum_slice_zip_mul_u32")
            },
            AccTyTag::I64 => {
                proof {
                    reveal_strlit("parallel_runtime_parallel_reduce_sum_slice_zip_mul_i64");
                    reveal_strlit("parallel_runtime_parallel_reduce_sum_slice_zip_mul_");
                    reveal_strlit("i64");
                }
                Some("parallel_runtime_parallel_reduce_sum_slice_zip_mul_i64")
            },
            AccTyTag::I32 => {
                proof {
                    reveal_strlit("parallel_runtime_parallel_reduce_sum_slice_zip_mul_i32");
                    reveal_strlit("parallel_runtime_parallel_reduce_sum_slice_zip_mul_");
                    reveal_strlit("i32");
                }
                Some("parallel_runtime_parallel_reduce_sum_slice_zip_mul_i32")
            },
            AccTyTag::F64 => {
                proof {
                    reveal_strlit("parallel_runtime_parallel_reduce_sum_slice_zip_mul_f64");
                    reveal_strlit("parallel_runtime_parallel_reduce_sum_slice_zip_mul_");
                    reveal_strlit("f64");
                }
                Some("parallel_runtime_parallel_reduce_sum_slice_zip_mul_f64")
            },
            _ => None,
        }
}

/// General zip-map-sum helper for an element type.
pub fn zip_map_helper_for(tag: AccTyTag) -> (r: Option<&'static str>)
    ensures
        r is Some <==> (is_narrow_int(tag) || tag == AccTyTag::F64),
        r matches Some(s) ==> s@ == "parallel_runtime_parallel_reduce_sum_slice_zip_map_"@ + tag_word(tag),
{
        match tag {
            AccTyTag::U64 => {
                proof {
                    reveal_strlit("parallel_runtime_parallel_reduce_sum_slice_zip_map_u64");
                    reveal_strlit("parallel_runtime_parallel_reduce_sum_slice_zip_map_");
                    reveal_strlit("u64");
                }
                Some("parallel_runtime_parallel_reduce_sum_slice_zip_map_u64")
            },
            AccTyTag::U32 => {
                proof {
                    reveal_strlit("parallel_runtime_parallel_reduce_sum_slice_zip_map_u32");
                    reveal_strlit("parallel_runtime_parallel_reduce_sum_slice_zip_map_");
                    reveal_strlit("u32");
                }
                Some("parallel_runtime_parallel_reduce_sum_slice_zip_map_u32")
            },
            AccTyTag::I64 => {
                proof {
                    reveal_strlit("parallel_runtime_parallel_reduce_sum_slice_zip_map_i64");
                    reveal_strlit("parallel_runtime_parallel_reduce_sum_slice_zip_map_");
                    reveal_strlit("i64");
                }
                Some("parallel_runtime_parallel_reduce_sum_slice_zip_map_i64")
            },
            AccTyTag::I32 => {
                proof {
                    reveal_strlit("parallel_runtime_parallel_reduce_sum_slice_zip_map_i32");
                    reveal_strlit("parallel_runtime_parallel_reduce_sum_slice_zip_map_");
                    reveal_strlit("i32");
                }
                Some("parallel_runtime_parallel_reduce_sum_slice_zip_map_i32")
            },
            AccTyTag::F64 => {
                proof {
                    reveal_strlit("parallel_runtime_parallel_reduce_sum_slice_zip_map_f64");
                    reveal_strlit("parallel_runtime_parallel_reduce_sum_slice_zip_map_");
                    reveal_strlit("f64");
                }
                Some("parallel_runtime_parallel_reduce_sum_slice_zip_map_f64")
            },
            _ => None,
        }
}

/// Capturing-closure for-each helper (read-only) for an element type.
pub fn for_each_dyn_helper_for(tag: AccTyTag) -> (r: Option<&'static str>)
    ensures
        r is Some <==> is_narrow_int(tag),
        r matches Some(s) ==> s@ == "parallel_runtime_parallel_for_each_slice_closure_dyn_"@ + tag_word(tag),
{
        match tag {
            AccTyTag::U64 => {
                proof {
                    reveal_strlit("parallel_runtime_parallel_for_each_slice_closure_dyn_u64");
                    reveal_strlit("parallel_runtime_parallel_for_each_slice_closure_dyn_");
                    reveal_strlit("u64");
                }
                Some("parallel_runtime_parallel_for_each_slice_closure_dyn_u64")
            },
            AccTyTag::U32 => {
                proof {
                    reveal_strlit("parallel_runtime_parallel_for_each_slice_closure_dyn_u32");
                    reveal_strlit("parallel_runtime_parallel_for_each_slice_closure_dyn_");
                    reveal_strlit("u32");
                }
                Some("parallel_runtime_parallel_for_each_slice_closure_dyn_u32")
            },
            AccTyTag::I64 => {
                proof {
                    reveal_strlit("parallel_runtime_parallel_for_each_slice_closure_dyn_i64");
                    reveal_strlit("parallel_runtime_parallel_for_each_slice_closure_dyn_");
                    reveal_strlit("i64");
                }
                Some("parallel_runtime_parallel_for_each_slice_closure_dyn_i64")
            },
            AccTyTag::I32 => {
                proof {
                    reveal_strlit("parallel_runtime_parallel_for_each_slice_closure_dyn_i32");
                    reveal_strlit("parallel_runtime_parallel_for_each_slice_closure_dyn_");
                    reveal_strlit("i32");
                }
                Some("parallel_runtime_parallel_for_each_slice_closure_dyn_i32")
            },
            _ => None,
        }
}

/// Collect-a-mapped-range helper for an element type.
pub fn range_collect_helper(tag: AccTyTag) -> (r: Option<&'static str>)
    ensures
        r is Some <==> is_narrow_int(tag),
        r matches Some(s) ==> s@ == "parallel_runtime_parallel_collect_range_map_"@ + tag_word(tag),
{
        match tag {
            AccTyTag::U64 => {
                proof {
                    reveal_strlit("parallel_runtime_parallel_collect_range_map_u64");
                    reveal_strlit("parallel_runtime_parallel_collect_range_map_");
                    reveal_strlit("u64");
                }
                Some("parallel_runtime_parallel_collect_range_map_u64")
            },
            AccTyTag::U32 => {
                proof {
                    reveal_strlit("parallel_runtime_parallel_collect_range_map_u32");
                    reveal_strlit("parallel_runtime_parallel_collect_range_map_");
                    reveal_strlit("u32");
                }
                Some("parallel_runtime_parallel_collect_range_map_u32")
            },
            AccTyTag::I64 => {
                proof {
                    reveal_strlit("parallel_runtime_parallel_collect_range_map_i64");
                    reveal_strlit("parallel_runtime_parallel_collect_range_map_");
                    reveal_strlit("i64");
                }
                Some("parallel_runtime_parallel_collect_range_map_i64")
            },
            AccTyTag::I32 => {
                proof {
                    reveal_strlit("parallel_runtime_parallel_collect_range_map_i32");
                    reveal_strlit("parallel_runtime_parallel_collect_range_map_");
                    reveal_strlit("i32");
                }
                Some("parallel_runtime_parallel_collect_range_map_i32")
            },
            _ => None,
        }
}

/// Collect-a-mapped-slice helper for an element type.
pub fn slice_collect_helper(tag: AccTyTag) -> (r: Option<&'static str>)
    ensures
        r is Some <==> is_narrow_int(tag),
        r matches Some(s) ==> s@ == "parallel_runtime_parallel_collect_slice_map_"@ + tag_word(tag),
{
        match tag {
            AccTyTag::U64 => {
                proof {
                    reveal_strlit("parallel_runtime_parallel_collect_slice_map_u64");
                    reveal_strlit("parallel_runtime_parallel_collect_slice_map_");
                    reveal_strlit("u64");
                }
                Some("parallel_runtime_parallel_collect_slice_map_u64")
            },
            AccTyTag::U32 => {
                proof {
                    reveal_strlit("parallel_runtime_parallel_collect_slice_map_u32");
                    reveal_strlit("parallel_runtime_parallel_collect_slice_map_");
                    reveal_strlit("u32");
                }
                Some("parallel_runtime_parallel_collect_slice_map_u32")
            },
            AccTyTag::I64 => {
                proof {
                    reveal_strlit("parallel_runtime_parallel_collect_slice_map_i64");
                    reveal_strlit("parallel_runtime_parallel_collect_slice_map_");
                    reveal_strlit("i64");
                }
                Some("parallel_runtime_parallel_collect_slice_map_i64")
            },
            AccTyTag::I32 => {
                proof {
                    reveal_strlit("parallel_runtime_parallel_collect_slice_map_i32");
                    reveal_strlit("parallel_runtime_parallel_collect_slice_map_");
                    reveal_strlit("i32");
                }
                Some("parallel_runtime_parallel_collect_slice_map_i32")
            },
            _ => None,
        }
}

/// For-each helper for an element type, over shared or mutable elements.
pub fn for_each_helper_for(tag: AccTyTag, is_mut: bool) -> (r: Option<&'static str>)
    ensures
        r is Some <==> if is_mut {
            is_narrow_int(tag)
        } else {
            tag != AccTyTag::F64
        },
        r matches Some(s) ==> s@ == if is_mut {
            "parallel_runtime_parallel_for_each_mut_slice_"@ + tag_word(tag)
        } else {
            "parallel_runtime_parallel_for_each_slice_"@ + tag_word(tag)
        },
{
    if is_mut {
        for_each_mut_helper(tag)
    } else {
        for_each_shared_helper(tag)
    }
}

/// For-each over shared elements.
fn for_each_shared_helper(tag: AccTyTag) -> (r: Option<&'static str>)
    ensures
        r is Some <==> tag != AccTyTag::F64,
        r matches Some(s) ==> s@ == "parallel_runtime_parallel_for_each_slice_"@ + tag_word(tag),
{
        match tag {
            AccTyTag::U32 => {
                proof {
                    reveal_strlit("parallel_runtime_parallel_for_each_slice_u32");
                    reveal_strlit("parallel_runtime_parallel_for_each_slice_");
                    reveal_strlit("u32");
                }
                Some("parallel_runtime_parallel_for_each_slice_u32")
            },
            AccTyTag::U64 => {
                proof {
                    reveal_strlit("parallel_runtime_parallel_for_each_slice_u64");
                    reveal_strlit("parallel_runtime_parallel_for_each_slice_");
                    reveal_strlit("u64");
                }
                Some("parallel_runtime_parallel_for_each_slice_u64")
            },
            AccTyTag::I32 => {
                proof {
                    reveal_strlit("parallel_runtime_parallel_for_each_slice_i32");
                    reveal_strlit("parallel_runtime_parallel_for_each_slice_");
                    reveal_strlit("i32");
                }
                Some("parallel_runtime_parallel_for_each_slice_i32")
            },
            AccTyTag::I64 => {
                proof {
                    reveal_strlit("parallel_runtime_parallel_for_each_slice_i64");
                    reveal_strlit("parallel_runtime_parallel_for_each_slice_");
                    reveal_strlit("i64");
                }
                Some("parallel_runtime_parallel_for_each_slice_i64")
            },
            AccTyTag::Usize => {
                proof {
                    reveal_strlit("parallel_runtime_parallel_for_each_slice_usize");
                    reveal_strlit("parallel_runtime_parallel_for_each_slice_");
                    reveal_strlit("usize");
                }
                Some("parallel_runtime_parallel_for_each_slice_usize")
            },
            AccTyTag::Isize => {
                proof {
                    reveal_strlit("parallel_runtime_parallel_for_each_slice_isize");
                    reveal_strlit("parallel_runtime_parallel_for_each_slice_");
                    reveal_strlit("isize");
                }
                Some("parallel_runtime_parallel_for_each_slice_isize")
            },
            _ => None,
        }
}

/// For-each over mutable elements.
fn for_each_mut_helper(tag: AccTyTag) -> (r: Option<&'static str>)
    ensures
        r is Some <==> is_narrow_int(tag),
        r matches Some(s) ==> s@ == "parallel_runtime_parallel_for_each_mut_slice_"@ + tag_word(tag),
{
        match tag {
            AccTyTag::U64 => {
                proof {
                    reveal_strlit("parallel_runtime_parallel_for_each_mut_slice_u64");
                    reveal_strlit("parallel_runtime_parallel_for_each_mut_slice_");
                    reveal_strlit("u64");
                }
                Some("parallel_runtime_parallel_for_each_mut_slice_u64")
            },
            AccTyTag::U32 => {
                proof {
                    reveal_strlit("parallel_runtime_parallel_for_each_mut_slice_u32");
                    reveal_strlit("parallel_runtime_parallel_for_each_mut_slice_");
                    reveal_strlit("u32");
                }
                Some("parallel_runtime_parallel_for_each_mut_slice_u32")
            },
            AccTyTag::I64 => {
                proof {
                    reveal_strlit("parallel_runtime_parallel_for_each_mut_slice_i64");
                    reveal_strlit("parallel_runtime_parallel_for_each_mut_slice_");
                    reveal_strlit("i64");
                }
                Some("parallel_runtime_parallel_for_each_mut_slice_i64")
            },
            AccTyTag::I32 => {
                proof {
                    reveal_strlit("parallel_runtime_parallel_for_each_mut_slice_i32");
                    reveal_strlit("parallel_runtime_parallel_for_each_mut_slice_");
                    reveal_strlit("i32");
                }
                Some("parallel_runtime_parallel_for_each_mut_slice_i32")
            },
            _ => None,
        }
}

/// Slice sum.
fn slice_sum_helper(tag: AccTyTag) -> (r: Option<&'static str>)
    ensures
        r is Some <==> true,
        r matches Some(s) ==> s@ == "parallel_runtime_parallel_reduce_sum_slice_"@ + tag_word(tag),
{
        match tag {
            AccTyTag::U32 => {
                proof {
                    reveal_strlit("parallel_runtime_parallel_reduce_sum_slice_u32");
                    reveal_strlit("parallel_runtime_parallel_reduce_sum_slice_");
                    reveal_strlit("u32");
                }
                Some("parallel_runtime_parallel_reduce_sum_slice_u32")
            },
            AccTyTag::U64 => {
                proof {
                    reveal_strlit("parallel_runtime_parallel_reduce_sum_slice_u64");
                    reveal_strlit("parallel_runtime_parallel_reduce_sum_slice_");
                    reveal_strlit("u64");
                }
                Some("parallel_runtime_parallel_reduce_sum_slice_u64")
            },
            AccTyTag::I32 => {
                proof {
                    reveal_strlit("parallel_runtime_parallel_reduce_sum_slice_i32");
                    reveal_strlit("parallel_runtime_parallel_reduce_sum_slice_");
                    reveal_strlit("i32");
                }
                Some("parallel_runtime_parallel_reduce_sum_slice_i32")
            },
            AccTyTag::I64 => {
                proof {
                    reveal_strlit("parallel_runtime_parallel_reduce_sum_slice_i64");
                    reveal_strlit("parallel_runtime_parallel_reduce_sum_slice_");
                    reveal_strlit("i64");
                }
                Some("parallel_runtime_parallel_reduce_sum_slice_i64")
            },
            AccTyTag::Usize => {
                proof {
                    reveal_strlit("parallel_runtime_parallel_reduce_sum_slice_usize");
                    reveal_strlit("parallel_runtime_parallel_reduce_sum_slice_");
                    reveal_strlit("usize");
                }
                Some("parallel_runtime_parallel_reduce_sum_slice_usize")
            },
            AccTyTag::Isize => {
                proof {
                    reveal_strlit("parallel_runtime_parallel_reduce_sum_slice_isize");
                    reveal_strlit("parallel_runtime_parallel_reduce_sum_slice_");
                    reveal_strlit("isize");
                }
                Some("parallel_runtime_parallel_reduce_sum_slice_isize")
            },
            AccTyTag::F64 => {
                proof {
                    reveal_strlit("parallel_runtime_parallel_reduce_sum_slice_f64");
                    reveal_strlit("parallel_runtime_parallel_reduce_sum_slice_");
                    reveal_strlit("f64");
                }
                Some("parallel_runtime_parallel_reduce_sum_slice_f64")
            },
        }
}

/// Slice product.
fn slice_mul_helper(tag: AccTyTag) -> (r: Option<&'static str>)
    ensures
        r is Some <==> true,
        r matches Some(s) ==> s@ == "parallel_runtime_parallel_reduce_mul_slice_"@ + tag_word(tag),
{
        match tag {
            AccTyTag::U32 => {
                proof {
                    reveal_strlit("parallel_runtime_parallel_reduce_mul_slice_u32");
                    reveal_strlit("parallel_runtime_parallel_reduce_mul_slice_");
                    reveal_strlit("u32");
                }
                Some("parallel_runtime_parallel_reduce_mul_slice_u32")
            },
            AccTyTag::U64 => {
                proof {
                    reveal_strlit("parallel_runtime_parallel_reduce_mul_slice_u64");
                    reveal_strlit("parallel_runtime_parallel_reduce_mul_slice_");
                    reveal_strlit("u64");
                }
                Some("parallel_runtime_parallel_reduce_mul_slice_u64")
            },
            AccTyTag::I32 => {
                proof {
                    reveal_strlit("parallel_runtime_parallel_reduce_mul_slice_i32");
                    reveal_strlit("parallel_runtime_parallel_reduce_mul_slice_");
                    reveal_strlit("i32");
                }
                Some("parallel_runtime_parallel_reduce_mul_slice_i32")
            },
            AccTyTag::I64 => {
                proof {
                    reveal_strlit("parallel_runtime_parallel_reduce_mul_slice_i64");
                    reveal_strlit("parallel_runtime_parallel_reduce_mul_slice_");
                    reveal_strlit("i64");
                }
                Some("parallel_runtime_parallel_reduce_mul_slice_i64")
            },
            AccTyTag::Usize => {
                proof {
                    reveal_strlit("parallel_runtime_parallel_reduce_mul_slice_usize");
                    reveal_strlit("parallel_runtime_parallel_reduce_mul_slice_");
                    reveal_strlit("usize");
                }
                Some("parallel_runtime_parallel_reduce_mul_slice_usize")
            },
            AccTyTag::Isize => {
                proof {
                    reveal_strlit("parallel_runtime_parallel_reduce_mul_slice_isize");
                    reveal_strlit("parallel_runtime_parallel_reduce_mul_slice_");
                    reveal_strlit("isize");
                }
                Some("parallel_runtime_parallel_reduce_mul_slice_isize")
            },
            AccTyTag::F64 => {
                proof {
                    reveal_strlit("parallel_runtime_parallel_reduce_mul_slice_f64");
                    reveal_strlit("parallel_runtime_parallel_reduce_mul_slice_");
                    reveal_strlit("f64");
                }
                Some("parallel_runtime_parallel_reduce_mul_slice_f64")
            },
        }
}

/// Mapped slice sum.
fn map_sum_helper(tag: AccTyTag) -> (r: Option<&'static str>)
    ensures
        r is Some <==> tag != AccTyTag::F64,
        r matches Some(s) ==> s@ == "parallel_runtime_parallel_reduce_sum_slice_map_"@ + tag_word(tag),
{
        match tag {
            AccTyTag::U32 => {
                proof {
                    reveal_strlit("parallel_runtime_parallel_reduce_sum_slice_map_u32");
                    reveal_strlit("parallel_runtime_parallel_reduce_sum_slice_map_");
                    reveal_strlit("u32");
                }
                Some("parallel_runtime_parallel_reduce_sum_slice_map_u32")
            },
            AccTyTag::U64 => {
                proof {
                    reveal_strlit("parallel_runtime_parallel_reduce_sum_slice_map_u64");
                    reveal_strlit("parallel_runtime_parallel_reduce_sum_slice_map_");
                    reveal_strlit("u64");
                }
                Some("parallel_runtime_parallel_reduce_sum_slice_map_u64")
            },
            AccTyTag::I32 => {
                proof {
                    reveal_strlit("parallel_runtime_parallel_reduce_sum_slice_map_i32");
                    reveal_strlit("parallel_runtime_parallel_reduce_sum_slice_map_");
                    reveal_strlit("i32");
                }
                Some("parallel_runtime_parallel_reduce_sum_slice_map_i32")
            },
            AccTyTag::I64 => {
                proof {
                    reveal_strlit("parallel_runtime_parallel_reduce_sum_slice_map_i64");
                    reveal_strlit("parallel_runtime_parallel_reduce_sum_slice_map_");
                    reveal_strlit("i64");
                }
                Some("parallel_runtime_parallel_reduce_sum_slice_map_i64")
            },
            AccTyTag::Usize => {
                proof {
                    reveal_strlit("parallel_runtime_parallel_reduce_sum_slice_map_usize");
                    reveal_strlit("parallel_runtime_parallel_reduce_sum_slice_map_");
                    reveal_strlit("usize");
                }
                Some("parallel_runtime_parallel_reduce_sum_slice_map_usize")
            },
            AccTyTag::Isize => {
                proof {
                    reveal_strlit("parallel_runtime_parallel_reduce_sum_slice_map_isize");
                    reveal_strlit("parallel_runtime_parallel_reduce_sum_slice_map_");
                    reveal_strlit("isize");
                }
                Some("parallel_runtime_parallel_reduce_sum_slice_map_isize")
            },
            _ => None,
        }
}

/// Mapped slice product.
fn map_mul_helper(tag: AccTyTag) -> (r: Option<&'static str>)
    ensures
        r is Some <==> is_narrow_int(tag),
        r matches Some(s) ==> s@ == "parallel_runtime_parallel_reduce_mul_slice_map_"@ + tag_word(tag),
{
        match tag {
            AccTyTag::U64 => {
                proof {
                    reveal_strlit("parallel_runtime_parallel_reduce_mul_slice_map_u64");
                    reveal_strlit("parallel_runtime_parallel_reduce_mul_slice_map_");
                    reveal_strlit("u64");
                }
                Some("parallel_runtime_parallel_reduce_mul_slice_map_u64")
            },
            AccTyTag::U32 => {
                proof {
                    reveal_strlit("parallel_runtime_parallel_reduce_mul_slice_map_u32");
                    reveal_strlit("parallel_runtime_parallel_reduce_mul_slice_map_");
                    reveal_strlit("u32");
                }
                Some("parallel_runtime_parallel_reduce_mul_slice_map_u32")
            },
            AccTyTag::I64 => {
                proof {
                    reveal_strlit("parallel_runtime_parallel_reduce_mul_slice_map_i64");
                    reveal_strlit("parallel_runtime_parallel_reduce_mul_slice_map_");
                    reveal_strlit("i64");
                }
                Some("parallel_runtime_parallel_reduce_mul_slice_map_i64")
            },
            AccTyTag::I32 => {
                proof {
                    reveal_strlit("parallel_runtime_parallel_reduce_mul_slice_map_i32");
                    reveal_strlit("parallel_runtime_parallel_reduce_mul_slice_map_");
                    reveal_strlit("i32");
                }
                Some("parallel_runtime_parallel_reduce_mul_slice_map_i32")
            },
            _ => None,
        }
}

/// Filtered slice sum.
fn filter_sum_helper(tag: AccTyTag) -> (r: Option<&'static str>)
    ensures
        r is Some <==> is_narrow_int(tag),
        r matches Some(s) ==> s@ == "parallel_runtime_parallel_reduce_sum_slice_filter_"@ + tag_word(tag),
{
        match tag {
            AccTyTag::U64 => {
                proof {
                    reveal_strlit("parallel_runtime_parallel_reduce_sum_slice_filter_u64");
                    reveal_strlit("parallel_runtime_parallel_reduce_sum_slice_filter_");
                    reveal_strlit("u64");
                }
                Some("parallel_runtime_parallel_reduce_sum_slice_filter_u64")
            },
            AccTyTag::U32 => {
                proof {
                    reveal_strlit("parallel_runtime_parallel_reduce_sum_slice_filter_u32");
                    reveal_strlit("parallel_runtime_parallel_reduce_sum_slice_filter_");
                    reveal_strlit("u32");
                }
                Some("parallel_runtime_parallel_reduce_sum_slice_filter_u32")
            },
            AccTyTag::I64 => {
                proof {
                    reveal_strlit("parallel_runtime_parallel_reduce_sum_slice_filter_i64");
                    reveal_strlit("parallel_runtime_parallel_reduce_sum_slice_filter_");
                    reveal_strlit("i64");
                }
                Some("parallel_runtime_parallel_reduce_sum_slice_filter_i64")
            },
            AccTyTag::I32 => {
                proof {
                    reveal_strlit("parallel_runtime_parallel_reduce_sum_slice_filter_i32");
                    reveal_strlit("parallel_runtime_parallel_reduce_sum_slice_filter_");
                    reveal_strlit("i32");
                }
                Some("parallel_runtime_parallel_reduce_sum_slice_filter_i32")
            },
            _ => None,
        }
}

/// Filtered slice product.
fn filter_mul_helper(tag: AccTyTag) -> (r: Option<&'static str>)
    ensures
        r is Some <==> (tag == AccTyTag::U64 || tag == AccTyTag::I64),
        r matches Some(s) ==> s@ == "parallel_runtime_parallel_reduce_mul_slice_filter_"@ + tag_word(tag),
{
        match tag {
            AccTyTag::U64 => {
                proof {
                    reveal_strlit("parallel_runtime_parallel_reduce_mul_slice_filter_u64");
                    reveal_strlit("parallel_runtime_parallel_reduce_mul_slice_filter_");
                    reveal_strlit("u64");
                }
                Some("parallel_runtime_parallel_reduce_mul_slice_filter_u64")
            },
            AccTyTag::I64 => {
                proof {
                    reveal_strlit("parallel_runtime_parallel_reduce_mul_slice_filter_i64");
                    reveal_strlit("parallel_runtime_parallel_reduce_mul_slice_filter_");
                    reveal_strlit("i64");
                }
                Some("parallel_runtime_parallel_reduce_mul_slice_filter_i64")
            },
            _ => None,
        }
}

/// Range sum.
fn range_sum_helper(tag: AccTyTag) -> (r: Option<&'static str>)
    ensures
        r is Some <==> tag != AccTyTag::F64,
        r matches Some(s) ==> s@ == "parallel_runtime_parallel_reduce_sum_range_"@ + tag_word(tag),
{
        match tag {
            AccTyTag::U32 => {
                proof {
                    reveal_strlit("parallel_runtime_parallel_reduce_sum_range_u32");
                    reveal_strlit("parallel_runtime_parallel_reduce_sum_range_");
                    reveal_strlit("u32");
                }
                Some("parallel_runtime_parallel_reduce_sum_range_u32")
            },
            AccTyTag::U64 => {
                proof {
                    reveal_strlit("parallel_runtime_parallel_reduce_sum_range_u64");
                    reveal_strlit("parallel_runtime_parallel_reduce_sum_range_");
                    reveal_strlit("u64");
                }
                Some("parallel_runtime_parallel_reduce_sum_range_u64")
            },
            AccTyTag::I32 => {
                proof {
                    reveal_strlit("parallel_runtime_parallel_reduce_sum_range_i32");
                    reveal_strlit("parallel_runtime_parallel_reduce_sum_range_");
                    reveal_strlit("i32");
                }
                Some("parallel_runtime_parallel_reduce_sum_range_i32")
            },
            AccTyTag::I64 => {
                proof {
                    reveal_strlit("parallel_runtime_parallel_reduce_sum_range_i64");
                    reveal_strlit("parallel_runtime_parallel_reduce_sum_range_");
                    reveal_strlit("i64");
                }
                Some("parallel_runtime_parallel_reduce_sum_range_i64")
            },
            AccTyTag::Usize => {
                proof {
                    reveal_strlit("parallel_runtime_parallel_reduce_sum_range_usize");
                    reveal_strlit("parallel_runtime_parallel_reduce_sum_range_");
                    reveal_strlit("usize");
                }
                Some("parallel_runtime_parallel_reduce_sum_range_usize")
            },
            AccTyTag::Isize => {
                proof {
                    reveal_strlit("parallel_runtime_parallel_reduce_sum_range_isize");
                    reveal_strlit("parallel_runtime_parallel_reduce_sum_range_");
                    reveal_strlit("isize");
                }
                Some("parallel_runtime_parallel_reduce_sum_range_isize")
            },
            _ => None,
        }
}

/// Range product.
fn range_mul_helper(tag: AccTyTag) -> (r: Option<&'static str>)
    ensures
        r is Some <==> tag != AccTyTag::F64,
        r matches Some(s) ==> s@ == "parallel_runtime_parallel_reduce_mul_range_"@ + tag_word(tag),
{
        match tag {
            AccTyTag::U32 => {
                proof {
                    reveal_strlit("parallel_runtime_parallel_reduce_mul_range_u32");
                    reveal_strlit("parallel_runtime_parallel_reduce_mul_range_");
                    reveal_strlit("u32");
                }
                Some("parallel_runtime_parallel_reduce_mul_range_u32")
            },
            AccTyTag::U64 => {
                proof {
                    reveal_strlit("parallel_runtime_parallel_reduce_mul_range_u64");
                    reveal_strlit("parallel_runtime_parallel_reduce_mul_range_");
                    reveal_strlit("u64");
                }
                Some("parallel_runtime_parallel_reduce_mul_range_u64")
            },
            AccTyTag::I32 => {
                proof {
                    reveal_strlit("parallel_runtime_parallel_reduce_mul_range_i32");
                    reveal_strlit("parallel_runtime_parallel_reduce_mul_range_");
                    reveal_strlit("i32");
                }
                Some("parallel_runtime_parallel_reduce_mul_range_i32")
            },
            AccTyTag::I64 => {
                proof {
                    reveal_strlit("parallel_runtime_parallel_reduce_mul_range_i64");
                    reveal_strlit("parallel_runtime_parallel_reduce_mul_range_");
                    reveal_strlit("i64");
                }
                Some("parallel_runtime_parallel_reduce_mul_range_i64")
            },
            AccTyTag::Usize => {
                proof {
                    reveal_strlit("parallel_runtime_parallel_reduce_mul_range_usize");
                    reveal_strlit("parallel_runtime_parallel_reduce_mul_range_");
                    reveal_strlit("usize");
                }
                Some("parallel_runtime_parallel_reduce_mul_range_usize")
            },
            AccTyTag::Isize => {
                proof {
                    reveal_strlit("parallel_runtime_parallel_reduce_mul_range_isize");
                    reveal_strlit("parallel_runtime_parallel_reduce_mul_range_");
                    reveal_strlit("isize");
                }
                Some("parallel_runtime_parallel_reduce_mul_range_isize")
            },
            _ => None,
        }
}

/// Slice reduce helper for `.sum()` / `.product()` on a slice iterator.
pub fn slice_helper_for(method: &str, tag: AccTyTag) -> (r: Option<&'static str>)
    ensures
        r is Some <==> (method@ == "sum"@ || method@ == "product"@),
        r matches Some(s) ==> s@ == if method@ == "sum"@ {
            "parallel_runtime_parallel_reduce_sum_slice_"@ + tag_word(tag)
        } else {
            "parallel_runtime_parallel_reduce_mul_slice_"@ + tag_word(tag)
        },
{
    if str_eq(method, "sum") {
        slice_sum_helper(tag)
    } else if str_eq(method, "product") {
        slice_mul_helper(tag)
    } else {
        None
    }
}

/// Reduce helper for `.map(..).sum()` / `.map(..).product()` on a slice.
pub fn map_helper_for(method: &str, tag: AccTyTag) -> (r: Option<&'static str>)
    ensures
        r is Some <==> ((method@ == "sum"@ && tag != AccTyTag::F64) || (method@ == "product"@
            && is_narrow_int(tag))),
        r matches Some(s) ==> s@ == if method@ == "sum"@ {
            "parallel_runtime_parallel_reduce_sum_slice_map_"@ + tag_word(tag)
        } else {
            "parallel_runtime_parallel_reduce_mul_slice_map_"@ + tag_word(tag)
        },
{
    if str_eq(method, "sum") {
        map_sum_helper(tag)
    } else if str_eq(method, "product") {
        map_mul_helper(tag)
    } else {
        None
    }
}

/// Reduce helper for `.filter(..).sum()` / `.filter(..).product()` on a slice.
pub fn filter_helper_for(op: &str, tag: AccTyTag) -> (r: Option<&'static str>)
    ensures
        r is Some <==> ((op@ == "sum"@ && is_narrow_int(tag)) || (op@ == "product"@ && (tag
            == AccTyTag::U64 || tag == AccTyTag::I64))),
        r matches Some(s) ==> s@ == if op@ == "sum"@ {
            "parallel_runtime_parallel_reduce_sum_slice_filter_"@ + tag_word(tag)
        } else {
            "parallel_runtime_parallel_reduce_mul_slice_filter_"@ + tag_word(tag)
        },
{
    if str_eq(op, "sum") {
        filter_sum_helper(tag)
    } else if str_eq(op, "product") {
        filter_mul_helper(tag)
    } else {
        None
    }
}

/// Reduce helper for `.sum()` / `.product()` on an integer range.
pub fn range_helper_for(method: &str, tag: AccTyTag) -> (r: Option<&'static str>)
    ensures
        r is Some <==> ((method@ == "sum"@ || method@ == "product"@) && tag != AccTyTag::F64),
        r matches Some(s) ==> s@ == if method@ == "sum"@ {
            "parallel_runtime_parallel_reduce_sum_range_"@ + tag_word(tag)
        } else {
            "parallel_runtime_parallel_reduce_mul_range_"@ + tag_word(tag)
        },
{
    if str_eq(method, "sum") {
        range_sum_helper(tag)
    } else if str_eq(method, "product") {
        range_mul_helper(tag)
    } else {
        None
    }
}

proof fn lemma_helper_name_chars(op: ReduceOp, tag: AccTyTag)
    requires
        tag != AccTyTag::F64,
    ensures
        ({
            let n = reduce_helper_name(op, tag);
            let ow = op_word(op);
            let tw = tag_word(tag);
            &&& n[33] == ow[0]
            &&& n[34] == ow[1]
            &&& n.last() == tw.last()
            &&& n[n.len() - 3] == tw[tw.len() - 3]
            &&& (tw.len() == 5 ==> n[n.len() - 5] == tw[0])
        }),
{
    reveal_strlit("parallel_runtime_parallel_reduce_");
    reveal_strlit("_");
    reveal_strlit("add");
    reveal_strlit("mul");
    reveal_strlit("and");
    reveal_strlit("or");
    reveal_strlit("xor");
    reveal_strlit("min");
    reveal_strlit("max");
    reveal_strlit("u32");
    reveal_strlit("u64");
    reveal_strlit("i32");
    reveal_strlit("i64");
    reveal_strlit("usize");
    reveal_strlit("isize");
    let pre = "parallel_runtime_parallel_reduce_"@;
    let ow = op_word(op);
    let tw = tag_word(tag);
    let n = pre + ow + "_"@ + tw;
    assert(pre.len() == 33);
    assert(ow.len() >= 2);
    assert(n[33] == ow[0]);
    assert(n[34] == ow[1]);
    assert(n.len() == 33 + ow.len() + 1 + tw.len());
    assert(n.last() == tw.last());
    assert(n[n.len() - 3] == tw[tw.len() - 3]);
    if tw.len() == 5 {
        assert(n[n.len() - 5] == tw[0]);
    }
}

/// Different (operation, integer type) pairs have different reduce
/// helpers.
pub proof fn lemma_reduce_helper_names_distinct(o1: ReduceOp, t1: AccTyTag, o2: ReduceOp, t2: AccTyTag)
    requires
        t1 != AccTyTag::F64,
        t2 != AccTyTag::F64,
        reduce_helper_name(o1, t1) == reduce_helper_name(o2, t2),
    ensures
        o1 == o2,
        t1 == t2,
{
    lemma_helper_name_chars(o1, t1);
    lemma_helper_name_chars(o2, t2);
    reveal_strlit("add");
    reveal_strlit("mul");
    reveal_strlit("and");
    reveal_strlit("or");
    reveal_strlit("xor");
    reveal_strlit("min");
    reveal_strlit("max");
    reveal_strlit("u32");
    reveal_strlit("u64");
    reveal_strlit("i32");
    reveal_strlit("i64");
    reveal_strlit("usize");
    reveal_strlit("isize");
}

/// The value that the raw bits `b` of an integer type stand for (two's
/// complement for a signed type).
pub open spec fn bits_value(b: int, tag: AccTyTag) -> int {
    let w = width_spec(tag);
    if is_signed(tag) && b >= pow2((w - 1) as nat) {
        b - pow2(w)
    } else {
        b
    }
}

/// The identity bits are an identity of each operation on every value of
/// an integer type (given by its raw bits `x`): adding, or-ing or xor-ing
/// zero, multiplying by one (modulo the type's width), and-ing all ones
/// leave `x`; the identity of min is no smaller and that of max no larger
/// than any value.
pub proof fn lemma_identity_laws(op: ReduceOp, tag: AccTyTag, x: u64)
    requires
        tag != AccTyTag::F64,
        x < pow2(width_spec(tag)),
    ensures
        ({
            let e = identity_spec(op, tag);
            let m = pow2(width_spec(tag)) as int;
            match op {
                ReduceOp::Add => (e + x) % m == x,
                ReduceOp::Mul => (e * x) % m == x,
                ReduceOp::BitAnd => 0 <= e <= u64::MAX && x & (e as u64) == x,
                ReduceOp::BitOr => e == 0 && 0u64 | x == x,
                ReduceOp::BitXor => e == 0 && 0u64 ^ x == x,
                ReduceOp::Min => bits_value(x as int, tag) <= bits_value(e, tag),
                ReduceOp::Max => bits_value(e, tag) <= bits_value(x as int, tag),
            }
        }),
{
    lemma2_to64();
    lemma2_to64_rest();
    let w = width_spec(tag);
    vstd::arithmetic::div_mod::lemma_small_mod(x as nat, pow2(w));
    assert(1 * (x as int) == x as int);
    assert(0 + (x as int) == x as int);
    assert(0u64 | x == x) by (bit_vector);
    assert(0u64 ^ x == x) by (bit_vector);
    if w == 32 {
        assert(pow2(32) == 0x1_0000_0000);
        assert(pow2(31) == 0x8000_0000);
        assert(x & 0xffff_ffffu64 == x) by (bit_vector)
            requires
                x < 0x1_0000_0000u64,
        ;
    } else {
        assert(w == 64);
        assert(pow2(64) == 0x1_0000_0000_0000_0000);
        assert(pow2(63) == 0x8000_0000_0000_0000);
        assert(x & 0xffff_ffff_ffff_ffffu64 == x) by (bit_vector);
    }
    let e = identity_spec(op, tag);
    let m = pow2(w) as int;
    match op {
        ReduceOp::Add => assert((e + x) % m == x),
        ReduceOp::Mul => assert((e * x) % m == x),
        ReduceOp::BitAnd => {
            if w == 32 {
                assert(e == 0xffff_ffff);
                assert((e as u64) == 0xffff_ffffu64);
                assert(x & (e as u64) == x);
            } else {
                assert(e == 0xffff_ffff_ffff_ffff);
                assert((e as u64) == 0xffff_ffff_ffff_ffffu64);
                assert(x & (e as u64) == x);
            }
        },
        ReduceOp::BitOr => {},
        ReduceOp::BitXor => {},
        ReduceOp::Min => assert(bits_value(x as int, tag) <= bits_value(e, tag)),
        ReduceOp::Max => assert(bits_value(e, tag) <= bits_value(x as int, tag)),
    }
}

/// What the reduction combines two 64-bit unsigned values into: the wrapping
/// sum or product, the bitwise and, or and xor, the smaller or the larger.
pub open spec fn reduce_value(op: ReduceOp, a: u64, b: u64) -> u64 {
    match op {
        ReduceOp::Add => ((a + b) % 0x1_0000_0000_0000_0000) as u64,
        ReduceOp::Mul => ((a * b) % 0x1_0000_0000_0000_0000) as u64,
        ReduceOp::BitAnd => a & b,
        ReduceOp::BitOr => a | b,
        ReduceOp::BitXor => a ^ b,
        ReduceOp::Min => if a <= b {
            a
        } else {
            b
        },
        ReduceOp::Max => if a >= b {
            a
        } else {
            b
        },
    }
}

/// A method named like `wrapping_add` stands for the operator its name
/// ends in: an `_add` method for `Add`, a `_sub` one for `Sub`, a `_mul` one
/// for `Mul`.
pub proof fn lemma_method_operator_is_named_by_its_suffix(s: Seq<char>)
    ensures
        wrapping_binop_spec(s) matches Some(op) ==> {
            ||| op == BinOp::Add && ends_with_text(s, "_add"@)
            ||| op == BinOp::Sub && ends_with_text(s, "_sub"@)
            ||| op == BinOp::Mul && ends_with_text(s, "_mul"@)
        },
{
    reveal_strlit("wrapping_add");
    reveal_strlit("saturating_add");
    reveal_strlit("checked_add");
    reveal_strlit("overflowing_add");
    reveal_strlit("wrapping_sub");
    reveal_strlit("saturating_sub");
    reveal_strlit("checked_sub");
    reveal_strlit("overflowing_sub");
    reveal_strlit("wrapping_mul");
    reveal_strlit("saturating_mul");
    reveal_strlit("checked_mul");
    reveal_strlit("overflowing_mul");
    reveal_strlit("_add");
    reveal_strlit("_sub");
    reveal_strlit("_mul");
    if s == "wrapping_add"@ {
        assert(s.subrange(s.len() - 4, s.len() as int) =~= "_add"@);
    }
    if s == "saturating_add"@ {
        assert(s.subrange(s.len() - 4, s.len() as int) =~= "_add"@);
    }
    if s == "checked_add"@ {
        assert(s.subrange(s.len() - 4, s.len() as int) =~= "_add"@);
    }
    if s == "overflowing_add"@ {
        assert(s.subrange(s.len() - 4, s.len() as int) =~= "_add"@);
    }
    if s == "wrapping_sub"@ {
        assert(s.subrange(s.len() - 4, s.len() as int) =~= "_sub"@);
    }
    if s == "saturating_sub"@ {
        assert(s.subrange(s.len() - 4, s.len() as int) =~= "_sub"@);
    }
    if s == "checked_sub"@ {
        assert(s.subrange(s.len() - 4, s.len() as int) =~= "_sub"@);
    }
    if s == "overflowing_sub"@ {
        assert(s.subrange(s.len() - 4, s.len() as int) =~= "_sub"@);
    }
    if s == "wrapping_mul"@ {
        assert(s.subrange(s.len() - 4, s.len() as int) =~= "_mul"@);
    }
    if s == "saturating_mul"@ {
        assert(s.subrange(s.len() - 4, s.len() as int) =~= "_mul"@);
    }
    if s == "checked_mul"@ {
        assert(s.subrange(s.len() - 4, s.len() as int) =~= "_mul"@);
    }
    if s == "overflowing_mul"@ {
        assert(s.subrange(s.len() - 4, s.len() as int) =~= "_mul"@);
    }
}

} // verus!
