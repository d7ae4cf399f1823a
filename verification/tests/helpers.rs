use j2_passes::idioms::{
    binary_helper_name, for_each_helper_for, invoke_helper_name_for_arity, is_associative_commutative, is_known_pure_callee,
    slice_helper_for, unary_helper_name, wrapping_method_to_binop, AccTyTag, FloatTy, ReduceOp, ScalarTy,
};
use j2_passes::mir::BinOp;

#[test]
fn identity_bits_of_reductions() {
    assert_eq!(ReduceOp::Add.identity_bits(AccTyTag::U64), 0);
    assert_eq!(ReduceOp::Mul.identity_bits(AccTyTag::I32), 1);
    assert_eq!(ReduceOp::Mul.identity_bits(AccTyTag::F64), 1.0f64.to_bits() as u128);
    assert_eq!(ReduceOp::BitAnd.identity_bits(AccTyTag::U32), 0xffff_ffff);
    assert_eq!(ReduceOp::Min.identity_bits(AccTyTag::U64), u64::MAX as u128);
    assert_eq!(ReduceOp::Min.identity_bits(AccTyTag::I32), i32::MAX as u128);
    assert_eq!(ReduceOp::Max.identity_bits(AccTyTag::I64), 1u128 << 63);
    assert_eq!(ReduceOp::Max.identity_bits(AccTyTag::Usize), 0);
}

#[test]
fn reduce_helper_names() {
    assert_eq!(ReduceOp::Add.helper_diag_item(AccTyTag::U32), "parallel_runtime_parallel_reduce_add_u32");
    assert_eq!(ReduceOp::BitXor.helper_diag_item(AccTyTag::Isize), "parallel_runtime_parallel_reduce_xor_isize");
    assert_eq!(ReduceOp::Min.helper_diag_item(AccTyTag::F64), "");
}

#[test]
fn accumulator_types() {
    assert_eq!(AccTyTag::U32.width_bits(), 32);
    assert_eq!(AccTyTag::Isize.width_bits(), 64);
    assert!(AccTyTag::F64.is_float());
    assert!(!AccTyTag::I64.is_float());
    assert_eq!(AccTyTag::from_ty(ScalarTy::Usize), Some(AccTyTag::Usize));
    assert_eq!(AccTyTag::from_ty(ScalarTy::F64), Some(AccTyTag::F64));
    assert_eq!(AccTyTag::from_ty(ScalarTy::U8), None);
    assert_eq!(AccTyTag::from_ty(ScalarTy::F32), None);
}

#[test]
fn invoke_helpers_by_arity() {
    assert_eq!(invoke_helper_name_for_arity(0), Some("parallel_runtime_parallel_invoke_2_fn0"));
    assert_eq!(invoke_helper_name_for_arity(20), Some("parallel_runtime_parallel_invoke_2_fn20"));
    assert_eq!(invoke_helper_name_for_arity(21), None);
}

#[test]
fn apply_helpers() {
    assert_eq!(unary_helper_name("sqrt", FloatTy::F64), Some("parallel_runtime_parallel_apply_sqrt_f64"));
    assert_eq!(unary_helper_name("cbrt", FloatTy::F64), None);
    assert_eq!(binary_helper_name("atan2", FloatTy::F64), Some("parallel_runtime_parallel_apply_atan2_f64"));
    assert_eq!(binary_helper_name("sqrt", FloatTy::F64), None);
}

#[test]
fn slice_helpers() {
    assert_eq!(slice_helper_for("sum", AccTyTag::U64), Some("parallel_runtime_parallel_reduce_sum_slice_u64"));
    assert_eq!(slice_helper_for("product", AccTyTag::I32), Some("parallel_runtime_parallel_reduce_mul_slice_i32"));
    assert_eq!(slice_helper_for("max", AccTyTag::I32), None);
    assert!(for_each_helper_for(AccTyTag::U64, false).is_some());
}

#[test]
fn pure_callees_by_last_segment() {
    assert!(is_known_pure_callee("core::num::<impl u64>::wrapping_add"));
    assert!(is_known_pure_callee("to_be"));
    assert!(!is_known_pure_callee("std::io::stdout"));
    assert!(!is_known_pure_callee("my::wrapping_add::helper"));
}

#[test]
fn wrapping_methods_and_their_operators() {
    assert_eq!(wrapping_method_to_binop("core::num::<impl u8>::saturating_add"), Some(BinOp::Add));
    assert_eq!(wrapping_method_to_binop("checked_sub"), Some(BinOp::Sub));
    assert_eq!(wrapping_method_to_binop("x::overflowing_mul"), Some(BinOp::Mul));
    assert_eq!(wrapping_method_to_binop("x::wrapping_div"), None);
    assert!(is_associative_commutative(BinOp::MulWithOverflow));
    assert!(is_associative_commutative(BinOp::BitAnd));
    assert!(!is_associative_commutative(BinOp::Sub));
}

#[test]
fn reduce_helper_names_differ_by_operation_and_type() {
    assert_ne!(ReduceOp::Add.helper_diag_item(AccTyTag::U64), ReduceOp::Add.helper_diag_item(AccTyTag::I64));
    assert_ne!(ReduceOp::Min.helper_diag_item(AccTyTag::U64), ReduceOp::Max.helper_diag_item(AccTyTag::U64));
    assert_ne!(ReduceOp::BitOr.helper_diag_item(AccTyTag::Usize), ReduceOp::BitXor.helper_diag_item(AccTyTag::Usize));
}

#[test]
fn identity_bits_leave_values_unchanged() {
    let x: u64 = 0xdead_beef;
    assert_eq!(x & (ReduceOp::BitAnd.identity_bits(AccTyTag::U64) as u64), x);
    assert_eq!(x.wrapping_mul(ReduceOp::Mul.identity_bits(AccTyTag::U64) as u64), x);
    assert_eq!((ReduceOp::Min.identity_bits(AccTyTag::I32) as u32) as i32, i32::MAX);
    assert_eq!((ReduceOp::Max.identity_bits(AccTyTag::I32) as u32) as i32, i32::MIN);
}
