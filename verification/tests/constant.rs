use krnl::constant::div_rem;
use krnl::constant::fold_arith;
use krnl::constant::fold_compare;
use krnl::constant::fold_unary;
use krnl::constant::operand_of;
use krnl::constant::rem_floor;
use krnl::constant::OP_I_ADD;
use krnl::constant::OP_I_EQUAL;
use krnl::constant::OP_I_MUL;
use krnl::constant::OP_I_NOT_EQUAL;
use krnl::constant::OP_I_SUB;
use krnl::constant::OP_NOT;
use krnl::constant::OP_S_CONVERT;
use krnl::constant::OP_S_DIV;
use krnl::constant::OP_S_GREATER_THAN;
use krnl::constant::OP_S_LESS_THAN;
use krnl::constant::OP_S_LESS_THAN_EQUAL;
use krnl::constant::OP_S_MOD;
use krnl::constant::OP_S_NEGATE;
use krnl::constant::OP_S_REM;
use krnl::constant::OP_U_CONVERT;
use krnl::constant::OP_U_DIV;
use krnl::constant::OP_U_GREATER_THAN_EQUAL;
use krnl::constant::OP_U_LESS_THAN;
use krnl::constant::OP_U_MOD;
use krnl::constant::fold_fconvert;
use krnl::error::SpecError;
use krnl::fconvert::narrow;
use krnl::fconvert::power_of_two;
use krnl::fconvert::widen;
use krnl::scalar::bytes_of;
use krnl::scalar::ScalarElem as E;
use krnl::scalar::ScalarType as T;

#[test]
fn scalar_sizes_and_bytes() {
    assert_eq!(T::U8.size(), 1);
    assert_eq!(T::BF16.size(), 2);
    assert_eq!(T::F16.size(), 2);
    assert_eq!(T::I32.size(), 4);
    assert_eq!(T::F64.size(), 8);
    assert_eq!(E::U8(7).as_bytes(), vec![7]);
    assert_eq!(E::I8(-1).as_bytes(), vec![0xff]);
    assert_eq!(E::I16(-2).as_bytes(), vec![0xfe, 0xff]);
    assert_eq!(E::U32(0x0102_0304).as_bytes(), vec![4, 3, 2, 1]);
    assert_eq!(E::F32(2.0f32.to_bits()).as_bytes(), 2.0f32.to_le_bytes().to_vec());
    assert_eq!(E::I64(-1).as_bytes(), vec![0xff; 8]);
    assert_eq!(E::F64(1.5f64.to_bits()).as_bytes(), 1.5f64.to_le_bytes().to_vec());
    assert_eq!(bytes_of(0x0a0b, 4), vec![0x0b, 0x0a, 0, 0]);
}

#[test]
fn scalar_bits_and_types() {
    assert_eq!(E::I8(-128).to_bits(), 128);
    assert_eq!(E::I32(-1).to_bits(), 0xffff_ffff);
    assert_eq!(E::I32(-1).scalar_type(), T::I32);
    assert_eq!(E::from_bits(T::I8, 0x1ff), E::I8(-1));
    assert_eq!(E::from_bits(T::U16, 0x1_2345), E::U16(0x2345));
    assert_eq!(E::from_bits(T::I64, u64::MAX), E::I64(-1));
    assert_eq!(E::from_bits(T::F32, 0x3f80_0000), E::F32(0x3f80_0000));
    assert_eq!(E::from_int(T::U8, 256), None);
    assert_eq!(E::from_int(T::I8, -128), Some(E::I8(-128)));
    assert_eq!(E::from_int(T::U64, -1), None);
    assert_eq!(E::I16(-5).to_int(), -5);
    assert!(T::I16.is_integer());
    assert!(!T::BF16.is_integer());
}

#[test]
fn conversions_cast_in_range() {
    assert_eq!(fold_unary(OP_U_CONVERT, E::U32(200), T::U8), Ok(E::U8(200)));
    assert_eq!(fold_unary(OP_U_CONVERT, E::U32(256), T::U8), Err(SpecError::OutOfRange));
    assert_eq!(fold_unary(OP_S_CONVERT, E::I8(-3), T::I64), Ok(E::I64(-3)));
    assert_eq!(fold_unary(OP_S_CONVERT, E::I8(-3), T::U64), Err(SpecError::OutOfRange));
    assert_eq!(fold_unary(OP_S_CONVERT, E::F32(0), T::U64), Err(SpecError::TypeMismatch));
    assert_eq!(fold_unary(OP_U_CONVERT, E::U8(1), T::F32), Err(SpecError::TypeMismatch));
}

#[test]
fn negation_and_complement() {
    assert_eq!(fold_unary(OP_S_NEGATE, E::I32(5), T::I32), Ok(E::I32(-5)));
    assert_eq!(fold_unary(OP_S_NEGATE, E::U32(5), T::I32), Ok(E::I32(-5)));
    assert_eq!(fold_unary(OP_S_NEGATE, E::U32(0), T::U32), Ok(E::U32(0)));
    assert_eq!(fold_unary(OP_S_NEGATE, E::U32(5), T::U32), Err(SpecError::OutOfRange));
    assert_eq!(fold_unary(OP_S_NEGATE, E::I32(-5), T::U32), Ok(E::U32(5)));
    assert_eq!(fold_unary(OP_S_NEGATE, E::I8(-128), T::I8), Err(SpecError::OutOfRange));
    assert_eq!(fold_unary(OP_S_NEGATE, E::U8(128), T::I8), Err(SpecError::OutOfRange));
    assert_eq!(fold_unary(OP_S_NEGATE, E::I8(1), T::I16), Err(SpecError::TypeMismatch));
    assert_eq!(fold_unary(OP_NOT, E::U8(0x0f), T::U8), Ok(E::U8(0xf0)));
    assert_eq!(fold_unary(OP_NOT, E::I16(0), T::I16), Ok(E::I16(-1)));
    assert_eq!(fold_unary(OP_NOT, E::I16(0), T::U16), Err(SpecError::OutOfRange));
    assert_eq!(fold_unary(OP_NOT, E::U64(0), T::U64), Ok(E::U64(u64::MAX)));
}

#[test]
fn arithmetic_folds_exactly() {
    assert_eq!(fold_arith(OP_I_ADD, E::U32(7), E::U32(64), T::U32), Ok(E::U32(71)));
    assert_eq!(fold_arith(OP_I_SUB, E::I32(7), E::I32(64), T::I32), Ok(E::I32(-57)));
    assert_eq!(fold_arith(OP_I_MUL, E::U64(1 << 32), E::U64(3), T::U64), Ok(E::U64(3 << 32)));
    assert_eq!(fold_arith(OP_U_DIV, E::U32(7), E::U32(2), T::U32), Ok(E::U32(3)));
    assert_eq!(fold_arith(OP_S_DIV, E::I32(-7), E::I32(2), T::I32), Ok(E::I32(-3)));
    assert_eq!(fold_arith(OP_S_DIV, E::I32(7), E::I32(-2), T::I32), Ok(E::I32(-3)));
    assert_eq!(fold_arith(OP_U_MOD, E::U32(7), E::U32(4), T::U32), Ok(E::U32(3)));
    assert_eq!(fold_arith(OP_S_REM, E::I32(-7), E::I32(4), T::I32), Ok(E::I32(-3)));
    assert_eq!(fold_arith(OP_S_MOD, E::I32(-7), E::I32(4), T::I32), Ok(E::I32(1)));
    assert_eq!(fold_arith(OP_S_MOD, E::I32(-7), E::I32(2), T::I32), Ok(E::I32(1)));
    assert_eq!(fold_arith(OP_S_MOD, E::I32(7), E::I32(-4), T::I32), Ok(E::I32(-1)));
    assert_eq!(fold_arith(OP_S_MOD, E::I32(-7), E::I32(-4), T::I32), Ok(E::I32(-3)));
    assert_eq!(fold_arith(OP_S_MOD, E::I32(8), E::I32(-4), T::I32), Ok(E::I32(0)));
    assert_eq!(fold_arith(OP_S_MOD, E::I32(7), E::I32(4), T::I32), Ok(E::I32(3)));
    assert_eq!(fold_arith(OP_S_REM, E::I32(7), E::I32(-4), T::I32), Ok(E::I32(3)));
    assert_eq!(fold_arith(OP_I_ADD, E::U8(1), E::U8(2), T::U64), Ok(E::U64(3)));
}

#[test]
fn arithmetic_reports_overflow_division_by_zero_and_mismatch() {
    assert_eq!(fold_arith(OP_I_ADD, E::U8(200), E::U8(100), T::U32), Err(SpecError::OutOfRange));
    assert_eq!(fold_arith(OP_I_SUB, E::U32(1), E::U32(2), T::I32), Err(SpecError::OutOfRange));
    assert_eq!(
        fold_arith(OP_I_MUL, E::U64(u64::MAX), E::U64(u64::MAX), T::U64),
        Err(SpecError::OutOfRange)
    );
    assert_eq!(
        fold_arith(OP_S_DIV, E::I32(i32::MIN), E::I32(-1), T::I32),
        Err(SpecError::OutOfRange)
    );
    assert_eq!(fold_arith(OP_I_ADD, E::U32(300), E::U32(1), T::U8), Err(SpecError::OutOfRange));
    assert_eq!(fold_arith(OP_U_DIV, E::U32(1), E::U32(0), T::U32), Err(SpecError::DivideByZero));
    assert_eq!(fold_arith(OP_S_MOD, E::I8(1), E::I8(0), T::I8), Err(SpecError::DivideByZero));
    assert_eq!(fold_arith(OP_I_ADD, E::U32(1), E::I32(1), T::U32), Err(SpecError::TypeMismatch));
    assert_eq!(fold_arith(OP_I_ADD, E::F32(1), E::F32(1), T::F32), Err(SpecError::TypeMismatch));
}

#[test]
fn operators_read_operands_by_their_own_signedness() {
    assert_eq!(fold_compare(OP_U_LESS_THAN, E::I32(-1), E::I32(1)), Ok(false));
    assert_eq!(fold_compare(OP_S_LESS_THAN, E::I32(-1), E::I32(1)), Ok(true));
    assert_eq!(fold_compare(OP_S_LESS_THAN, E::U32(u32::MAX), E::U32(1)), Ok(true));
    assert_eq!(fold_compare(OP_U_LESS_THAN, E::U32(u32::MAX), E::U32(1)), Ok(false));
    assert_eq!(fold_compare(OP_U_GREATER_THAN_EQUAL, E::I8(-128), E::I8(127)), Ok(true));
    assert_eq!(fold_compare(OP_S_GREATER_THAN, E::U8(128), E::U8(127)), Ok(false));
    assert_eq!(fold_compare(OP_I_EQUAL, E::I64(-1), E::I64(-1)), Ok(true));
    assert_eq!(fold_arith(OP_U_DIV, E::I32(-2), E::I32(2), T::U32), Ok(E::U32(0x7fff_ffff)));
    assert_eq!(fold_arith(OP_U_DIV, E::I32(-2), E::I32(2), T::I32), Ok(E::I32(0x7fff_ffff)));
    assert_eq!(fold_arith(OP_U_DIV, E::I32(-2), E::I32(1), T::I32), Err(SpecError::OutOfRange));
    assert_eq!(fold_arith(OP_U_MOD, E::I8(-1), E::I8(16), T::U8), Ok(E::U8(15)));
    assert_eq!(fold_arith(OP_S_DIV, E::U32(u32::MAX), E::U32(1), T::I32), Ok(E::I32(-1)));
    assert_eq!(fold_arith(OP_S_DIV, E::U32(u32::MAX), E::U32(1), T::U32), Err(SpecError::OutOfRange));
    assert_eq!(fold_arith(OP_S_REM, E::U8(0xf9), E::U8(4), T::I8), Ok(E::I8(-3)));
    assert_eq!(fold_arith(OP_S_MOD, E::U8(0xf9), E::U8(4), T::I8), Ok(E::I8(1)));
    assert_eq!(fold_arith(OP_S_DIV, E::U8(0x80), E::U8(0xff), T::I8), Err(SpecError::OutOfRange));
    assert_eq!(operand_of(OP_U_DIV, E::I32(-1)), 0xffff_ffff);
    assert_eq!(operand_of(OP_S_DIV, E::U32(u32::MAX)), -1);
    assert_eq!(operand_of(OP_I_ADD, E::I32(-1)), -1);
    assert_eq!(operand_of(OP_I_ADD, E::U32(u32::MAX)), 0xffff_ffff);
    assert_eq!(rem_floor(-7, 2), 1);
    assert_eq!(rem_floor(7, -2), -1);
    assert_eq!(rem_floor(-6, 2), 0);
}

#[test]
fn division_rounds_towards_zero() {
    assert_eq!(div_rem(7, 2), (3, 1));
    assert_eq!(div_rem(-7, 2), (-3, -1));
    assert_eq!(div_rem(7, -2), (-3, 1));
    assert_eq!(div_rem(-7, -2), (3, -1));
    assert_eq!(div_rem(0, 5), (0, 0));
    assert_eq!(div_rem(u64::MAX as i128, 1), (u64::MAX as i128, 0));
}

#[test]
fn comparisons_fold_to_booleans() {
    assert_eq!(fold_compare(OP_I_EQUAL, E::U32(3), E::U32(3)), Ok(true));
    assert_eq!(fold_compare(OP_I_NOT_EQUAL, E::U32(3), E::U32(3)), Ok(false));
    assert_eq!(fold_compare(OP_U_LESS_THAN, E::U32(3), E::U32(4)), Ok(true));
    assert_eq!(fold_compare(OP_S_GREATER_THAN, E::I32(-3), E::I32(4)), Ok(false));
    assert_eq!(fold_compare(OP_S_LESS_THAN_EQUAL, E::I32(4), E::I32(4)), Ok(true));
    assert_eq!(fold_compare(OP_U_GREATER_THAN_EQUAL, E::U8(3), E::U8(4)), Ok(false));
    assert_eq!(fold_compare(OP_I_EQUAL, E::U32(3), E::I32(3)), Err(SpecError::TypeMismatch));
}

fn samples64() -> Vec<f64> {
    let mut v = vec![
        0.0,
        -0.0,
        1.0,
        -1.0,
        0.1,
        1.0 / 3.0,
        3.4028234663852886e38,
        3.4028235677973366e38,
        3.4028235677973362e38,
        3.5e38,
        1e300,
        -1e300,
        1.1754943508222875e-38,
        1.1754942106924411e-38,
        1.401298464324817e-45,
        7.006492321624085e-46,
        7.006492321624086e-46,
        7.0064923216240845e-46,
        2.1019476964872256e-45,
        1e-50,
        5e-324,
        f64::MAX,
        f64::MIN_POSITIVE,
        f64::INFINITY,
        f64::NEG_INFINITY,
        1.0000000596046448,
        1.0000001788139343,
        1.00000005960464488,
        16777217.0,
        16777219.0,
        0.5 + 2f64.powi(-25),
    ];
    let mut x: u64 = 0x9e37_79b9_7f4a_7c15;
    for _ in 0..2000 {
        x ^= x << 13;
        x ^= x >> 7;
        x ^= x << 17;
        let f = f64::from_bits(x);
        if !f.is_nan() {
            v.push(f);
        }
        let near = f64::from_bits((x % (1 << 52)) | ((850 + x % 320) << 52));
        v.push(near);
    }
    v
}

#[test]
fn narrowing_rounds_to_the_nearest_binary32() {
    for f in samples64() {
        assert_eq!(narrow(f.to_bits()), (f as f32).to_bits(), "{f:e}");
    }
    assert!(f32::from_bits(narrow(f64::NAN.to_bits())).is_nan());
    assert!(f32::from_bits(narrow(0xfff0_0000_0000_0001)).is_nan());
}

#[test]
fn widening_keeps_the_number() {
    let mut samples = vec![
        0.0f32,
        -0.0,
        1.0,
        -2.5,
        f32::MAX,
        f32::MIN_POSITIVE,
        f32::from_bits(1),
        f32::from_bits(0x7f_ffff),
        f32::from_bits(0x40_0000),
        f32::from_bits(0x8000_0003),
        f32::INFINITY,
        f32::NEG_INFINITY,
    ];
    let mut x: u32 = 0x2545_f491;
    for _ in 0..2000 {
        x ^= x << 13;
        x ^= x >> 17;
        x ^= x << 5;
        let f = f32::from_bits(x);
        if !f.is_nan() {
            samples.push(f);
        }
        samples.push(f32::from_bits(x % (1 << 23)));
    }
    for f in samples {
        assert_eq!(widen(f.to_bits()), (f as f64).to_bits(), "{f:e}");
    }
    assert!(f64::from_bits(widen(f32::NAN.to_bits())).is_nan());
    assert!(f64::from_bits(widen(0xff80_0001)).is_nan());
}

#[test]
fn float_conversion_needs_float_types() {
    assert_eq!(
        fold_fconvert(E::F32(1.0f32.to_bits()), T::F64),
        Ok(E::F64(1.0f64.to_bits()))
    );
    assert_eq!(
        fold_fconvert(E::F64(2.0f64.to_bits()), T::F32),
        Ok(E::F32(2.0f32.to_bits()))
    );
    assert_eq!(fold_fconvert(E::F32(0), T::F32), Err(SpecError::TypeMismatch));
    assert_eq!(fold_fconvert(E::U32(0), T::F64), Err(SpecError::TypeMismatch));
    assert_eq!(fold_fconvert(E::F16(0), T::F32), Err(SpecError::TypeMismatch));
    assert_eq!(power_of_two(0), 1);
    assert_eq!(power_of_two(53), 1 << 53);
}
