//! Folding of the constant operations that a module applies to specialization constants.
use vstd::prelude::*;
use crate::error::SpecError;
use crate::fconvert::narrow;
use crate::fconvert::spec_narrow;
use crate::fconvert::spec_widen;
use crate::fconvert::widen;
use crate::scalar::ScalarElem;
use crate::scalar::ScalarType;

verus! {

// The opcodes of the constant operations that are folded.
pub const OP_U_CONVERT: u32 = 113;
pub const OP_S_CONVERT: u32 = 114;
pub const OP_F_CONVERT: u32 = 115;
pub const OP_S_NEGATE: u32 = 126;
pub const OP_I_ADD: u32 = 128;
pub const OP_I_SUB: u32 = 130;
pub const OP_I_MUL: u32 = 132;
pub const OP_U_DIV: u32 = 134;
pub const OP_S_DIV: u32 = 135;
pub const OP_U_MOD: u32 = 137;
pub const OP_S_REM: u32 = 138;
pub const OP_S_MOD: u32 = 139;
pub const OP_SELECT: u32 = 169;
pub const OP_I_EQUAL: u32 = 170;
pub const OP_I_NOT_EQUAL: u32 = 171;
pub const OP_U_GREATER_THAN: u32 = 172;
pub const OP_S_GREATER_THAN: u32 = 173;
pub const OP_U_GREATER_THAN_EQUAL: u32 = 174;
pub const OP_S_GREATER_THAN_EQUAL: u32 = 175;
pub const OP_U_LESS_THAN: u32 = 176;
pub const OP_S_LESS_THAN: u32 = 177;
pub const OP_U_LESS_THAN_EQUAL: u32 = 178;
pub const OP_S_LESS_THAN_EQUAL: u32 = 179;
pub const OP_NOT: u32 = 200;

/// Whether `op` takes one integer and gives one: a conversion, a negation or a complement.
pub open spec fn is_unary(op: u32) -> bool {
    op == OP_U_CONVERT || op == OP_S_CONVERT || op == OP_S_NEGATE || op == OP_NOT
}

/// Whether `op` takes two integers and gives one.
pub open spec fn is_arith(op: u32) -> bool {
    op == OP_I_ADD || op == OP_I_SUB || op == OP_I_MUL || is_division(op)
}

/// Whether `op` divides.
pub open spec fn is_division(op: u32) -> bool {
    op == OP_U_DIV || op == OP_S_DIV || op == OP_U_MOD || op == OP_S_REM || op == OP_S_MOD
}

/// Whether `op` compares two integers.
pub open spec fn is_compare(op: u32) -> bool {
    OP_I_EQUAL <= op <= OP_S_LESS_THAN_EQUAL
}

/// The quotient of `a` by `b`, rounded towards zero.
pub open spec fn trunc_div(a: int, b: int) -> int {
    if a >= 0 {
        if b > 0 {
            a / b
        } else {
            -(a / (-b))
        }
    } else {
        if b > 0 {
            -((-a) / b)
        } else {
            (-a) / (-b)
        }
    }
}

/// What is left of `a` after `trunc_div(a, b)`: it has the sign of `a`.
pub open spec fn trunc_rem(a: int, b: int) -> int {
    if a >= 0 {
        if b > 0 {
            a % b
        } else {
            a % (-b)
        }
    } else {
        if b > 0 {
            -((-a) % b)
        } else {
            -((-a) % (-b))
        }
    }
}

/// What is left of `a` after a division by `b` whose quotient is rounded down: it has the
/// sign of `b`.
pub open spec fn floor_rem(a: int, b: int) -> int {
    if b > 0 {
        a % b
    } else {
        -((-a) % (-b))
    }
}

/// Whether `op` reads its operands as unsigned numbers, whatever their declared type.
pub open spec fn reads_unsigned(op: u32) -> bool {
    op == OP_U_DIV || op == OP_U_MOD || op == OP_U_GREATER_THAN || op == OP_U_GREATER_THAN_EQUAL
        || op == OP_U_LESS_THAN || op == OP_U_LESS_THAN_EQUAL
}

/// Whether `op` reads its operands as signed numbers, whatever their declared type.
pub open spec fn reads_signed(op: u32) -> bool {
    op == OP_S_DIV || op == OP_S_REM || op == OP_S_MOD || op == OP_S_GREATER_THAN || op
        == OP_S_GREATER_THAN_EQUAL || op == OP_S_LESS_THAN || op == OP_S_LESS_THAN_EQUAL
}

/// The number that `op` reads in `x`: an unsigned operator reads the bit pattern as it is,
/// a signed operator reads it in two's complement, and any other operator reads the value
/// of the declared type.
pub open spec fn operand(op: u32, x: ScalarElem) -> int {
    let patterns = x.spec_scalar_type().patterns();
    if reads_unsigned(op) {
        x.bits() as int
    } else if reads_signed(op) {
        if x.bits() >= patterns / 2 {
            x.bits() - patterns
        } else {
            x.bits() as int
        }
    } else {
        x.payload()
    }
}

/// Whether `v` is a number of the kind that `op` computes on operands of the integer type
/// `ty`: an unsigned or a signed number of the width of `ty`, as the operator is, or else a
/// value of `ty`.
pub open spec fn in_operator_range(op: u32, ty: ScalarType, v: int) -> bool {
    if reads_unsigned(op) {
        0 <= v < ty.patterns()
    } else if reads_signed(op) {
        -(ty.patterns() / 2) <= v < ty.patterns() / 2
    } else {
        ty.holds(v)
    }
}

/// The exact result of an arithmetic operation on two integers (`b` is not 0 where it
/// divides): a quotient is rounded towards zero, the remainder of `OpSRem` has the sign of
/// `a`, and that of `OpSMod` the sign of `b`.
pub open spec fn arith_raw(op: u32, a: int, b: int) -> int {
    if op == OP_I_ADD {
        a + b
    } else if op == OP_I_SUB {
        a - b
    } else if op == OP_I_MUL {
        a * b
    } else if op == OP_U_DIV || op == OP_S_DIV {
        trunc_div(a, b)
    } else if op == OP_S_MOD {
        floor_rem(a, b)
    } else {
        trunc_rem(a, b)
    }
}

/// The result of a comparison of two integers.
pub open spec fn compare_raw(op: u32, a: int, b: int) -> bool {
    if op == OP_I_EQUAL {
        a == b
    } else if op == OP_I_NOT_EQUAL {
        a != b
    } else if op == OP_U_GREATER_THAN || op == OP_S_GREATER_THAN {
        a > b
    } else if op == OP_U_GREATER_THAN_EQUAL || op == OP_S_GREATER_THAN_EQUAL {
        a >= b
    } else if op == OP_U_LESS_THAN || op == OP_S_LESS_THAN {
        a < b
    } else {
        a <= b
    }
}

/// `v` as a value of the integer type `ty`, or the error of a cast out of range.
pub open spec fn spec_cast(ty: ScalarType, v: int) -> Result<ScalarElem, SpecError> {
    match ScalarElem::spec_from_int(ty, v) {
        Some(e) => Ok(e),
        None => Err(SpecError::OutOfRange),
    }
}

/// The exact result of a unary operation on the integer `x` (for a negation and a
/// complement, `x` and the result type have one size).
pub open spec fn unary_raw(op: u32, x: ScalarElem) -> Result<int, SpecError> {
    let v = x.payload();
    let ty = x.spec_scalar_type();
    if op == OP_S_NEGATE {
        if !ty.is_signed() && v > ty.patterns() / 2 - 1 {
            Err(SpecError::OutOfRange)
        } else if ty.is_signed() && v == ty.min_int() {
            Err(SpecError::OutOfRange)
        } else {
            Ok(-v)
        }
    } else if op == OP_NOT {
        if ty.is_signed() {
            Ok(-v - 1)
        } else {
            Ok(ty.max_int() - v)
        }
    } else {
        Ok(v)
    }
}

/// What folding the unary operation `op` on `x` gives as a value of type `ty`.
///
/// A conversion casts the value of `x`. A negation gives the negated value and a complement
/// the value with every bit of `x` flipped, both for a `ty` of the size of `x` only, and the
/// negation only of a value that its signed type can hold negated.
pub open spec fn spec_fold_unary(op: u32, x: ScalarElem, ty: ScalarType) -> Result<
    ScalarElem,
    SpecError,
> {
    let xt = x.spec_scalar_type();
    if !xt.is_int() || !ty.is_int() {
        Err(SpecError::TypeMismatch)
    } else if (op == OP_S_NEGATE || op == OP_NOT) && xt.spec_size() != ty.spec_size() {
        Err(SpecError::TypeMismatch)
    } else {
        match unary_raw(op, x) {
            Ok(v) => spec_cast(ty, v),
            Err(e) => Err(e),
        }
    }
}

/// What folding the arithmetic operation `op` on `a` and `b` gives as a value of type `ty`.
///
/// Both operands have one integer type and are read as the operator reads them. The exact
/// result is a number of the kind that the operator computes, and is then cast to `ty`.
pub open spec fn spec_fold_arith(op: u32, a: ScalarElem, b: ScalarElem, ty: ScalarType) -> Result<
    ScalarElem,
    SpecError,
> {
    let at = a.spec_scalar_type();
    if at != b.spec_scalar_type() || !at.is_int() || !ty.is_int() {
        Err(SpecError::TypeMismatch)
    } else if is_division(op) && operand(op, b) == 0 {
        Err(SpecError::DivideByZero)
    } else {
        let raw = arith_raw(op, operand(op, a), operand(op, b));
        if !in_operator_range(op, at, raw) {
            Err(SpecError::OutOfRange)
        } else {
            spec_cast(ty, raw)
        }
    }
}

/// What folding the comparison `op` on `a` and `b` gives: both have one integer type, and
/// are compared as the operator reads them.
pub open spec fn spec_fold_compare(op: u32, a: ScalarElem, b: ScalarElem) -> Result<
    bool,
    SpecError,
> {
    let at = a.spec_scalar_type();
    if at != b.spec_scalar_type() || !at.is_int() {
        Err(SpecError::TypeMismatch)
    } else {
        Ok(compare_raw(op, operand(op, a), operand(op, b)))
    }
}

/// What folding a conversion between float types on `x` gives as a value of type `ty`: a
/// binary32 number as a binary64 number, or a binary64 number as the nearest binary32 number.
pub open spec fn spec_fold_fconvert(x: ScalarElem, ty: ScalarType) -> Result<ScalarElem, SpecError> {
    match (x, ty) {
        (ScalarElem::F32(bits), ScalarType::F64) => Ok(ScalarElem::F64(spec_widen(bits))),
        (ScalarElem::F64(bits), ScalarType::F32) => Ok(ScalarElem::F32(spec_narrow(bits))),
        _ => Err(SpecError::TypeMismatch),
    }
}

/// Folds a conversion between float types on `x` to a value of type `ty`.
pub fn fold_fconvert(x: ScalarElem, ty: ScalarType) -> (r: Result<ScalarElem, SpecError>)
    ensures
        r == spec_fold_fconvert(x, ty),
{
    match (x, ty) {
        (ScalarElem::F32(bits), ScalarType::F64) => Ok(ScalarElem::F64(widen(bits))),
        (ScalarElem::F64(bits), ScalarType::F32) => Ok(ScalarElem::F32(narrow(bits))),
        _ => Err(SpecError::TypeMismatch),
    }
}

/// `v` as a value of the integer type `ty`.
pub fn cast(ty: ScalarType, v: i128) -> (r: Result<ScalarElem, SpecError>)
    ensures
        r == spec_cast(ty, v as int),
{
    match ScalarElem::from_int(ty, v) {
        Some(e) => Ok(e),
        None => Err(SpecError::OutOfRange),
    }
}

/// Folds the unary operation `op` on `x` to a value of type `ty`.
pub fn fold_unary(op: u32, x: ScalarElem, ty: ScalarType) -> (r: Result<ScalarElem, SpecError>)
    requires
        is_unary(op),
    ensures
        r == spec_fold_unary(op, x, ty),
{
    let xt = x.scalar_type();
    if !xt.is_integer() || !ty.is_integer() {
        return Err(SpecError::TypeMismatch);
    }
    if (op == OP_S_NEGATE || op == OP_NOT) && xt.size() != ty.size() {
        return Err(SpecError::TypeMismatch);
    }
    let v: i128 = x.to_int();
    if op == OP_S_NEGATE {
        let signed: bool = is_signed_type(xt);
        let half: i128 = match xt.size() {
            1 => 0x80,
            2 => 0x8000,
            4 => 0x8000_0000,
            _ => 0x8000_0000_0000_0000,
        };
        if !signed && v > half - 1 {
            return Err(SpecError::OutOfRange);
        }
        if signed && v == -half {
            return Err(SpecError::OutOfRange);
        }
        cast(ty, -v)
    } else if op == OP_NOT {
        if is_signed_type(xt) {
            cast(ty, -v - 1)
        } else {
            let max: i128 = match xt.size() {
                1 => 0xff,
                2 => 0xffff,
                4 => 0xffff_ffff,
                _ => 0xffff_ffff_ffff_ffff,
            };
            cast(ty, max - v)
        }
    } else {
        cast(ty, v)
    }
}

/// Whether `ty` is a signed integer type.
pub fn is_signed_type(ty: ScalarType) -> (r: bool)
    ensures
        r == ty.is_signed(),
{
    match ty {
        ScalarType::I8 | ScalarType::I16 | ScalarType::I32 | ScalarType::I64 => true,
        _ => false,
    }
}

/// The quotient and the remainder of `a` by `b`, rounded towards zero.
pub fn div_rem(a: i128, b: i128) -> (r: (i128, i128))
    requires
        b != 0,
        -0x8000_0000_0000_0000 <= a <= 0xffff_ffff_ffff_ffff,
        -0x8000_0000_0000_0000 <= b <= 0xffff_ffff_ffff_ffff,
    ensures
        r.0 == trunc_div(a as int, b as int),
        r.1 == trunc_rem(a as int, b as int),
{
    let ma: u128 = if a >= 0 { a as u128 } else { (-a) as u128 };
    let mb: u128 = if b >= 0 { b as u128 } else { (-b) as u128 };
    let q: u128 = ma / mb;
    let m: u128 = ma % mb;
    proof {
        assert(q <= ma) by (nonlinear_arith)
            requires
                q == ma / mb,
                mb > 0,
        ;
    }
    let quotient: i128 = if (a >= 0) == (b > 0) { q as i128 } else { -(q as i128) };
    let remainder: i128 = if a >= 0 { m as i128 } else { -(m as i128) };
    (quotient, remainder)
}

/// The remainder of a negated number by a positive one.
pub proof fn lemma_mod_of_negation(n: int, d: int)
    requires
        0 <= n,
        0 < d,
    ensures
        (-n) % d == if n % d == 0 {
            0
        } else {
            d - n % d
        },
{
    let q = n / d;
    let m = n % d;
    vstd::arithmetic::div_mod::lemma_fundamental_div_mod(n, d);
    vstd::arithmetic::div_mod::lemma_mod_pos_bound(n, d);
    if m == 0 {
        assert(-n == (-q) * d + 0) by (nonlinear_arith)
            requires
                n == d * q + m,
                m == 0,
        ;
        vstd::arithmetic::div_mod::lemma_fundamental_div_mod_converse(-n, d, -q, 0);
    } else {
        assert(-n == (-q - 1) * d + (d - m)) by (nonlinear_arith)
            requires
                n == d * q + m,
        ;
        vstd::arithmetic::div_mod::lemma_fundamental_div_mod_converse(-n, d, -q - 1, d - m);
    }
}

/// What is left of `a` after a division by `b` whose quotient is rounded down.
pub fn rem_floor(a: i128, b: i128) -> (r: i128)
    requires
        b != 0,
        -0x8000_0000_0000_0000 <= a <= 0xffff_ffff_ffff_ffff,
        -0x8000_0000_0000_0000 <= b <= 0xffff_ffff_ffff_ffff,
    ensures
        r == floor_rem(a as int, b as int),
{
    let rest: i128 = div_rem(a, b).1;
    proof {
        if b > 0 && a < 0 {
            lemma_mod_of_negation(-a, b as int);
        }
        if b < 0 && a >= 0 {
            lemma_mod_of_negation(a as int, -b);
        }
    }
    if rest != 0 && ((rest < 0) != (b < 0)) {
        rest + b
    } else {
        rest
    }
}

/// Whether `op` reads its operands as unsigned numbers.
pub fn is_unsigned_op(op: u32) -> (r: bool)
    ensures
        r == reads_unsigned(op),
{
    op == OP_U_DIV || op == OP_U_MOD || op == OP_U_GREATER_THAN || op == OP_U_GREATER_THAN_EQUAL
        || op == OP_U_LESS_THAN || op == OP_U_LESS_THAN_EQUAL
}

/// Whether `op` reads its operands as signed numbers.
pub fn is_signed_op(op: u32) -> (r: bool)
    ensures
        r == reads_signed(op),
{
    op == OP_S_DIV || op == OP_S_REM || op == OP_S_MOD || op == OP_S_GREATER_THAN || op
        == OP_S_GREATER_THAN_EQUAL || op == OP_S_LESS_THAN || op == OP_S_LESS_THAN_EQUAL
}

/// Half of the bit patterns of `ty`.
pub fn half_patterns(ty: ScalarType) -> (r: i128)
    ensures
        r == ty.patterns() / 2,
        2 * r == ty.patterns(),
{
    match ty.size() {
        1 => 0x80,
        2 => 0x8000,
        4 => 0x8000_0000,
        _ => 0x8000_0000_0000_0000,
    }
}

/// The number that `op` reads in `x`.
pub fn operand_of(op: u32, x: ScalarElem) -> (r: i128)
    ensures
        r == operand(op, x),
        -0x8000_0000_0000_0000 <= r <= 0xffff_ffff_ffff_ffff,
{
    if is_unsigned_op(op) {
        x.to_bits() as i128
    } else if is_signed_op(op) {
        let bits: i128 = x.to_bits() as i128;
        let half: i128 = half_patterns(x.scalar_type());
        if bits >= half {
            bits - 2 * half
        } else {
            bits
        }
    } else {
        x.to_int()
    }
}

/// Whether `v` is a number of the kind that `op` computes on operands of type `ty`.
pub fn operator_holds(op: u32, ty: ScalarType, v: i128) -> (r: bool)
    ensures
        r == in_operator_range(op, ty, v as int),
{
    let half: i128 = half_patterns(ty);
    if is_unsigned_op(op) {
        0 <= v && v < 2 * half
    } else if is_signed_op(op) {
        -half <= v && v < half
    } else {
        ScalarElem::from_int(ty, v).is_some()
    }
}

/// Folds the arithmetic operation `op` on `a` and `b` to a value of type `ty`.
pub fn fold_arith(op: u32, a: ScalarElem, b: ScalarElem, ty: ScalarType) -> (r: Result<
    ScalarElem,
    SpecError,
>)
    requires
        is_arith(op),
    ensures
        r == spec_fold_arith(op, a, b, ty),
{
    let at = a.scalar_type();
    if at != b.scalar_type() || !at.is_integer() || !ty.is_integer() {
        return Err(SpecError::TypeMismatch);
    }
    let x: i128 = operand_of(op, a);
    let y: i128 = operand_of(op, b);
    let division: bool = op == OP_U_DIV || op == OP_S_DIV || op == OP_U_MOD || op == OP_S_REM || op
        == OP_S_MOD;
    if division && y == 0 {
        return Err(SpecError::DivideByZero);
    }
    let raw: Option<i128> = if op == OP_I_ADD {
        Some(x + y)
    } else if op == OP_I_SUB {
        Some(x - y)
    } else if op == OP_I_MUL {
        x.checked_mul(y)
    } else if op == OP_U_DIV || op == OP_S_DIV {
        Some(div_rem(x, y).0)
    } else if op == OP_S_MOD {
        Some(rem_floor(x, y))
    } else {
        Some(div_rem(x, y).1)
    };
    match raw {
        None => Err(SpecError::OutOfRange),
        Some(v) => {
            if !operator_holds(op, at, v) {
                Err(SpecError::OutOfRange)
            } else {
                cast(ty, v)
            }
        },
    }
}

/// Folds the comparison `op` on `a` and `b`.
pub fn fold_compare(op: u32, a: ScalarElem, b: ScalarElem) -> (r: Result<bool, SpecError>)
    requires
        is_compare(op),
    ensures
        r == spec_fold_compare(op, a, b),
{
    let at = a.scalar_type();
    if at != b.scalar_type() || !at.is_integer() {
        return Err(SpecError::TypeMismatch);
    }
    let x: i128 = operand_of(op, a);
    let y: i128 = operand_of(op, b);
    let v: bool = if op == OP_I_EQUAL {
        x == y
    } else if op == OP_I_NOT_EQUAL {
        x != y
    } else if op == OP_U_GREATER_THAN || op == OP_S_GREATER_THAN {
        x > y
    } else if op == OP_U_GREATER_THAN_EQUAL || op == OP_S_GREATER_THAN_EQUAL {
        x >= y
    } else if op == OP_U_LESS_THAN || op == OP_S_LESS_THAN {
        x < y
    } else {
        x <= y
    };
    Ok(v)
}

} // verus!
