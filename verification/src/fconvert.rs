//! Conversion between the bit patterns of binary32 and binary64 numbers, in integers: the
//! runtime holds such numbers by their bits and folds `OpFConvert` on them.
//!
//! A binary32 pattern has a sign bit, 8 exponent bits and 23 fraction bits; a binary64
//! pattern a sign bit, 11 exponent bits and 52 fraction bits.
use vstd::prelude::*;

verus! {

/// 2 to the power of `n`.
pub open spec fn two_pow(n: nat) -> nat
    decreases n,
{
    if n == 0 {
        1
    } else {
        2 * two_pow((n - 1) as nat)
    }
}

/// How often the fraction `m` of a subnormal binary32 number doubles until it has the
/// leading bit of a normal one. For `m` from 1 up to below 2 to the 23.
pub open spec fn doublings(m: int) -> nat
    decreases 0x100_0000 - m,
{
    if m <= 0 || m >= 0x80_0000 {
        0
    } else {
        1 + doublings(2 * m)
    }
}

/// `m` doubled `k` times.
pub open spec fn doubled(m: int, k: nat) -> int {
    m * two_pow(k)
}

/// The binary64 pattern of a sign, a biased exponent and a fraction.
pub open spec fn pack64(sign: int, exponent: int, fraction: int) -> u64 {
    (sign * 0x8000_0000_0000_0000 + exponent * 0x10_0000_0000_0000 + fraction) as u64
}

/// What is added to a quotient that is rounded to the nearest whole, a tie to the even one:
/// 1 where the rest is more than half of the divisor, or is half and the quotient odd.
pub open spec fn round_up_by(quotient: int, rest: int, half: int) -> int {
    if rest > half || (rest == half && quotient % 2 == 1) {
        1
    } else {
        0
    }
}

/// The binary64 pattern of the number whose binary32 pattern is `bits`: the same number,
/// as every binary32 number is a binary64 number. Not-a-number stays so, quiet, with the
/// fraction kept at the top.
pub open spec fn spec_widen(bits: u32) -> u64 {
    let sign = bits as int / 0x8000_0000;
    let exponent = bits as int / 0x80_0000 % 0x100;
    let fraction = bits as int % 0x80_0000;
    if exponent == 0xff {
        if fraction == 0 {
            pack64(sign, 0x7ff, 0)
        } else if fraction >= 0x40_0000 {
            pack64(sign, 0x7ff, fraction * 0x2000_0000)
        } else {
            pack64(sign, 0x7ff, fraction * 0x2000_0000 + 0x8_0000_0000_0000)
        }
    } else if exponent == 0 {
        if fraction == 0 {
            pack64(sign, 0, 0)
        } else {
            let k = doublings(fraction);
            pack64(sign, 897 - k, (doubled(fraction, k) - 0x80_0000) * 0x2000_0000)
        }
    } else {
        pack64(sign, exponent + 896, fraction * 0x2000_0000)
    }
}

/// The binary32 pattern of the binary32 number nearest to the number whose binary64 pattern
/// is `bits`, a tie going to the one with the even fraction; infinity where the number is
/// beyond the binary32 numbers. Not-a-number stays so, quiet, with the top of the fraction.
pub open spec fn spec_narrow(bits: u64) -> u32 {
    let sign = bits as int / 0x8000_0000_0000_0000;
    let exponent = bits as int / 0x10_0000_0000_0000 % 0x800;
    let fraction = bits as int % 0x10_0000_0000_0000;
    let top = sign * 0x8000_0000;
    if exponent == 0x7ff {
        if fraction == 0 {
            (top + 0x7f80_0000) as u32
        } else {
            (top + 0x7fc0_0000 + fraction / 0x2000_0000 % 0x40_0000) as u32
        }
    } else if exponent >= 896 + 0xff {
        (top + 0x7f80_0000) as u32
    } else if exponent >= 897 {
        let quotient = fraction / 0x2000_0000;
        let rest = fraction % 0x2000_0000;
        (top + (exponent - 896) * 0x80_0000 + quotient + round_up_by(quotient, rest, 0x1000_0000)) as u32
    } else if exponent < 873 {
        top as u32
    } else {
        let divisor = two_pow((926 - exponent) as nat) as int;
        let whole = 0x10_0000_0000_0000 + fraction;
        let quotient = whole / divisor;
        let rest = whole % divisor;
        (top + quotient + round_up_by(quotient, rest, divisor / 2)) as u32
    }
}

/// 2 to the power of `n`, for an `n` up to 62.
pub fn power_of_two(n: u32) -> (r: u64)
    requires
        n <= 62,
    ensures
        r == two_pow(n as nat),
        1 <= r <= 0x4000_0000_0000_0000,
{
    let mut r: u64 = 1;
    let mut i: u32 = 0;
    proof {
        lemma_two_pow_62();
    }
    while i < n
        invariant
            i <= n <= 62,
            r == two_pow(i as nat),
            1 <= r,
            r * two_pow((62 - i) as nat) == 0x4000_0000_0000_0000,
        decreases n - i,
    {
        proof {
            assert(two_pow((62 - i) as nat) == 2 * two_pow((62 - i - 1) as nat));
            assert(r * (2 * two_pow((62 - i - 1) as nat)) == 2 * r * two_pow((62 - i - 1) as nat))
                by (nonlinear_arith);
            assert(2 * r <= 2 * r * two_pow((62 - i - 1) as nat)) by (nonlinear_arith)
                requires
                    two_pow((62 - i - 1) as nat) >= 1,
                    r >= 1,
            ;
            lemma_two_pow_positive((62 - i - 1) as nat);
        }
        r = 2 * r;
        i = i + 1;
    }
    proof {
        lemma_two_pow_positive((62 - n) as nat);
        assert(r <= r * two_pow((62 - n) as nat)) by (nonlinear_arith)
            requires
                two_pow((62 - n) as nat) >= 1,
                r >= 1,
        ;
    }
    r
}

/// A power of 2 is at least 1.
pub proof fn lemma_two_pow_positive(n: nat)
    ensures
        two_pow(n) >= 1,
    decreases n,
{
    if n > 0 {
        lemma_two_pow_positive((n - 1) as nat);
    }
}

/// The binary64 pattern of the number whose binary32 pattern is `bits`.
pub fn widen(bits: u32) -> (r: u64)
    ensures
        r == spec_widen(bits),
{
    let sign: u64 = (bits / 0x8000_0000) as u64;
    let exponent: u64 = (bits / 0x80_0000 % 0x100) as u64;
    let fraction: u64 = (bits % 0x80_0000) as u64;
    let top: u64 = sign * 0x8000_0000_0000_0000;
    if exponent == 0xff {
        if fraction == 0 {
            top + 0x7ff * 0x10_0000_0000_0000
        } else if fraction >= 0x40_0000 {
            top + 0x7ff * 0x10_0000_0000_0000 + fraction * 0x2000_0000
        } else {
            top + 0x7ff * 0x10_0000_0000_0000 + fraction * 0x2000_0000 + 0x8_0000_0000_0000
        }
    } else if exponent == 0 {
        if fraction == 0 {
            top
        } else {
            let mut m: u64 = fraction;
            let mut k: u64 = 0;
            proof {
                assert(two_pow(0) == 1);
                lemma_two_pow_23();
            }
            while m < 0x80_0000
                invariant
                    1 <= m < 0x100_0000,
                    k <= 23,
                    1 <= fraction < 0x80_0000,
                    m == doubled(fraction as int, k as nat),
                    doublings(fraction as int) == k + doublings(m as int),
                    m * two_pow((23 - k) as nat) == fraction * 0x80_0000,
                decreases 0x100_0000 - m,
            {
                proof {
                    if k == 23 {
                        let t = two_pow(0);
                        assert(t == 1);
                        assert(m * t == m) by (nonlinear_arith)
                            requires
                                t == 1,
                        ;
                        assert(false);
                    }
                    assert(two_pow((k + 1) as nat) == 2 * two_pow(k as nat));
                    assert(fraction * (2 * two_pow(k as nat)) == 2 * (fraction * two_pow(k as nat)))
                        by (nonlinear_arith);
                    assert(two_pow((23 - k) as nat) == 2 * two_pow((23 - k - 1) as nat));
                    assert(m * (2 * two_pow((23 - k - 1) as nat)) == (2 * m) * two_pow(
                        (23 - k - 1) as nat,
                    )) by (nonlinear_arith);
                }
                m = 2 * m;
                k = k + 1;
            }
            proof {
                assert(doublings(m as int) == 0);
                if k == 0 {
                    assert(false);
                }
            }
            top + (897 - k) * 0x10_0000_0000_0000 + (m - 0x80_0000) * 0x2000_0000
        }
    } else {
        top + (exponent + 896) * 0x10_0000_0000_0000 + fraction * 0x2000_0000
    }
}

/// The binary32 pattern of the binary32 number nearest to the number whose binary64 pattern
/// is `bits`.
pub fn narrow(bits: u64) -> (r: u32)
    ensures
        r == spec_narrow(bits),
{
    let sign: u64 = bits / 0x8000_0000_0000_0000;
    let exponent: u64 = bits / 0x10_0000_0000_0000 % 0x800;
    let fraction: u64 = bits % 0x10_0000_0000_0000;
    let top: u64 = sign * 0x8000_0000;
    if exponent == 0x7ff {
        if fraction == 0 {
            (top + 0x7f80_0000) as u32
        } else {
            (top + 0x7fc0_0000 + fraction / 0x2000_0000 % 0x40_0000) as u32
        }
    } else if exponent >= 896 + 0xff {
        (top + 0x7f80_0000) as u32
    } else if exponent >= 897 {
        let quotient: u64 = fraction / 0x2000_0000;
        let rest: u64 = fraction % 0x2000_0000;
        let up: u64 = if rest > 0x1000_0000 || (rest == 0x1000_0000 && quotient % 2 == 1) {
            1
        } else {
            0
        };
        (top + (exponent - 896) * 0x80_0000 + quotient + up) as u32
    } else if exponent < 873 {
        top as u32
    } else {
        let divisor: u64 = power_of_two((926 - exponent) as u32);
        let whole: u64 = 0x10_0000_0000_0000 + fraction;
        let quotient: u64 = whole / divisor;
        let rest: u64 = whole % divisor;
        let half: u64 = divisor / 2;
        let up: u64 = if rest > half || (rest == half && quotient % 2 == 1) { 1 } else { 0 };
        proof {
            lemma_two_pow_30();
            lemma_two_pow_grows(30, (926 - exponent) as nat);
            assert(quotient <= whole / 0x4000_0000) by (nonlinear_arith)
                requires
                    quotient == whole / divisor,
                    divisor >= 0x4000_0000,
                    whole >= 0,
            ;
        }
        (top + quotient + up) as u32
    }
}

/// 2 to the power of 62.
pub proof fn lemma_two_pow_62()
    ensures
        two_pow(62) == 0x4000_0000_0000_0000,
{
    reveal_with_fuel(two_pow, 63);
}

/// 2 to the power of 23.
pub proof fn lemma_two_pow_23()
    ensures
        two_pow(23) == 0x80_0000,
{
    reveal_with_fuel(two_pow, 24);
}

/// 2 to the power of 30.
pub proof fn lemma_two_pow_30()
    ensures
        two_pow(30) == 0x4000_0000,
{
    reveal_with_fuel(two_pow, 31);
}

/// The powers of 2 grow.
pub proof fn lemma_two_pow_grows(a: nat, b: nat)
    requires
        a <= b,
    ensures
        two_pow(a) <= two_pow(b),
    decreases b,
{
    if a < b {
        lemma_two_pow_grows(a, (b - 1) as nat);
    }
}

} // verus!
