//! Semantics of the RISC-V M-extension division instructions exercised by the
//! benchmarks, computed with ordinary (safe) integer arithmetic.
use vstd::arithmetic::div_mod::{
    lemma_div_basics, lemma_fundamental_div_mod, lemma_mod_add_multiples_vanish, lemma_mod_bound,
    lemma_small_mod,
};
use vstd::prelude::*;

verus! {

/// Two to the 64th power.
pub open spec fn two_pow_64() -> int {
    0x1_0000_0000_0000_0000
}

/// The two's-complement value of a 64-bit register.
pub open spec fn signed_value(x: u64) -> int {
    if x < 0x8000_0000_0000_0000 {
        x as int
    } else {
        x as int - two_pow_64()
    }
}

/// The 64-bit register that holds `x` modulo 2^64.
pub open spec fn wrap_u64(x: int) -> u64 {
    (x % two_pow_64()) as u64
}

/// Absolute value of a mathematical integer.
pub open spec fn magnitude(a: int) -> int {
    if a < 0 {
        -a
    } else {
        a
    }
}

/// Quotient rounded toward zero (meaningful for `b != 0`).
pub open spec fn trunc_div(a: int, b: int) -> int {
    let q = magnitude(a) / magnitude(b);
    if (a < 0) != (b < 0) {
        -q
    } else {
        q
    }
}

/// Remainder of the quotient rounded toward zero: it takes the sign of the
/// dividend (meaningful for `b != 0`).
pub open spec fn trunc_rem(a: int, b: int) -> int {
    let r = magnitude(a) % magnitude(b);
    if a < 0 {
        -r
    } else {
        r
    }
}

/// `DIV rd, rs1, rs2` on RV64: signed division of the two registers, rounded toward
/// zero. Division by zero gives all ones (-1); the overflowing case
/// `i64::MIN / -1` gives the dividend.
pub open spec fn spec_div(dividend: u64, divisor: u64) -> u64 {
    if divisor == 0 {
        u64::MAX
    } else if signed_value(dividend) == i64::MIN && signed_value(divisor) == -1 {
        dividend
    } else {
        wrap_u64(trunc_div(signed_value(dividend), signed_value(divisor)))
    }
}

/// Executes `DIV` on two 64-bit register values.
pub fn div(dividend: u64, divisor: u64) -> (quotient: u64)
    ensures
        quotient == spec_div(dividend, divisor),
{
    if divisor == 0 {
        return u64::MAX;
    }
    let dividend_negative: bool = dividend >= 0x8000_0000_0000_0000;
    let divisor_negative: bool = divisor >= 0x8000_0000_0000_0000;
    let dividend_magnitude: u64 = if dividend_negative {
        0u64.wrapping_sub(dividend)
    } else {
        dividend
    };
    let divisor_magnitude: u64 = if divisor_negative {
        0u64.wrapping_sub(divisor)
    } else {
        divisor
    };
    assert(dividend_magnitude == magnitude(signed_value(dividend)));
    assert(divisor_magnitude == magnitude(signed_value(divisor)));
    let q: u64 = dividend_magnitude / divisor_magnitude;
    let ghost sd: int = signed_value(dividend);
    let ghost sv: int = signed_value(divisor);
    assert(q == magnitude(sd) / magnitude(sv));
    if dividend_negative != divisor_negative {
        proof {
            if q > 0 {
                lemma_mod_add_multiples_vanish(-(q as int), two_pow_64());
                lemma_small_mod((two_pow_64() - q) as nat, two_pow_64() as nat);
            }
            assert(trunc_div(sd, sv) == -(q as int));
            assert(0u64.wrapping_sub(q) == wrap_u64(-(q as int)));
        }
        0u64.wrapping_sub(q)
    } else {
        proof {
            lemma_small_mod(q as nat, two_pow_64() as nat);
            assert(trunc_div(sd, sv) == q as int);
            assert(q == wrap_u64(q as int));
            if sd == i64::MIN && sv == -1 {
                assert(magnitude(sv) == 1);
                lemma_div_basics(magnitude(sd));
                assert(q == magnitude(sd));
            }
        }
        q
    }
}

/// `REMW rd, rs1, rs2` on RV64, on the low 32 bits of the registers read as signed
/// words: the remainder of the division rounded toward zero, which takes the sign of
/// the dividend. A zero divisor gives the dividend; the overflowing case
/// `i32::MIN % -1` gives zero.
pub open spec fn spec_remw(dividend: i32, divisor: i32) -> i32 {
    if divisor == 0 {
        dividend
    } else if dividend == i32::MIN && divisor == -1 {
        0
    } else {
        trunc_rem(dividend as int, divisor as int) as i32
    }
}

/// Executes `REMW` on two 32-bit signed words.
pub fn remw(dividend: i32, divisor: i32) -> (remainder: i32)
    ensures
        remainder == spec_remw(dividend, divisor),
{
    if divisor == 0 {
        return dividend;
    }
    let wide_dividend: i64 = dividend as i64;
    let wide_divisor: i64 = divisor as i64;
    let dividend_magnitude: u64 = if wide_dividend < 0 {
        (-wide_dividend) as u64
    } else {
        wide_dividend as u64
    };
    let divisor_magnitude: u64 = if wide_divisor < 0 {
        (-wide_divisor) as u64
    } else {
        wide_divisor as u64
    };
    let r: u64 = dividend_magnitude % divisor_magnitude;
    assert(r == magnitude(dividend as int) % magnitude(divisor as int));
    assert(r < 0x8000_0000);
    let signed_r: i64 = r as i64;
    let result: i64 = if wide_dividend < 0 {
        -signed_r
    } else {
        signed_r
    };
    proof {
        if dividend == i32::MIN && divisor == -1 {
            assert(magnitude(divisor as int) == 1);
            assert(r == 0);
        }
    }
    result as i32
}

/// Division rounded toward zero: the quotient and remainder rebuild the dividend,
/// the remainder is smaller than the divisor in magnitude and, unless it is zero,
/// has the sign of the dividend.
pub proof fn lemma_trunc_division(a: int, b: int)
    requires
        b != 0,
    ensures
        a == b * trunc_div(a, b) + trunc_rem(a, b),
        magnitude(trunc_rem(a, b)) < magnitude(b),
        trunc_rem(a, b) != 0 ==> (trunc_rem(a, b) < 0) == (a < 0),
{
    let ma = magnitude(a);
    let mb = magnitude(b);
    let q = ma / mb;
    let r = ma % mb;
    lemma_fundamental_div_mod(ma, mb);
    lemma_mod_bound(ma, mb);
    assert(ma == mb * q + r);
    if a < 0 {
        if b < 0 {
            assert(a == b * q + (-r)) by (nonlinear_arith)
                requires
                    ma == mb * q + r,
                    a == -ma,
                    b == -mb,
            ;
        } else {
            assert(a == b * (-q) + (-r)) by (nonlinear_arith)
                requires
                    ma == mb * q + r,
                    a == -ma,
                    b == mb,
            ;
        }
    } else {
        if b < 0 {
            assert(a == b * (-q) + r) by (nonlinear_arith)
                requires
                    ma == mb * q + r,
                    a == ma,
                    b == -mb,
            ;
        }
    }
}

/// `DIV` by a nonzero divisor is the quotient rounded toward zero, taken modulo
/// 2^64; outside the overflowing case `i64::MIN / -1` the register holds that
/// quotient exactly, as a signed value.
pub proof fn lemma_div_is_truncated_quotient(dividend: u64, divisor: u64)
    requires
        divisor != 0,
    ensures
        spec_div(dividend, divisor) == wrap_u64(
            trunc_div(signed_value(dividend), signed_value(divisor)),
        ),
        !(signed_value(dividend) == i64::MIN && signed_value(divisor) == -1) ==> signed_value(
            spec_div(dividend, divisor),
        ) == trunc_div(signed_value(dividend), signed_value(divisor)),
{
    let sd = signed_value(dividend);
    let sv = signed_value(divisor);
    let q = magnitude(sd) / magnitude(sv);
    assert(magnitude(sd) <= 0x8000_0000_0000_0000);
    assert(magnitude(sv) >= 1);
    assert(q <= magnitude(sd)) by (nonlinear_arith)
        requires
            magnitude(sv) >= 1,
            magnitude(sd) >= 0,
            q == magnitude(sd) / magnitude(sv),
    ;
    if sd == i64::MIN && sv == -1 {
        lemma_div_basics(magnitude(sd));
        lemma_small_mod(q as nat, two_pow_64() as nat);
    } else {
        let t = trunc_div(sd, sv);
        if t < 0 {
            lemma_mod_add_multiples_vanish(t, two_pow_64());
            lemma_small_mod((two_pow_64() + t) as nat, two_pow_64() as nat);
        } else {
            if q == 0x8000_0000_0000_0000 {
                assert(magnitude(sv) == 1) by (nonlinear_arith)
                    requires
                        magnitude(sv) >= 1,
                        magnitude(sd) <= 0x8000_0000_0000_0000,
                        q == magnitude(sd) / magnitude(sv),
                        q == 0x8000_0000_0000_0000,
                ;
            }
            lemma_small_mod(t as nat, two_pow_64() as nat);
        }
    }
}

/// `REMW` by a nonzero divisor, the overflowing case included, is the remainder
/// of the division rounded toward zero: with that quotient it rebuilds the dividend,
/// it is smaller than the divisor in magnitude and, unless it is zero, it has the
/// sign of the dividend.
pub proof fn lemma_remw_is_truncated_remainder(dividend: i32, divisor: i32)
    requires
        divisor != 0,
    ensures
        spec_remw(dividend, divisor) == trunc_rem(dividend as int, divisor as int),
        dividend == divisor * trunc_div(dividend as int, divisor as int) + spec_remw(
            dividend,
            divisor,
        ),
        magnitude(spec_remw(dividend, divisor) as int) < magnitude(divisor as int),
        spec_remw(dividend, divisor) != 0 ==> (spec_remw(dividend, divisor) < 0) == (dividend
            < 0),
{
    lemma_trunc_division(dividend as int, divisor as int);
}

} // verus!
