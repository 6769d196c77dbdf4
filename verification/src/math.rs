//! Fixed-point arithmetic for the money market.
//!
//! Amounts are `u128` integers; fractions are [`Decimal`] values holding a
//! numerator over an implicit denominator of `10^18`. Every operation is
//! checked: products are formed in 256-bit precision (a pair of `u128`
//! halves) and an error is returned whenever a result does not fit in
//! `u128` or a divisor is zero, so no verified caller can overflow or wrap.

use vstd::arithmetic::div_mod::{
    lemma_div_denominator, lemma_div_is_ordered, lemma_fundamental_div_mod,
    lemma_fundamental_div_mod_converse, lemma_mod_division_less_than_divisor,
};
use vstd::arithmetic::mul::{lemma_mul_inequality, lemma_mul_is_commutative};
use vstd::arithmetic::power2::{lemma2_to64, lemma2_to64_rest, lemma_pow2_unfold, pow2};
use vstd::prelude::*;

verus! {

/// Implicit denominator of [`Decimal`]: eighteen decimal digits.
pub const DECIMAL_FRACTIONAL: u128 = 1_000_000_000_000_000_000;

/// `2^64`, used to split a `u128` into halves.
const TWO_POW_64: u128 = 0x1_0000_0000_0000_0000;

/// `2^127`, the top bit of a `u128`.
const TWO_POW_127: u128 = 0x8000_0000_0000_0000_0000_0000_0000_0000;

/// The value of a 256-bit quantity held as two `u128` halves.
pub open spec fn wide_value(hi: u128, lo: u128) -> int {
    hi * 0x1_0000_0000_0000_0000_0000_0000_0000_0000 + lo
}

/// Failure of a checked arithmetic operation.
#[derive(Clone, Copy, Debug, PartialEq, Eq, Structural)]
pub enum MathError {
    /// A result does not fit in the target width.
    Overflow,
    /// A divisor was zero.
    DivideByZero,
}

/// Full 256-bit product of two `u128` values, as (high, low) halves.
pub fn mul_wide(a: u128, b: u128) -> (r: (u128, u128))
    ensures
        wide_value(r.0, r.1) == a * b,
{
    let a_hi = a / TWO_POW_64;
    let a_lo = a % TWO_POW_64;
    let b_hi = b / TWO_POW_64;
    let b_lo = b % TWO_POW_64;
    proof {
        lemma_fundamental_div_mod(a as int, TWO_POW_64 as int);
        lemma_fundamental_div_mod(b as int, TWO_POW_64 as int);
        assert(a_hi < TWO_POW_64 && b_hi < TWO_POW_64) by {
            lemma_div_is_ordered(a as int, u128::MAX as int, TWO_POW_64 as int);
            lemma_div_is_ordered(b as int, u128::MAX as int, TWO_POW_64 as int);
        }
        lemma_mul_inequality(a_lo as int, (TWO_POW_64 - 1) as int, b_lo as int);
        lemma_mul_inequality(a_lo as int, (TWO_POW_64 - 1) as int, b_hi as int);
        lemma_mul_inequality(a_hi as int, (TWO_POW_64 - 1) as int, b_lo as int);
        lemma_mul_inequality(a_hi as int, (TWO_POW_64 - 1) as int, b_hi as int);
        lemma_mul_inequality(b_lo as int, (TWO_POW_64 - 1) as int, (TWO_POW_64 - 1) as int);
        lemma_mul_inequality(b_hi as int, (TWO_POW_64 - 1) as int, (TWO_POW_64 - 1) as int);
        lemma_mul_is_commutative(a_lo as int, b_lo as int);
        lemma_mul_is_commutative(a_lo as int, b_hi as int);
        lemma_mul_is_commutative(a_hi as int, b_lo as int);
        lemma_mul_is_commutative(a_hi as int, b_hi as int);
    }
    let ll = a_lo * b_lo;
    let lh = a_lo * b_hi;
    let hl = a_hi * b_lo;
    let hh = a_hi * b_hi;
    let ll_hi = ll / TWO_POW_64;
    let ll_lo = ll % TWO_POW_64;
    let lh_hi = lh / TWO_POW_64;
    let lh_lo = lh % TWO_POW_64;
    let hl_hi = hl / TWO_POW_64;
    let hl_lo = hl % TWO_POW_64;
    proof {
        lemma_fundamental_div_mod(ll as int, TWO_POW_64 as int);
        lemma_fundamental_div_mod(lh as int, TWO_POW_64 as int);
        lemma_fundamental_div_mod(hl as int, TWO_POW_64 as int);
        let bound = ((TWO_POW_64 - 1) * (TWO_POW_64 - 1)) as int;
        lemma_div_is_ordered(ll as int, bound, TWO_POW_64 as int);
        lemma_div_is_ordered(lh as int, bound, TWO_POW_64 as int);
        lemma_div_is_ordered(hl as int, bound, TWO_POW_64 as int);
    }
    let mid = lh_lo + hl_lo + ll_hi;
    let mid_hi = mid / TWO_POW_64;
    let mid_lo = mid % TWO_POW_64;
    proof {
        lemma_fundamental_div_mod(mid as int, TWO_POW_64 as int);
        lemma_div_is_ordered(mid as int, (3 * (TWO_POW_64 - 1)) as int, TWO_POW_64 as int);
    }
    let lo = ll_lo + mid_lo * TWO_POW_64;
    let hi = hh + lh_hi + hl_hi + mid_hi;
    proof {
        let t64 = TWO_POW_64 as int;
        let t128 = t64 * t64;
        assert(a * b == hh * t128 + (lh + hl) * t64 + ll) by (nonlinear_arith)
            requires
                a == a_hi * t64 + a_lo,
                b == b_hi * t64 + b_lo,
                ll == a_lo * b_lo,
                lh == a_lo * b_hi,
                hl == a_hi * b_lo,
                hh == a_hi * b_hi,
                t64 == TWO_POW_64 as int,
                t128 == t64 * t64,
        ;
        assert(wide_value(hi, lo) == a * b) by (nonlinear_arith)
            requires
                a * b == hh * t128 + (lh + hl) * t64 + ll,
                ll == ll_hi * t64 + ll_lo,
                lh == lh_hi * t64 + lh_lo,
                hl == hl_hi * t64 + hl_lo,
                mid == lh_lo + hl_lo + ll_hi,
                mid == mid_hi * t64 + mid_lo,
                lo == ll_lo + mid_lo * t64,
                hi == hh + lh_hi + hl_hi + mid_hi,
                t64 == TWO_POW_64 as int,
                t128 == t64 * t64,
                wide_value(hi, lo) == hi * t128 + lo,
        ;
    }
    (hi, lo)
}

/// Quotient and remainder of a 256-bit value divided by a `u128` divisor,
/// by binary long division. The quotient fits in `u128` because the high
/// half of the dividend is below the divisor.
pub fn div_wide(hi: u128, lo: u128, d: u128) -> (r: (u128, u128))
    requires
        0 < d,
        hi < d,
    ensures
        r.0 * d + r.1 == wide_value(hi, lo),
        r.1 < d,
{
    let mut q: u128 = 0;
    let mut r: u128 = hi;
    let mut p: u128 = TWO_POW_127;
    let mut i: usize = 0;
    proof {
        lemma_pow2_128_values();
        lemma2_to64();
        vstd::arithmetic::div_mod::lemma_basic_div(lo as int, pow2(128) as int);
    }
    while i < 128
        invariant
            i <= 128,
            0 < d,
            r < d,
            q < pow2(i as nat),
            i < 128 ==> p == pow2((127 - i) as nat),
            q * d + r == hi * pow2(i as nat) + lo as int / (pow2((128 - i) as nat) as int),
        decreases 128 - i,
    {
        let ghost shift = (127 - i) as nat;
        let ghost prefix = lo as int / (pow2(shift + 1) as int);
        proof {
            lemma_pow2_128_values();
            vstd::arithmetic::power2::lemma_pow2_pos(shift);
            lemma_pow2_unfold(shift + 1);
            // The next bit extends the dividend prefix: chop one more power
            // of two off the low half.
            lemma_div_denominator(lo as int, pow2(shift) as int, 2);
            lemma_fundamental_div_mod(lo as int / (pow2(shift) as int), 2);
            lemma_mod_division_less_than_divisor(lo as int / (pow2(shift) as int), 2);
            vstd::arithmetic::div_mod::lemma_div_pos_is_pos(lo as int, pow2(shift) as int);
            if i < 127 {
                vstd::arithmetic::power2::lemma_pow2_strictly_increases(i as nat, 127);
            }
        }
        let bit: u128 = (lo / p) % 2;
        proof {
            assert(lo as int / (pow2(shift) as int) == 2 * prefix + bit);
        }
        let ghost prev_q = q;
        let ghost prev_r = r;
        // The next remainder candidate is 2*r + bit; subtract d when it
        // reaches d. When r has its top bit set the candidate exceeds any
        // u128 divisor, so the subtraction is arranged to stay in range.
        let takes = if r >= TWO_POW_127 {
            true
        } else {
            2 * r + bit >= d
        };
        if takes {
            let t = d - r;
            r = (r + bit) - t;
            q = 2 * q + 1;
        } else {
            r = 2 * r + bit;
            q = 2 * q;
        }
        proof {
            assert(q * d == 2 * (prev_q * d) + (if takes {
                d as int
            } else {
                0int
            })) by (nonlinear_arith)
                requires
                    q == 2 * prev_q + if takes {
                        1int
                    } else {
                        0int
                    },
            ;
            lemma_pow2_unfold((i + 1) as nat);
            assert(hi * pow2((i + 1) as nat) == 2 * (hi * pow2(i as nat))) by (nonlinear_arith)
                requires
                    pow2((i + 1) as nat) == 2 * pow2(i as nat),
            ;
            assert((128 - i) as nat == shift + 1);
            assert(prefix == lo as int / (pow2((128 - i) as nat) as int));
            assert(prev_q * d + prev_r == hi * pow2(i as nat) + prefix);
            assert(r == 2 * prev_r + bit + if takes {
                -(d as int)
            } else {
                0int
            });
            assert(q * d + r == 2 * (prev_q * d + prev_r) + bit);
            assert(q * d + r == hi * pow2((i + 1) as nat) + (2 * prefix + bit));
            assert(q * d + r == hi * pow2((i + 1) as nat) + lo as int / (pow2(shift) as int));
            assert((127 - i) as nat == shift);
        }
        i = i + 1;
        if i < 128 {
            p = p / 2;
            proof {
                lemma_pow2_unfold((128 - i) as nat);
            }
        }
    }
    proof {
        lemma_pow2_128_values();
        lemma2_to64();
        assert(lo as int / (pow2(0) as int) == lo) by {
            vstd::arithmetic::div_mod::lemma_div_basics(lo as int);
        }
        assert(q * d + r == hi * (pow2(128) as int) + lo);
    }
    (q, r)
}

/// `a * b / d` with the quotient rounded toward zero; `Err` when the
/// divisor is zero or the quotient does not fit in `u128`.
pub fn mul_div_floor(a: u128, b: u128, d: u128) -> (r: Result<u128, MathError>)
    ensures
        d == 0 ==> r == Result::<u128, MathError>::Err(MathError::DivideByZero),
        d != 0 && a * b / d as int > u128::MAX ==> r == Result::<u128, MathError>::Err(
            MathError::Overflow,
        ),
        d != 0 && a * b / d as int <= u128::MAX ==> r == Result::<u128, MathError>::Ok(
            (a * b / d as int) as u128,
        ),
{
    if d == 0 {
        return Err(MathError::DivideByZero);
    }
    let (hi, lo) = mul_wide(a, b);
    if hi >= d {
        proof {
            lemma_quotient_bound(hi, lo, d);
        }
        return Err(MathError::Overflow);
    }
    let (q, rem) = div_wide(hi, lo, d);
    proof {
        lemma_fundamental_div_mod_converse(wide_value(hi, lo), d as int, q as int, rem as int);
    }
    Ok(q)
}

/// `a * b / d` with the quotient rounded away from zero; `Err` when the
/// divisor is zero or the rounded quotient does not fit in `u128`.
pub fn mul_div_ceil(a: u128, b: u128, d: u128) -> (r: Result<u128, MathError>)
    ensures
        d == 0 ==> r == Result::<u128, MathError>::Err(MathError::DivideByZero),
        d != 0 && div_ceil(a * b, d as int) > u128::MAX ==> r == Result::<u128, MathError>::Err(
            MathError::Overflow,
        ),
        d != 0 && div_ceil(a * b, d as int) <= u128::MAX ==> r == Result::<u128, MathError>::Ok(
            div_ceil(a * b, d as int) as u128,
        ),
{
    if d == 0 {
        return Err(MathError::DivideByZero);
    }
    let (hi, lo) = mul_wide(a, b);
    if hi >= d {
        proof {
            lemma_quotient_bound(hi, lo, d);
            lemma_div_ceil_bounds(a * b, d as int);
        }
        return Err(MathError::Overflow);
    }
    let (q, rem) = div_wide(hi, lo, d);
    proof {
        lemma_fundamental_div_mod_converse(wide_value(hi, lo), d as int, q as int, rem as int);
        lemma_div_ceil_bounds(a * b, d as int);
    }
    if rem == 0 {
        Ok(q)
    } else {
        if q == u128::MAX {
            Err(MathError::Overflow)
        } else {
            Ok(q + 1)
        }
    }
}

/// Numerator of `a * b` over the implicit denominator: the product of two
/// decimals before flooring.
pub open spec fn spec_dec_mul(a: int, b: int) -> int {
    a * b / (DECIMAL_FRACTIONAL as int)
}

/// Numerator of the decimal `n / d`.
pub open spec fn spec_from_ratio(n: int, d: int) -> int {
    n * (DECIMAL_FRACTIONAL as int) / d
}

/// `x * d` for an integer `x` and a decimal numerator `d`, floored.
pub open spec fn spec_mul_dec_floor(x: int, d: int) -> int {
    x * d / (DECIMAL_FRACTIONAL as int)
}

/// `x / d` for an integer `x` and a decimal numerator `d`, floored.
pub open spec fn spec_div_dec_floor(x: int, d: int) -> int {
    x * (DECIMAL_FRACTIONAL as int) / d
}

/// `x / d` for an integer `x` and a decimal numerator `d`, rounded up.
pub open spec fn spec_div_dec_ceil(x: int, d: int) -> int {
    div_ceil(x * (DECIMAL_FRACTIONAL as int), d)
}

/// Unsigned fixed-point fraction: a numerator over an implicit
/// denominator of `10^18`. `Decimal(1_000_000_000_000_000_000)` is one.
#[derive(Clone, Copy, Debug, PartialEq, Eq, Structural)]
pub struct Decimal(pub u128);

impl Decimal {
    /// The numerator, as a mathematical integer.
    pub open spec fn val(self) -> int {
        self.0 as int
    }

    /// Zero.
    pub fn zero() -> (r: Decimal)
        ensures
            r.0 == 0,
    {
        Decimal(0)
    }

    /// One.
    pub fn one() -> (r: Decimal)
        ensures
            r.0 == DECIMAL_FRACTIONAL,
    {
        Decimal(DECIMAL_FRACTIONAL)
    }

    /// Whether the value is zero.
    pub fn is_zero(&self) -> (r: bool)
        ensures
            r == (self.0 == 0),
    {
        self.0 == 0
    }

    /// Strict order on decimals.
    pub fn lt(&self, other: &Decimal) -> (r: bool)
        ensures
            r == (self.0 < other.0),
    {
        self.0 < other.0
    }

    /// Non-strict order on decimals.
    pub fn le(&self, other: &Decimal) -> (r: bool)
        ensures
            r == (self.0 <= other.0),
    {
        self.0 <= other.0
    }

    /// The fraction `numerator / denominator` as a decimal, floored to
    /// eighteen fractional digits.
    pub fn from_ratio(numerator: u128, denominator: u128) -> (r: Result<Decimal, MathError>)
        ensures
            denominator == 0 ==> r == Result::<Decimal, MathError>::Err(MathError::DivideByZero),
            denominator != 0 ==> if spec_from_ratio(numerator as int, denominator as int)
                <= u128::MAX {
                r == Result::<Decimal, MathError>::Ok(
                    Decimal(spec_from_ratio(numerator as int, denominator as int) as u128),
                )
            } else {
                r == Result::<Decimal, MathError>::Err(MathError::Overflow)
            },
    {
        match mul_div_floor(numerator, DECIMAL_FRACTIONAL, denominator) {
            Ok(v) => Ok(Decimal(v)),
            Err(e) => Err(e),
        }
    }

    /// Checked addition of two decimals.
    pub fn checked_add(self, other: Decimal) -> (r: Result<Decimal, MathError>)
        ensures
            self.0 + other.0 <= u128::MAX ==> r == Result::<Decimal, MathError>::Ok(
                Decimal((self.0 + other.0) as u128),
            ),
            self.0 + other.0 > u128::MAX ==> r == Result::<Decimal, MathError>::Err(
                MathError::Overflow,
            ),
    {
        match self.0.checked_add(other.0) {
            Some(v) => Ok(Decimal(v)),
            None => Err(MathError::Overflow),
        }
    }

    /// Checked subtraction of two decimals.
    pub fn checked_sub(self, other: Decimal) -> (r: Result<Decimal, MathError>)
        ensures
            self.0 >= other.0 ==> r == Result::<Decimal, MathError>::Ok(
                Decimal((self.0 - other.0) as u128),
            ),
            self.0 < other.0 ==> r == Result::<Decimal, MathError>::Err(MathError::Overflow),
    {
        match self.0.checked_sub(other.0) {
            Some(v) => Ok(Decimal(v)),
            None => Err(MathError::Overflow),
        }
    }

    /// Checked product of two decimals, floored.
    pub fn checked_mul(self, other: Decimal) -> (r: Result<Decimal, MathError>)
        ensures
            spec_dec_mul(self.0 as int, other.0 as int) <= u128::MAX ==> r == Result::<
                Decimal,
                MathError,
            >::Ok(Decimal(spec_dec_mul(self.0 as int, other.0 as int) as u128)),
            spec_dec_mul(self.0 as int, other.0 as int) > u128::MAX ==> r == Result::<
                Decimal,
                MathError,
            >::Err(MathError::Overflow),
    {
        match mul_div_floor(self.0, other.0, DECIMAL_FRACTIONAL) {
            Ok(v) => Ok(Decimal(v)),
            Err(e) => Err(e),
        }
    }

    /// Checked quotient of two decimals, floored.
    pub fn checked_div(self, other: Decimal) -> (r: Result<Decimal, MathError>)
        ensures
            other.0 == 0 ==> r == Result::<Decimal, MathError>::Err(MathError::DivideByZero),
            other.0 != 0 ==> if spec_from_ratio(self.0 as int, other.0 as int) <= u128::MAX {
                r == Result::<Decimal, MathError>::Ok(
                    Decimal(spec_from_ratio(self.0 as int, other.0 as int) as u128),
                )
            } else {
                r == Result::<Decimal, MathError>::Err(MathError::Overflow)
            },
    {
        match mul_div_floor(self.0, DECIMAL_FRACTIONAL, other.0) {
            Ok(v) => Ok(Decimal(v)),
            Err(e) => Err(e),
        }
    }
}

/// `x * d` for an amount and a decimal, floored.
pub fn multiply_uint128_by_decimal(x: u128, d: Decimal) -> (r: Result<u128, MathError>)
    ensures
        spec_mul_dec_floor(x as int, d.0 as int) <= u128::MAX ==> r == Result::<
            u128,
            MathError,
        >::Ok(spec_mul_dec_floor(x as int, d.0 as int) as u128),
        spec_mul_dec_floor(x as int, d.0 as int) > u128::MAX ==> r == Result::<u128, MathError>::Err(
            MathError::Overflow,
        ),
{
    mul_div_floor(x, d.0, DECIMAL_FRACTIONAL)
}

/// `x / d` for an amount and a decimal, floored.
pub fn divide_uint128_by_decimal(x: u128, d: Decimal) -> (r: Result<u128, MathError>)
    ensures
        d.0 == 0 ==> r == Result::<u128, MathError>::Err(MathError::DivideByZero),
        d.0 != 0 ==> if spec_div_dec_floor(x as int, d.0 as int) <= u128::MAX {
            r == Result::<u128, MathError>::Ok(spec_div_dec_floor(x as int, d.0 as int) as u128)
        } else {
            r == Result::<u128, MathError>::Err(MathError::Overflow)
        },
{
    mul_div_floor(x, DECIMAL_FRACTIONAL, d.0)
}

/// `x / d` for an amount and a decimal, rounded up.
pub fn divide_uint128_by_decimal_and_ceil(x: u128, d: Decimal) -> (r: Result<u128, MathError>)
    ensures
        d.0 == 0 ==> r == Result::<u128, MathError>::Err(MathError::DivideByZero),
        d.0 != 0 ==> if spec_div_dec_ceil(x as int, d.0 as int) <= u128::MAX {
            r == Result::<u128, MathError>::Ok(spec_div_dec_ceil(x as int, d.0 as int) as u128)
        } else {
            r == Result::<u128, MathError>::Err(MathError::Overflow)
        },
{
    mul_div_ceil(x, DECIMAL_FRACTIONAL, d.0)
}

/// `a / b` on amounts, rounded up.
pub fn uint128_checked_div_with_ceil(a: u128, b: u128) -> (r: Result<u128, MathError>)
    ensures
        b == 0 ==> r == Result::<u128, MathError>::Err(MathError::DivideByZero),
        b != 0 ==> r == Result::<u128, MathError>::Ok(div_ceil(a as int, b as int) as u128),
        b != 0 ==> div_ceil(a as int, b as int) <= u128::MAX,
{
    if b == 0 {
        return Err(MathError::DivideByZero);
    }
    let q = a / b;
    let rem = a % b;
    proof {
        lemma_fundamental_div_mod(a as int, b as int);
        lemma_mod_division_less_than_divisor(a as int, b as int);
    }
    if rem == 0 {
        Ok(q)
    } else {
        proof {
            assert(q < a) by (nonlinear_arith)
                requires
                    b >= 1,
                    rem >= 1,
                    a == b * q + rem,
                    q >= 0,
            ;
        }
        Ok(q + 1)
    }
}

/// Concrete values of the powers of two at the `u128` boundary.
proof fn lemma_pow2_128_values()
    ensures
        pow2(64) == 0x1_0000_0000_0000_0000,
        pow2(127) == 0x8000_0000_0000_0000_0000_0000_0000_0000,
        pow2(128) == 0x1_0000_0000_0000_0000_0000_0000_0000_0000,
{
    lemma2_to64();
    lemma2_to64_rest();
    vstd::arithmetic::power2::lemma_pow2_adds(63, 64);
    vstd::arithmetic::power2::lemma_pow2_adds(64, 64);
}

/// The quotient `n / d` rounded away from zero, for non-negative `n`.
pub open spec fn div_ceil(n: int, d: int) -> int {
    if n % d == 0 {
        n / d
    } else {
        n / d + 1
    }
}

/// A quotient at least `2^128` arises exactly when the dividend's high half
/// reaches the divisor.
proof fn lemma_quotient_bound(hi: u128, lo: u128, d: u128)
    requires
        0 < d,
    ensures
        hi >= d ==> wide_value(hi, lo) / d as int > u128::MAX,
        hi < d ==> wide_value(hi, lo) / d as int <= u128::MAX,
{
    let t128 = 0x1_0000_0000_0000_0000_0000_0000_0000_0000int;
    let n = wide_value(hi, lo);
    if hi >= d {
        assert(n >= d * t128) by (nonlinear_arith)
            requires
                hi >= d,
                n == hi * t128 + lo,
                lo >= 0,
                t128 > 0,
        ;
        lemma_div_is_ordered(d * t128, n, d as int);
        vstd::arithmetic::div_mod::lemma_div_by_multiple(t128, d as int);
        lemma_mul_is_commutative(d as int, t128);
    } else {
        assert(n < d * t128) by (nonlinear_arith)
            requires
                hi < d,
                n == hi * t128 + lo,
                lo < t128,
        ;
        assert(n / (d as int) < t128) by {
            vstd::arithmetic::div_mod::lemma_multiply_divide_lt(n, d as int, t128);
        }
    }
}

/// Bounds tying the ceiling quotient to the floor quotient.
proof fn lemma_div_ceil_bounds(n: int, d: int)
    requires
        n >= 0,
        d > 0,
    ensures
        n / d <= div_ceil(n, d) <= n / d + 1,
        div_ceil(n, d) * d >= n,
        n / d * d <= n,
{
    lemma_fundamental_div_mod(n, d);
    lemma_mod_division_less_than_divisor(n, d);
    vstd::arithmetic::div_mod::lemma_div_pos_is_pos(n, d);
    assert(div_ceil(n, d) * d >= n) by (nonlinear_arith)
        requires
            n == d * (n / d) + n % d,
            0 <= n % d < d,
            div_ceil(n, d) == if n % d == 0 {
                n / d
            } else {
                n / d + 1
            },
    ;
    assert(n / d * d <= n) by (nonlinear_arith)
        requires
            n == d * (n / d) + n % d,
            0 <= n % d,
    ;
}

} // verus!
