//! Signed fixed-point arithmetic in thousandths: truncating division and a
//! three-factor scaled product, with the bound lemmas the tracker needs.

use vstd::arithmetic::div_mod::{
    lemma_div_by_self, lemma_div_is_ordered, lemma_div_nonincreasing, lemma_div_pos_is_pos,
    lemma_fundamental_div_mod, lemma_mod_division_less_than_divisor,
};
use vstd::prelude::*;

verus! {

/// One whole unit of the fixed-point scale: `MILLI` stands for `1.0`.
pub const MILLI: i64 = 1000;

/// The square of `MILLI`, used when two fixed-point factors are multiplied.
pub const MILLI_SQ: i64 = 1000000;

/// Absolute value over the mathematical integers.
pub open spec fn iabs(x: int) -> int {
    if x >= 0 {
        x
    } else {
        -x
    }
}

/// Division truncating toward zero, as Rust's `/` computes it on signed
/// integers; `d` is expected to be positive.
pub open spec fn tdiv(a: int, d: int) -> int {
    if a >= 0 {
        a / d
    } else {
        -((-a) / d)
    }
}

/// The product of two values within bounds `ka` and `kb` stays within
/// `ka * kb`.
pub proof fn lemma_mul_bound(a: int, b: int, ka: int, kb: int)
    by (nonlinear_arith)
    requires
        -ka <= a <= ka,
        -kb <= b <= kb,
        0 <= ka,
        0 <= kb,
    ensures
        -(ka * kb) <= a * b <= ka * kb,
{
}

/// Products of pairwise equal factors are equal; stated for the solver,
/// which treats distinct nonlinear terms as unrelated.
pub proof fn lemma_mul_congruence(a: int, b: int, x: int, y: int)
    by (nonlinear_arith)
    requires
        a == x,
        b == y,
    ensures
        a * b == x * y,
{
}

/// Triple products of pairwise equal factors are equal.
pub proof fn lemma_mul3_congruence(a: int, b: int, c: int, x: int, y: int, z: int)
    by (nonlinear_arith)
    requires
        a == x,
        b == y,
        c == z,
    ensures
        a * b * c == x * y * z,
{
}

/// The absolute value of a product is the product of the absolute values.
pub proof fn lemma_abs_mul(a: int, b: int)
    by (nonlinear_arith)
    ensures
        iabs(a * b) == iabs(a) * iabs(b),
{
}

/// A triple product of magnitudes stays under the product of their bounds.
pub proof fn lemma_abs_mul3_bound(a: int, b: int, c: int, ka: int, kb: int, kc: int)
    by (nonlinear_arith)
    requires
        0 <= iabs(a) <= ka,
        0 <= iabs(b) <= kb,
        0 <= iabs(c) <= kc,
    ensures
        iabs(a) * iabs(b) * iabs(c) <= ka * kb * kc,
        iabs(a) * iabs(b) * iabs(c) >= 0,
{
}

/// Truncating division never grows the magnitude, keeps the sign, and its
/// result scaled back by the divisor stays below the dividend's magnitude.
pub proof fn lemma_tdiv_bound(a: int, d: int)
    requires
        1 <= d,
    ensures
        iabs(tdiv(a, d)) * d <= iabs(a),
        iabs(tdiv(a, d)) <= iabs(a),
        a >= 0 ==> tdiv(a, d) >= 0,
        a <= 0 ==> tdiv(a, d) <= 0,
        d <= a ==> 1 <= tdiv(a, d),
{
    if a >= 0 {
        let q = a / d;
        lemma_div_pos_is_pos(a, d);
        lemma_fundamental_div_mod(a, d);
        lemma_mod_division_less_than_divisor(a, d);
        lemma_div_nonincreasing(a, d);
        assert(d * q <= a);
        assert(q * d == d * q) by (nonlinear_arith);
        assert(iabs(tdiv(a, d)) * d == q * d);
        if d <= a {
            lemma_div_is_ordered(d, a, d);
            lemma_div_by_self(d);
        }
    } else {
        let q = (-a) / d;
        lemma_div_pos_is_pos(-a, d);
        lemma_fundamental_div_mod(-a, d);
        lemma_mod_division_less_than_divisor(-a, d);
        lemma_div_nonincreasing(-a, d);
        assert(d * q <= -a);
        assert(q * d == d * q) by (nonlinear_arith);
        assert(iabs(tdiv(a, d)) * d == q * d);
    }
}

/// A product of three factors is negative exactly when an odd number of the
/// factors is negative and none is zero; with an even count it cannot be
/// negative.
pub proof fn lemma_mul3_sign(a: int, b: int, c: int)
    by (nonlinear_arith)
    ensures
        (((a < 0) != (b < 0)) != (c < 0)) && a != 0 && b != 0 && c != 0 ==> a * b * c < 0,
        !(((a < 0) != (b < 0)) != (c < 0)) ==> a * b * c >= 0,
        a == 0 || b == 0 || c == 0 ==> a * b * c == 0,
{
}

/// Magnitude of a signed value, as an unsigned machine integer.
pub fn abs_i64(v: i64) -> (r: u64)
    requires
        v != i64::MIN,
    ensures
        r as int == iabs(v as int),
{
    if v < 0 {
        (-v) as u64
    } else {
        v as u64
    }
}

/// `a * b * c / d` with the division truncating toward zero, computed
/// without overflow by splitting sign and magnitude.
pub fn mul3_tdiv(a: i64, b: i64, c: i64, d: u64) -> (r: i64)
    requires
        1 <= d,
        iabs(a as int) <= 0x1_0000_0000,
        iabs(b as int) <= 0x1_0000_0000,
        iabs(c as int) <= 0x1_0000_0000,
        iabs(a as int) * iabs(b as int) * iabs(c as int) <= i64::MAX,
    ensures
        r as int == tdiv(a as int * b as int * c as int, d as int),
        iabs(r as int) * (d as int) <= iabs(a as int) * iabs(b as int) * iabs(c as int),
{
    let ma = abs_i64(a);
    let mb = abs_i64(b);
    let mc = abs_i64(c);
    proof {
        lemma_mul_bound(ma as int, mb as int, 0x1_0000_0000, 0x1_0000_0000);
        lemma_mul_bound(ma as int * mb as int, mc as int, 0x1_0000_0000_0000_0000, 0x1_0000_0000);
    }
    let m: u128 = (ma as u128) * (mb as u128) * (mc as u128);
    let q: u128 = m / (d as u128);
    proof {
        let p = a as int * b as int * c as int;
        lemma_abs_mul(a as int, b as int);
        lemma_abs_mul(a as int * b as int, c as int);
        lemma_mul_congruence(
            iabs(a as int * b as int),
            iabs(c as int),
            iabs(a as int) * iabs(b as int),
            iabs(c as int),
        );
        assert(m as int == iabs(p));
        assert(m as int == iabs(a as int) * iabs(b as int) * iabs(c as int));
        lemma_div_pos_is_pos(m as int, d as int);
        lemma_div_nonincreasing(m as int, d as int);
        lemma_fundamental_div_mod(m as int, d as int);
        lemma_mod_division_less_than_divisor(m as int, d as int);
        assert((m as int / d as int) * (d as int) == (d as int) * (m as int / d as int))
            by (nonlinear_arith);
        lemma_mul3_sign(a as int, b as int, c as int);
    }
    let qi = q as i64;
    let neg: bool = ((a < 0) != (b < 0)) != (c < 0);
    if neg {
        -qi
    } else {
        qi
    }
}

} // verus!
