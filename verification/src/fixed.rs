//! Signed 16.16 fixed-point arithmetic.
//!
//! A fixed-point number is an `i64` whose integer value `v` stands for the
//! real number `v / 65536`. All renderer quantities (world coordinates,
//! direction vectors, distances) are carried in this form, so every
//! computation of the engine is exact integer arithmetic with stated
//! rounding.
//!
//! Two rounding modes appear, and each operation says which it uses:
//! * `fxmul` / `fx_floor` / `fx_frac` round toward minus infinity
//!   (Euclidean division by a positive divisor), which is what cell and
//!   texture coordinates need so that wrapping by a power-of-two mask is a
//!   true modulus;
//! * `fxdiv` truncates toward zero, the rounding of a hardware divide,
//!   used for the projective ratios (distances, screen heights).

use vstd::prelude::*;

verus! {

/// One unit in 16.16 fixed point: the representation of the real value 1.
pub const FP_ONE: i64 = 65536;

/// Bound on the operands of `fx_mul`: products of two values below this
/// magnitude fit an `i64` before the final shift down.
pub const FX_MUL_BOUND: i64 = 0x8000_0000;

/// Bound on the product inside `fx_mul`.
pub const FX_PROD_BOUND: i64 = 0x4000_0000_0000_0000;

/// Bound on the dividend of `fx_div`: scaled up by `FP_ONE` it still fits
/// an `i64`.
pub const FX_DIV_BOUND: i64 = 0x4000_0000_0000;

/// Truncating (toward zero) integer division, the semantics of a
/// hardware divide: the magnitudes are divided and the sign is applied
/// afterwards.
pub open spec fn tdiv(a: int, b: int) -> int {
    let q = vstd::math::abs(a) / vstd::math::abs(b);
    if (a < 0) == (b < 0) {
        q as int
    } else {
        -(q as int)
    }
}

/// The fixed-point product: floor(a·b / 2^16).
pub open spec fn fxmul(a: int, b: int) -> int {
    (a * b) / (FP_ONE as int)
}

/// The fixed-point quotient, truncated toward zero: trunc(a·2^16 / b).
pub open spec fn fxdiv(a: int, b: int) -> int {
    tdiv(a * (FP_ONE as int), b)
}

/// The grid cell a fixed-point coordinate falls in: floor(a / 2^16).
pub open spec fn fx_floor_spec(a: int) -> int {
    a / (FP_ONE as int)
}

/// The offset of a fixed-point coordinate into its cell, in [0, 2^16).
pub open spec fn fx_frac_spec(a: int) -> int {
    a % (FP_ONE as int)
}

/// The integer cell that a fixed-point coordinate falls in (floor).
pub fn fx_floor(a: i64) -> (r: i64)
    ensures
        r == fx_floor_spec(a as int),
{
    if a >= 0 {
        a / FP_ONE
    } else {
        let q = a / FP_ONE;
        let m = a % FP_ONE;
        if m != 0 {
            q - 1
        } else {
            q
        }
    }
}

/// The fractional offset of a coordinate into its cell, always in
/// [0, `FP_ONE`).
pub fn fx_frac(a: i64) -> (r: i64)
    ensures
        r == fx_frac_spec(a as int),
        0 <= r < FP_ONE,
{
    if a >= 0 {
        a % FP_ONE
    } else {
        let m = a % FP_ONE;
        if m != 0 {
            m + FP_ONE
        } else {
            0
        }
    }
}

/// Fixed-point multiplication, rounding toward minus infinity. The
/// operands either both fit `FX_MUL_BOUND` or their product is known to
/// fit directly.
pub fn fx_mul(a: i64, b: i64) -> (r: i64)
    requires
        (-FX_MUL_BOUND <= a <= FX_MUL_BOUND && -FX_MUL_BOUND <= b <= FX_MUL_BOUND) || (-FX_PROD_BOUND
            <= a * b <= FX_PROD_BOUND),
    ensures
        r == fxmul(a as int, b as int),
{
    proof {
        if -FX_MUL_BOUND <= a <= FX_MUL_BOUND && -FX_MUL_BOUND <= b <= FX_MUL_BOUND {
            assert(-0x4000_0000_0000_0000 <= a * b <= 0x4000_0000_0000_0000) by (nonlinear_arith)
                requires
                    -0x8000_0000 <= a <= 0x8000_0000,
                    -0x8000_0000 <= b <= 0x8000_0000,
            ;
        }
    }
    let p: i64 = a * b;
    if p >= 0 {
        p / FP_ONE
    } else {
        let q = p / FP_ONE;
        let m = p % FP_ONE;
        if m != 0 {
            q - 1
        } else {
            q
        }
    }
}

/// Fixed-point division, truncating toward zero. The result of dividing
/// value a by value b, as a fixed-point value.
pub fn fx_div(a: i64, b: i64) -> (r: i64)
    requires
        b != 0,
        b != i64::MIN,
        -FX_DIV_BOUND <= a <= FX_DIV_BOUND,
    ensures
        r == fxdiv(a as int, b as int),
        a >= 0 ==> -(a * FP_ONE) <= r <= a * FP_ONE,
        a < 0 ==> a * FP_ONE <= r <= -(a * FP_ONE),
        a >= 0 && b > 0 ==> 0 <= r,
        a <= 0 && b > 0 ==> r <= 0,
{
    let neg = (a < 0) != (b < 0);
    let aa = fx_abs(a);
    let bb = fx_abs(b);
    let n: i64 = aa * FP_ONE;
    proof {
        vstd::arithmetic::div_mod::lemma_div_pos_is_pos(n as int, bb as int);
        vstd::arithmetic::div_mod::lemma_div_nonincreasing(n as int, bb as int);
    }
    let q = n / bb;
    if neg {
        -q
    } else {
        q
    }
}

/// A bound on each factor gives a bound on the fixed-point product.
pub proof fn lemma_fxmul_bound(a: int, b: int, ba: int, bb: int)
    requires
        -ba <= a <= ba,
        -bb <= b <= bb,
        0 <= ba,
        0 <= bb,
    ensures
        -(ba * bb) <= a * b <= ba * bb,
        -(ba * bb) / (FP_ONE as int) <= fxmul(a, b) <= (ba * bb) / (FP_ONE as int),
{
    assert(-(ba * bb) <= a * b <= ba * bb) by (nonlinear_arith)
        requires
            -ba <= a <= ba,
            -bb <= b <= bb,
            0 <= ba,
            0 <= bb,
    ;
    vstd::arithmetic::div_mod::lemma_div_is_ordered(a * b, ba * bb, FP_ONE as int);
    vstd::arithmetic::div_mod::lemma_div_is_ordered(-(ba * bb), a * b, FP_ONE as int);
}

/// The integer square root: the largest `r` with `r * r <= a`.
pub open spec fn sqrt_floor(a: nat) -> nat
    decreases a,
{
    if a == 0 {
        0
    } else {
        let p = sqrt_floor((a - 1) as nat);
        if (p + 1) * (p + 1) <= a {
            p + 1
        } else {
            p
        }
    }
}

/// `sqrt_floor` is characterized by `r * r <= a < (r + 1) * (r + 1)`.
pub proof fn lemma_sqrt_floor_props(a: nat)
    ensures
        sqrt_floor(a) * sqrt_floor(a) <= a,
        (sqrt_floor(a) + 1) * (sqrt_floor(a) + 1) > a,
    decreases a,
{
    if a == 0 {
        assert(sqrt_floor(0) == 0);
        assert((sqrt_floor(a) + 1) * (sqrt_floor(a) + 1) > a) by (nonlinear_arith)
            requires
                sqrt_floor(a) == 0,
                a == 0,
        ;
    } else {
        lemma_sqrt_floor_props((a - 1) as nat);
        let p = sqrt_floor((a - 1) as nat);
        assert(sqrt_floor(a) == if (p + 1) * (p + 1) <= a {
            p + 1
        } else {
            p
        });
        if (p + 1) * (p + 1) <= a {
            assert(sqrt_floor(a) == p + 1);
            assert((p + 2) * (p + 2) > (p + 1) * (p + 1)) by (nonlinear_arith);
            assert((p + 1) * (p + 1) > a - 1);
            assert((p + 2) * (p + 2) > a) by (nonlinear_arith)
                requires
                    (p + 2) * (p + 2) > (p + 1) * (p + 1),
                    (p + 1) * (p + 1) >= a,
            ;
            assert((sqrt_floor(a) + 1) * (sqrt_floor(a) + 1) == (p + 2) * (p + 2));
        } else {
            assert(sqrt_floor(a) == p);
            assert((p + 1) * (p + 1) > a);
        }
    }
}

/// Any `r` with `r * r <= a < (r + 1) * (r + 1)` is `sqrt_floor(a)`.
pub proof fn lemma_sqrt_floor_unique(a: nat, r: nat)
    requires
        r * r <= a,
        (r + 1) * (r + 1) > a,
    ensures
        r == sqrt_floor(a),
{
    lemma_sqrt_floor_props(a);
    let s = sqrt_floor(a);
    if r < s {
        assert((r + 1) * (r + 1) <= s * s) by (nonlinear_arith)
            requires
                r + 1 <= s,
        ;
    }
    if r > s {
        assert((s + 1) * (s + 1) <= r * r) by (nonlinear_arith)
            requires
                s + 1 <= r,
        ;
    }
}

/// The integer square root, by binary search.
pub fn isqrt(a: i64) -> (r: i64)
    requires
        a >= 0,
    ensures
        r >= 0,
        r * r <= a,
        (r + 1) * (r + 1) > a,
        r == sqrt_floor(a as nat),
{
    let mut lo: i64 = 0;
    let mut hi: i64 = 3037000499;
    proof {
        assert((3037000499int + 1) * (3037000499int + 1) > i64::MAX);
    }
    while lo < hi
        invariant
            0 <= lo <= hi <= 3037000499,
            lo * lo <= a,
            (hi + 1) * (hi + 1) > a,
        decreases hi - lo,
    {
        let mid = lo + (hi - lo + 1) / 2;
        proof {
            assert(mid * mid <= 3037000499int * 3037000499int) by (nonlinear_arith)
                requires
                    0 <= mid <= 3037000499,
            ;
        }
        if mid * mid <= a {
            lo = mid;
        } else {
            hi = mid - 1;
        }
    }
    proof {
        lemma_sqrt_floor_unique(a as nat, lo as nat);
    }
    lo
}

/// Dividing a value by a magnitude at least as large yields a
/// fixed-point quotient of magnitude at most one.
pub proof fn lemma_fxdiv_unit(x: int, n: int)
    requires
        n >= 1,
        -n <= x <= n,
    ensures
        -FP_ONE <= fxdiv(x, n) <= FP_ONE,
{
    let one = FP_ONE as int;
    let m = vstd::math::abs(x * one) as int;
    if x >= 0 {
        assert(x * one >= 0 && x * one <= n * one) by (nonlinear_arith)
            requires
                0 <= x <= n,
                one > 0,
        ;
        assert(m == x * one);
    } else {
        assert(x * one < 0 && -(x * one) <= n * one) by (nonlinear_arith)
            requires
                x < 0,
                -x <= n,
                one > 0,
        ;
        assert(m == -(x * one));
    }
    vstd::arithmetic::div_mod::lemma_div_is_ordered(m, n * one, n);
    vstd::arithmetic::div_mod::lemma_div_multiples_vanish(one, n);
    vstd::arithmetic::div_mod::lemma_div_pos_is_pos(m, n);
}

/// Magnitude of a fixed-point value.
pub fn fx_abs(a: i64) -> (r: i64)
    requires
        a != i64::MIN,
    ensures
        r == if a >= 0 { a as int } else { -(a as int) },
        r >= 0,
{
    if a >= 0 {
        a
    } else {
        -a
    }
}

} // verus!
