use raycaster::data::{is_pow2_in_range, wrap_coord};
use raycaster::fixed::{fx_abs, fx_div, fx_floor, fx_frac, fx_mul, isqrt, FP_ONE};
use raycaster::textures::darken;

#[test]
fn mul_rounds_toward_minus_infinity() {
    assert_eq!(fx_mul(FP_ONE, FP_ONE), FP_ONE);
    assert_eq!(fx_mul(3 * FP_ONE, 2 * FP_ONE), 6 * FP_ONE);
    assert_eq!(fx_mul(-3 * FP_ONE, 2 * FP_ONE), -6 * FP_ONE);
    // 1.5 * 0.5 = 0.75
    assert_eq!(fx_mul(98304, 32768), 49152);
    // floor rounding: -1 unit times 0.5 is -0.5 units, floored
    assert_eq!(fx_mul(-1, 32768), -1);
    assert_eq!(fx_mul(1, 32768), 0);
}

#[test]
fn div_truncates_toward_zero() {
    assert_eq!(fx_div(FP_ONE, 2 * FP_ONE), FP_ONE / 2);
    assert_eq!(fx_div(-FP_ONE, 2 * FP_ONE), -FP_ONE / 2);
    assert_eq!(fx_div(600, 131072), 300);
    // 1 / 3 and -1 / 3 truncate symmetrically
    assert_eq!(fx_div(FP_ONE, 3 * FP_ONE), 21845);
    assert_eq!(fx_div(-FP_ONE, 3 * FP_ONE), -21845);
}

#[test]
fn floor_and_frac_split_coordinates() {
    assert_eq!(fx_floor(98304), 1);
    assert_eq!(fx_frac(98304), 32768);
    assert_eq!(fx_floor(-1), -1);
    assert_eq!(fx_frac(-1), FP_ONE - 1);
    assert_eq!(fx_floor(-98304), -2);
    assert_eq!(fx_frac(-98304), 32768);
    assert_eq!(fx_floor(0), 0);
    assert_eq!(fx_frac(0), 0);
}

#[test]
fn abs_and_isqrt() {
    assert_eq!(fx_abs(-5), 5);
    assert_eq!(fx_abs(5), 5);
    assert_eq!(isqrt(0), 0);
    assert_eq!(isqrt(1), 1);
    assert_eq!(isqrt(3), 1);
    assert_eq!(isqrt(4), 2);
    assert_eq!(isqrt(9801), 99);
    assert_eq!(isqrt(FP_ONE * FP_ONE), FP_ONE);
}

#[test]
fn pow2_check() {
    assert!(is_pow2_in_range(2));
    assert!(is_pow2_in_range(4));
    assert!(is_pow2_in_range(1024));
    assert!(!is_pow2_in_range(1));
    assert!(!is_pow2_in_range(3));
    assert!(!is_pow2_in_range(6));
    assert!(!is_pow2_in_range(2048));
}

// Texture coordinate wrap: a cell index moved by exactly the
// (power-of-two) grid width wraps to the same coordinate as the
// original index.
#[test]
fn wrap_has_grid_period() {
    for c in [-17i64, -8, -1, 0, 1, 5, 7, 8, 9, 100] {
        assert_eq!(wrap_coord(c + 8, 8), wrap_coord(c, 8));
        assert_eq!(wrap_coord(c + 64, 64), wrap_coord(c, 64));
    }
    assert_eq!(wrap_coord(0, 8), 0);
    assert_eq!(wrap_coord(8, 8), 0);
    assert_eq!(wrap_coord(-1, 8), 7);
    assert_eq!(wrap_coord(-9, 8), 7);
    assert_eq!(wrap_coord(11, 8), 3);
}

#[test]
fn darken_halves_every_byte() {
    let src = vec![0u8, 1, 2, 3, 254, 255];
    let out = darken(&src);
    assert_eq!(out, vec![0u8, 0, 1, 1, 127, 127]);
}
