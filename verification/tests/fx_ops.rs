use nbody::fx::{FX_HALF, FX_ONE, FX_UNSET, fx_abs, fx_add, fx_div, fx_mul, fx_of_int, fx_sqrt,
    fx_sub};

#[test]
fn add_and_sub_exact() {
    assert_eq!(fx_add(FX_ONE, FX_ONE), 2 * FX_ONE);
    assert_eq!(fx_add(FX_ONE, -FX_ONE), 0);
    assert_eq!(fx_sub(FX_ONE, FX_HALF), FX_HALF);
    assert_eq!(fx_sub(0, FX_ONE), FX_UNSET);
}

#[test]
fn add_saturates() {
    assert_eq!(fx_add(i64::MAX, FX_ONE), i64::MAX);
    assert_eq!(fx_add(i64::MIN, -FX_ONE), i64::MIN);
    assert_eq!(fx_sub(i64::MIN, FX_ONE), i64::MIN);
}

#[test]
fn mul_exact() {
    assert_eq!(fx_mul(3 * FX_ONE, 2 * FX_ONE), 6 * FX_ONE);
    assert_eq!(fx_mul(FX_HALF, FX_HALF), FX_ONE / 4);
    assert_eq!(fx_mul(-3 * FX_ONE, 2 * FX_ONE), -6 * FX_ONE);
    assert_eq!(fx_mul(FX_ONE, 0), 0);
}

#[test]
fn mul_truncates_toward_zero() {
    // (1/2^32) * (1/2) = 2^-33 truncates to 0, from either sign.
    assert_eq!(fx_mul(1, FX_HALF), 0);
    assert_eq!(fx_mul(-1, FX_HALF), 0);
}

#[test]
fn mul_saturates() {
    assert_eq!(fx_mul(i64::MAX, i64::MAX), i64::MAX);
    assert_eq!(fx_mul(i64::MAX, i64::MIN), i64::MIN);
}

#[test]
fn div_exact() {
    assert_eq!(fx_div(6 * FX_ONE, 2 * FX_ONE), 3 * FX_ONE);
    assert_eq!(fx_div(FX_ONE, 3 * FX_ONE), 1431655765);
    assert_eq!(fx_div(-FX_ONE, 3 * FX_ONE), -1431655765);
}

#[test]
fn div_by_zero_saturates() {
    assert_eq!(fx_div(FX_ONE, 0), i64::MAX);
    assert_eq!(fx_div(-FX_ONE, 0), i64::MIN);
    assert_eq!(fx_div(0, 0), 0);
}

#[test]
fn sqrt_exact_squares() {
    assert_eq!(fx_sqrt(4 * FX_ONE), 2 * FX_ONE);
    assert_eq!(fx_sqrt(FX_ONE), FX_ONE);
    assert_eq!(fx_sqrt(0), 0);
    assert_eq!(fx_sqrt(-FX_ONE), 0);
}

#[test]
fn sqrt_rounds_down() {
    // floor(2^32 * sqrt(2)) = 6074000999
    assert_eq!(fx_sqrt(2 * FX_ONE), 6074000999);
    let r = fx_sqrt(2 * FX_ONE) as f64 / FX_ONE as f64;
    assert!((r - std::f64::consts::SQRT_2).abs() < 1e-9);
}

#[test]
fn abs_and_of_int() {
    assert_eq!(fx_abs(-FX_HALF), FX_HALF);
    assert_eq!(fx_abs(FX_HALF), FX_HALF);
    assert_eq!(fx_abs(i64::MIN), i64::MAX);
    assert_eq!(fx_of_int(100000), 100000 * FX_ONE);
    assert_eq!(fx_of_int(-3), -3 * FX_ONE);
    assert_eq!(fx_of_int(i64::MAX), i64::MAX);
}
