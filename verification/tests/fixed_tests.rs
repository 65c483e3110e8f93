use warps::fixed::FX_SCALE;
use warps::Fx;

fn tof(x: Fx) -> f64 {
    (x.bits as f64) / 4294967296.0_f64
}

fn close(a: f64, b: f64, tol: f64) -> bool {
    (a - b).abs() <= tol
}

#[test]
fn test_from_int_and_floor() {
    assert_eq!(Fx::from_int(7).bits, 7 * FX_SCALE);
    assert_eq!(Fx::from_int(7).fx_floor(), 7);
    assert_eq!(Fx::from_int(-3).fx_floor(), -3);
}

#[test]
fn test_floor_of_fractions() {
    let half = Fx::from_ratio(1, 2);
    assert_eq!(half.fx_floor(), 0);
    let neg_half = Fx::from_ratio(-1, 2);
    assert_eq!(neg_half.fx_floor(), -1);
    let x = Fx::from_ratio(-5, 2);
    assert_eq!(x.fx_floor(), -3);
}

#[test]
fn test_exact_arithmetic() {
    let a = Fx::from_ratio(3, 4);
    let b = Fx::from_ratio(1, 4);
    assert_eq!(a.fx_add(b), Fx::from_int(1));
    assert_eq!(a.fx_sub(b), Fx::from_ratio(1, 2));
    assert_eq!(a.fx_mul(b), Fx::from_ratio(3, 16));
    assert_eq!(a.fx_div(b), Fx::from_int(3));
    assert_eq!(a.fx_neg(), Fx::from_ratio(-3, 4));
    assert_eq!(a.fx_min(b), b);
    assert_eq!(a.fx_max(b), a);
}

#[test]
fn test_truncation_toward_zero() {
    // 1/3 in fixed point rounds toward zero on the 2^-32 grid
    let third = Fx::from_ratio(1, 3);
    assert!(close(tof(third), 1.0 / 3.0, 1e-9));
    assert!(tof(third) <= 1.0 / 3.0);
    let neg_third = Fx::from_ratio(-1, 3);
    assert!(tof(neg_third) >= -1.0 / 3.0);
}

#[test]
fn test_saturation_at_range_ends() {
    let top = Fx::new(i64::MAX);
    assert_eq!(top.fx_add(Fx::from_int(1)).bits, i64::MAX);
    let bottom = Fx::new(i64::MIN);
    assert_eq!(bottom.fx_sub(Fx::from_int(1)).bits, i64::MIN);
    // division by zero saturates toward the numerator's sign
    assert_eq!(Fx::from_int(5).fx_div(Fx::new(0)).bits, i64::MAX);
    assert_eq!(Fx::from_int(-5).fx_div(Fx::new(0)).bits, i64::MIN);
}
