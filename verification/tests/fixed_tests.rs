use raytracer::fixed::div_floor;
use raytracer::fixed::isqrt_u128;
use raytracer::fixed::quot_floor;
use raytracer::fixed::Fixed;

fn fx(v: f64) -> Fixed {
    Fixed::from_raw((v * 65536.0).round() as i32)
}

#[test]
fn fixed_constructors() {
    assert_eq!(Fixed::zero().raw, 0);
    assert_eq!(Fixed::one().raw, 65536);
    assert_eq!(Fixed::infinity().raw, i32::MAX);
    assert_eq!(Fixed::from_int(3).raw, 3 * 65536);
    assert_eq!(Fixed::from_int(-3).raw, -3 * 65536);
    assert_eq!(Fixed::from_int(40000).raw, i32::MAX);
    assert_eq!(Fixed::from_int(-40000).raw, i32::MIN);
    assert_eq!(Fixed::from_u32(7).raw, 7 * 65536);
    assert_eq!(Fixed::from_u32(u32::MAX).raw, i32::MAX);
    assert_eq!(Fixed::from_ratio(1, 5).raw, 13107);
    assert_eq!(Fixed::from_ratio(-1, 5).raw, -13108);
    assert_eq!(Fixed::from_ratio(1, -5).raw, -13108);
    assert_eq!(Fixed::from_ratio(1, 0).raw, i32::MAX);
    assert_eq!(Fixed::from_ratio(-1, 0).raw, i32::MIN);
    assert_eq!(Fixed::from_ratio(0, 0).raw, 0);
}

#[test]
fn fixed_finiteness() {
    assert!(Fixed::one().is_finite());
    assert!(!Fixed::infinity().is_finite());
    assert!(!Fixed::from_raw(i32::MIN).is_finite());
    assert!(Fixed::from_raw(i32::MAX - 1).is_finite());
}

#[test]
fn fixed_sum_difference_negation() {
    assert_eq!(fx(1.5).add(fx(2.25)), fx(3.75));
    assert_eq!(fx(1.5).sub(fx(2.25)), fx(-0.75));
    assert_eq!(fx(1.5).neg(), fx(-1.5));
    assert_eq!(Fixed::infinity().add(fx(1.0)), Fixed::infinity());
    assert_eq!(Fixed::from_raw(i32::MIN).sub(fx(1.0)), Fixed::from_raw(i32::MIN));
    assert_eq!(Fixed::from_raw(i32::MIN).neg(), Fixed::from_raw(i32::MAX));
}

#[test]
fn fixed_product_rounds_down() {
    assert_eq!(fx(1.5).mul(fx(2.0)), fx(3.0));
    assert_eq!(fx(-1.5).mul(fx(2.0)), fx(-3.0));
    assert_eq!(Fixed::from_raw(1).mul(Fixed::from_raw(1)), Fixed::from_raw(0));
    assert_eq!(Fixed::from_raw(-1).mul(Fixed::from_raw(1)), Fixed::from_raw(-1));
    assert_eq!(fx(30000.0).mul(fx(2.0)), Fixed::infinity());
    assert_eq!(fx(30000.0).mul(fx(-2.0)), Fixed::from_raw(i32::MIN));
}

#[test]
fn fixed_quotient_rounds_down() {
    assert_eq!(fx(3.0).div(fx(2.0)), fx(1.5));
    assert_eq!(fx(1.0).div(fx(3.0)).raw, 21845);
    assert_eq!(fx(-1.0).div(fx(3.0)).raw, -21846);
    assert_eq!(fx(1.0).div(fx(-3.0)).raw, -21846);
    assert_eq!(fx(-1.0).div(fx(-3.0)).raw, 21845);
    assert_eq!(fx(1.0).div(Fixed::zero()), Fixed::infinity());
    assert_eq!(fx(-1.0).div(Fixed::zero()), Fixed::from_raw(i32::MIN));
    assert_eq!(Fixed::zero().div(Fixed::zero()), Fixed::zero());
    assert_eq!(fx(30000.0).div(Fixed::from_raw(1)), Fixed::infinity());
}

#[test]
fn fixed_square_root() {
    assert_eq!(fx(49.0).sqrt(), fx(7.0));
    assert_eq!(fx(2.0).sqrt().raw, 92681);
    assert_eq!(fx(0.0).sqrt(), fx(0.0));
    assert_eq!(fx(-4.0).sqrt(), fx(0.0));
    assert_eq!(fx(0.25).sqrt(), fx(0.5));
}

#[test]
fn fixed_unit_clamp() {
    assert_eq!(fx(-0.5).clamp_unit(), fx(0.0));
    assert_eq!(fx(0.5).clamp_unit(), fx(0.5));
    assert_eq!(fx(1.5).clamp_unit(), fx(1.0));
    assert_eq!(raytracer::raytracer::clamp(fx(1.5)), fx(1.0));
    assert_eq!(raytracer::raytracer::clamp(fx(-1.5)), fx(0.0));
    assert_eq!(raytracer::raytracer::clamp(fx(0.25)), fx(0.25));
}

#[test]
fn fixed_powers() {
    assert_eq!(fx(0.5).pow(0), fx(1.0));
    assert_eq!(fx(0.5).pow(1), fx(0.5));
    assert_eq!(fx(0.5).pow(2), fx(0.25));
    assert_eq!(fx(0.5).pow(3), fx(0.125));
    assert_eq!(fx(2.0).pow(10), fx(1024.0));
    assert_eq!(fx(1.0).pow(1250), fx(1.0));
    assert_eq!(fx(0.5).powi(3), fx(0.125));
    assert_eq!(fx(0.5).powi(-3), fx(8.0));
    assert_eq!(fx(2.0).powi(-1), fx(0.5));
    assert_eq!(fx(0.0).powi(0), fx(1.0));
    assert_eq!(fx(0.5).powi(i32::MIN), Fixed::infinity());
}

#[test]
fn integer_helpers() {
    assert_eq!(div_floor(7, 2), 3);
    assert_eq!(div_floor(-7, 2), -4);
    assert_eq!(div_floor(-8, 2), -4);
    assert_eq!(div_floor(0, 5), 0);
    assert_eq!(quot_floor(7, -2), -4);
    assert_eq!(quot_floor(-7, -2), 3);
    assert_eq!(isqrt_u128(0), 0);
    assert_eq!(isqrt_u128(1), 1);
    assert_eq!(isqrt_u128(24), 4);
    assert_eq!(isqrt_u128(25), 5);
    assert_eq!(isqrt_u128(u128::MAX), u64::MAX as u128);
}

#[test]
fn fixed_operators() {
    assert_eq!(fx(1.5) + fx(2.25), fx(3.75));
    assert_eq!(fx(1.5) - fx(2.25), fx(-0.75));
    assert_eq!(fx(1.5) * fx(2.0), fx(3.0));
    assert_eq!(fx(3.0) / fx(2.0), fx(1.5));
    assert_eq!(-fx(1.5), fx(-1.5));
    assert_eq!(fx(30000.0) + fx(30000.0), Fixed::infinity());
}

#[test]
fn fixed_as_text() {
    assert_eq!(fx(0.0).to_text(), "0");
    assert_eq!(fx(1.0).to_text(), "1");
    assert_eq!(fx(-1.0).to_text(), "-1");
    assert_eq!(fx(1.5).to_text(), "1.5");
    assert_eq!(fx(-0.75).to_text(), "-0.75");
    assert_eq!(fx(1234.0625).to_text(), "1234.0625");
    assert_eq!(Fixed::from_raw(1).to_text(), "0.0000152587890625");
    assert_eq!(Fixed::from_raw(-1).to_text(), "-0.0000152587890625");
    assert_eq!(Fixed::from_ratio(1, 5).to_text(), "0.1999969482421875");
    assert_eq!(Fixed::from_raw(i32::MAX).to_text(), "32767.9999847412109375");
    assert_eq!(Fixed::from_raw(i32::MIN).to_text(), "-32768");
    assert_eq!(fx(10.0).to_text(), "10");
    assert_eq!(fx(100.5).to_text(), "100.5");
    for v in [0.5f64, -3.25, 7.0, 0.0009765625, 12345.678955078125] {
        assert_eq!(fx(v).to_text(), format!("{}", v));
    }
}
