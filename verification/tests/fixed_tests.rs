use raytracer::fixed::{Fixed, MAX_RAW, ONE_RAW};

fn fx(x: f64) -> Fixed {
    Fixed::from_raw((x * 4294967296.0).round() as i64)
}

fn fl(x: Fixed) -> f64 {
    x.value() as f64 / 4294967296.0
}

#[test]
fn one_has_thirty_two_fractional_bits() {
    assert_eq!(Fixed::one().raw, ONE_RAW);
    assert_eq!(Fixed::one().raw, 1i64 << 32);
    assert_eq!(Fixed::zero().raw, 0);
    assert_eq!(Fixed::from_int(3).raw, 3i64 << 32);
    assert_eq!(Fixed::from_int(-3).raw, -(3i64 << 32));
}

#[test]
fn from_raw_reads_the_lowest_pattern_as_the_lowest_value() {
    assert_eq!(Fixed::from_raw(i64::MIN).raw, -MAX_RAW);
    assert_eq!(Fixed { raw: i64::MIN }.value(), -MAX_RAW);
    assert_eq!(Fixed::from_raw(17).raw, 17);
    assert_eq!(Fixed::lowest().raw, -MAX_RAW);
    assert_eq!(Fixed::highest().raw, MAX_RAW);
}

#[test]
fn addition_and_subtraction_are_exact_inside_the_range() {
    assert_eq!(fx(1.5).add(fx(2.25)).raw, fx(3.75).raw);
    assert_eq!(fx(1.5).sub(fx(2.25)).raw, fx(-0.75).raw);
    assert_eq!(Fixed::from_raw(5).add(Fixed::from_raw(-7)).raw, -2);
}

#[test]
fn addition_saturates_at_both_ends() {
    assert_eq!(Fixed::highest().add(Fixed::one()).raw, MAX_RAW);
    assert_eq!(Fixed::lowest().sub(Fixed::one()).raw, -MAX_RAW);
    assert_eq!(Fixed::highest().add(Fixed::highest()).raw, MAX_RAW);
    assert_eq!(Fixed::lowest().add(Fixed::lowest()).raw, -MAX_RAW);
    assert_eq!(Fixed::highest().add(Fixed::lowest()).raw, 0);
}

#[test]
fn negation_is_exact_over_the_whole_range() {
    assert_eq!(Fixed::highest().neg().raw, -MAX_RAW);
    assert_eq!(Fixed::lowest().neg().raw, MAX_RAW);
    assert_eq!(Fixed { raw: i64::MIN }.neg().raw, MAX_RAW);
    assert_eq!(fx(2.5).neg().raw, fx(-2.5).raw);
    assert_eq!(fx(-2.5).abs().raw, fx(2.5).raw);
    assert_eq!(Fixed { raw: i64::MIN }.abs().raw, MAX_RAW);
}

#[test]
fn multiplication_rounds_toward_zero() {
    assert_eq!(fx(1.5).mul(fx(2.5)).raw, fx(3.75).raw);
    assert_eq!(fx(-1.5).mul(fx(2.5)).raw, fx(-3.75).raw);
    // 3 * 2^-32 times one half is 1.5 * 2^-32, which rounds to 2^-32.
    assert_eq!(Fixed::from_raw(3).mul(fx(0.5)).raw, 1);
    assert_eq!(Fixed::from_raw(-3).mul(fx(0.5)).raw, -1);
    assert_eq!(Fixed::from_raw(1).mul(fx(0.5)).raw, 0);
    assert_eq!(Fixed::from_raw(-1).mul(fx(0.5)).raw, 0);
}

#[test]
fn multiplication_saturates() {
    assert_eq!(Fixed::highest().mul(Fixed::highest()).raw, MAX_RAW);
    assert_eq!(Fixed::highest().mul(Fixed::lowest()).raw, -MAX_RAW);
    assert_eq!(Fixed::lowest().mul(Fixed::lowest()).raw, MAX_RAW);
    assert_eq!(Fixed::from_int(100_000).mul(Fixed::from_int(100_000)).raw, MAX_RAW);
    assert_eq!(Fixed::from_int(40_000).mul(Fixed::from_int(40_000)).raw, 1_600_000_000i64 << 32);
}

#[test]
fn division_rounds_toward_zero() {
    assert_eq!(fx(7.5).div(fx(2.5)).raw, fx(3.0).raw);
    assert_eq!(Fixed::one().div(Fixed::from_int(3)).raw, 1_431_655_765);
    assert_eq!(Fixed::one().neg().div(Fixed::from_int(3)).raw, -1_431_655_765);
    assert_eq!(Fixed::one().div(Fixed::from_int(-3)).raw, -1_431_655_765);
    assert_eq!(Fixed::one().neg().div(Fixed::from_int(-3)).raw, 1_431_655_765);
}

#[test]
fn division_by_zero_is_unbounded_with_the_sign_of_the_numerator() {
    assert_eq!(Fixed::one().div(Fixed::zero()).raw, MAX_RAW);
    assert_eq!(Fixed::one().neg().div(Fixed::zero()).raw, -MAX_RAW);
    assert_eq!(Fixed::zero().div(Fixed::zero()).raw, 0);
    assert_eq!(Fixed::from_raw(1).div(Fixed::zero()).raw, MAX_RAW);
}

#[test]
fn from_ratio_gives_the_constants_of_the_renderer() {
    assert_eq!(Fixed::from_ratio(1, 2).raw, 1i64 << 31);
    assert_eq!(Fixed::from_ratio(999, 1000).raw, 4_290_672_328);
    assert_eq!(Fixed::from_ratio(1, 1000).raw, 4_294_967);
    assert_eq!(Fixed::from_ratio(1, 100_000_000).raw, 42);
    assert_eq!(Fixed::from_ratio(7, 10).raw, 3_006_477_107);
    assert_eq!(Fixed::from_ratio(-7, 10).raw, -3_006_477_107);
    assert_eq!(Fixed::from_ratio(5, 0).raw, MAX_RAW);
    assert_eq!(Fixed::from_ratio(-5, 0).raw, -MAX_RAW);
    assert_eq!(Fixed::from_ratio(0, 0).raw, 0);
    assert_eq!(Fixed::from_ratio(i64::MAX, 1).raw, MAX_RAW);
    assert_eq!(Fixed::from_ratio(i64::MIN, 1).raw, -MAX_RAW);
}

#[test]
fn from_int_saturates() {
    assert_eq!(Fixed::from_int(i64::MAX).raw, MAX_RAW);
    assert_eq!(Fixed::from_int(i64::MIN).raw, -MAX_RAW);
    assert_eq!(Fixed::from_int(1i64 << 31).raw, MAX_RAW);
    assert_eq!(Fixed::from_int((1i64 << 31) - 1).raw, ((1i64 << 31) - 1) << 32);
}

#[test]
fn to_int_rounds_toward_zero() {
    assert_eq!(fx(2.75).to_int(), 2);
    assert_eq!(fx(-2.75).to_int(), -2);
    assert_eq!(fx(0.99).to_int(), 0);
    assert_eq!(fx(-0.99).to_int(), 0);
    assert_eq!(Fixed::highest().to_int(), (1i64 << 31) - 1);
}

#[test]
fn square_roots_are_rounded_down() {
    assert_eq!(Fixed::from_int(4).sqrt().raw, 2i64 << 32);
    assert_eq!(Fixed::one().sqrt().raw, ONE_RAW);
    assert_eq!(fx(0.25).sqrt().raw, fx(0.5).raw);
    // sqrt(2) = 1.41421356237309504880..., times 2^32 = 6074000999.95...
    assert_eq!(Fixed::from_int(2).sqrt().raw, 6_074_000_999);
    // The smallest positive number: sqrt(2^-32) = 2^-16.
    assert_eq!(Fixed::from_raw(1).sqrt().raw, 1i64 << 16);
    let top = Fixed::highest().sqrt().raw as i128;
    let n = (MAX_RAW as i128) << 32;
    assert!(top * top <= n && n < (top + 1) * (top + 1));
}

#[test]
fn square_roots_of_what_is_not_positive_are_zero() {
    assert_eq!(Fixed::zero().sqrt().raw, 0);
    assert_eq!(fx(-4.0).sqrt().raw, 0);
    assert_eq!(Fixed::lowest().sqrt().raw, 0);
}

#[test]
fn square_root_brackets_its_argument_on_many_values() {
    let mut raw: i64 = 1;
    while raw < MAX_RAW / 3 {
        let r = Fixed::from_raw(raw).sqrt().raw as i128;
        let n = (raw as i128) << 32;
        assert!(r * r <= n && n < (r + 1) * (r + 1), "raw = {}", raw);
        raw = raw * 3 + 1;
    }
}

#[test]
fn powers_multiply_from_the_left() {
    assert_eq!(fx(1.5).powi(0).raw, ONE_RAW);
    assert_eq!(fx(1.5).powi(1).raw, fx(1.5).raw);
    assert_eq!(Fixed::from_int(2).powi(5).raw, 32i64 << 32);
    assert_eq!(Fixed::from_int(-2).powi(5).raw, -(32i64 << 32));
    assert_eq!(fx(0.5).powi(5).raw, fx(0.03125).raw);
    assert_eq!(Fixed::zero().powi(5).raw, 0);
    assert_eq!(Fixed::zero().powi(0).raw, ONE_RAW);
}

#[test]
fn minimum_and_maximum() {
    assert_eq!(fx(1.0).min(fx(2.0)).raw, fx(1.0).raw);
    assert_eq!(fx(1.0).max(fx(2.0)).raw, fx(2.0).raw);
    assert_eq!(fx(-1.0).min(fx(-2.0)).raw, fx(-2.0).raw);
    assert_eq!(Fixed { raw: i64::MIN }.min(Fixed::lowest()).raw, -MAX_RAW);
}

#[test]
fn comparisons_go_by_value() {
    assert!(fx(1.0).lt(fx(2.0)));
    assert!(!fx(2.0).lt(fx(2.0)));
    assert!(fx(2.0).le(fx(2.0)));
    assert!(fx(3.0).gt(fx(2.0)));
    assert!(!fx(2.0).gt(fx(2.0)));
    assert!(fx(2.0).same(fx(2.0)));
    assert!(Fixed { raw: i64::MIN }.same(Fixed::lowest()));
    assert!(!Fixed { raw: i64::MIN }.lt(Fixed::lowest()));
}

#[test]
fn products_agree_with_floating_point_to_the_last_bit_or_so() {
    let values = [0.001, 0.5, 0.7, 1.0, 3.25, 100.5, -0.3, -17.125];
    for &a in values.iter() {
        for &b in values.iter() {
            let got = fl(fx(a).mul(fx(b)));
            assert!((got - a * b).abs() < 1e-7, "{} * {}", a, b);
            let got = fl(fx(a).div(fx(b)));
            assert!((got - a / b).abs() < 1e-6 * (a / b).abs() + 1e-9, "{} / {}", a, b);
        }
    }
}
