use bouncy::fixed::{isqrt, Fixed, SCALE};
use bouncy::trig::{Rotation, FULL_TURN, QUARTER_PI};

fn raw(v: i64) -> Fixed {
    Fixed { raw: v }
}

fn as_f64(v: Fixed) -> f64 {
    v.raw as f64 / SCALE as f64
}

fn from_f64(v: f64) -> Fixed {
    Fixed { raw: (v * SCALE as f64).round() as i64 }
}

#[test]
fn constants_and_whole_numbers() {
    assert_eq!(Fixed::zero().raw, 0);
    assert_eq!(Fixed::one().raw, 4_294_967_296);
    assert_eq!(Fixed::from_int(3).raw, 12_884_901_888);
    assert_eq!(Fixed::from_int(-50).raw, -214_748_364_800);
    assert_eq!(Fixed::from_int(i32::MAX).raw, 0x7fff_ffff_0000_0000);
    assert_eq!(Fixed::from_int(i32::MIN).raw, i64::MIN);
}

#[test]
fn sums_saturate() {
    assert_eq!(raw(5).add(raw(-7)).raw, -2);
    assert_eq!(raw(i64::MAX).add(raw(1)).raw, i64::MAX);
    assert_eq!(raw(i64::MIN).add(raw(-1)).raw, i64::MIN);
    assert_eq!(raw(i64::MIN).sub(raw(1)).raw, i64::MIN);
    assert_eq!(raw(i64::MAX).sub(raw(-1)).raw, i64::MAX);
    assert_eq!(raw(10).sub(raw(4)).raw, 6);
    assert_eq!(raw(i64::MIN).neg().raw, i64::MAX);
    assert_eq!(raw(i64::MIN).abs().raw, i64::MAX);
    assert_eq!(raw(-9).abs().raw, 9);
    assert_eq!(raw(9).neg().raw, -9);
}

#[test]
fn products_round_toward_zero() {
    assert_eq!(from_f64(1.5).mul(from_f64(-2.25)).raw, -14_495_514_624);
    assert_eq!(raw(3).mul(raw(5)).raw, 0);
    assert_eq!(raw(-3 * SCALE / 2).mul(raw(SCALE / 3)).raw, -2_147_483_647);
    assert_eq!(raw(SCALE / 3).mul(raw(-3 * SCALE / 2)).raw, -2_147_483_647);
    assert_eq!(raw(i64::MAX).mul(Fixed::from_int(2)).raw, i64::MAX);
    assert_eq!(raw(i64::MIN).mul(Fixed::from_int(2)).raw, i64::MIN);
    assert_eq!(raw(i64::MIN).mul(Fixed::from_int(-1)).raw, i64::MAX);
    assert_eq!(raw(123_456).mul(Fixed::one()).raw, 123_456);
}

#[test]
fn quotients_round_toward_zero() {
    assert_eq!(Fixed::one().div(Fixed::from_int(3)).raw, 1_431_655_765);
    assert_eq!(Fixed::from_int(-1).div(Fixed::from_int(3)).raw, -1_431_655_765);
    assert_eq!(Fixed::from_int(7).div(Fixed::from_int(-2)).raw, -15_032_385_536);
    assert_eq!(raw(i64::MAX).div(raw(1)).raw, i64::MAX);
    assert_eq!(raw(i64::MIN).div(raw(1)).raw, i64::MIN);
    assert_eq!(Fixed::one().div(Fixed::from_int(1024)).raw, 4_194_304);
    assert_eq!(raw(7).div_int(2).raw, 3);
    assert_eq!(raw(-7).div_int(2).raw, -3);
    assert_eq!(raw(i64::MIN).div_int(-1).raw, i64::MAX);
}

#[test]
fn fractions() {
    assert_eq!(Fixed::from_ratio(981, 100).raw, 42_133_629_173);
    assert_eq!(Fixed::from_ratio(-1, 3).raw, -1_431_655_765);
    assert_eq!(Fixed::from_ratio(7, 10).raw, 3_006_477_107);
    assert_eq!(Fixed::from_ratio(1, 20).raw, 214_748_364);
    assert_eq!(Fixed::from_ratio(1, 2).raw, SCALE / 2);
}

#[test]
fn signs() {
    assert_eq!(raw(17).signum().raw, SCALE);
    assert_eq!(raw(-17).signum().raw, -SCALE);
    assert_eq!(raw(0).signum().raw, 0);
}

#[test]
fn square_roots_round_down() {
    assert_eq!(isqrt(0), 0);
    assert_eq!(isqrt(1), 1);
    assert_eq!(isqrt(2), 1);
    assert_eq!(isqrt(15), 3);
    assert_eq!(isqrt(16), 4);
    assert_eq!(isqrt(17), 4);
    assert_eq!(isqrt(u128::MAX), u64::MAX);
    assert_eq!(isqrt(1u128 << 64), 1u64 << 32);
}

#[test]
fn sines_and_cosines_on_the_axes_are_exact() {
    let quarter = 2 * QUARTER_PI;
    assert_eq!(FULL_TURN, 8 * QUARTER_PI);
    assert_eq!(Rotation::from_angle(raw(0)), Rotation { sin: raw(0), cos: raw(SCALE) });
    assert_eq!(Rotation::from_angle(raw(quarter)), Rotation { sin: raw(SCALE), cos: raw(0) });
    assert_eq!(Rotation::from_angle(raw(2 * quarter)), Rotation { sin: raw(0), cos: raw(-SCALE) });
    assert_eq!(Rotation::from_angle(raw(3 * quarter)), Rotation { sin: raw(-SCALE), cos: raw(0) });
    assert_eq!(Rotation::from_angle(raw(FULL_TURN)), Rotation { sin: raw(0), cos: raw(SCALE) });
}

#[test]
fn sines_and_cosines_at_chosen_angles() {
    let eighth = Rotation::from_angle(raw(QUARTER_PI));
    assert_eq!((eighth.sin.raw, eighth.cos.raw), (3_037_000_500, 3_037_000_499));
    let one = Rotation::from_angle(Fixed::one());
    assert_eq!((one.sin.raw, one.cos.raw), (3_614_090_360, 2_320_580_733));
    let back = Rotation::from_angle(Fixed::from_int(-1));
    assert_eq!((back.sin.raw, back.cos.raw), (-3_614_090_360, 2_320_580_733));
    let half = Rotation::from_angle(Fixed::from_ratio(1, 2));
    assert_eq!((half.sin.raw, half.cos.raw), (2_059_117_009, 3_769_188_402));
    let hundred = Rotation::from_angle(Fixed::from_int(100));
    assert_eq!((hundred.sin.raw, hundred.cos.raw), (-2_174_823_854, 3_703_631_363));
    let minus_three = Rotation::from_angle(Fixed::from_int(-3));
    assert_eq!((minus_three.sin.raw, minus_three.cos.raw), (-606_105_818, -4_251_985_396));
    let most = Rotation::from_angle(raw(i64::MAX));
    assert_eq!((most.sin.raw, most.cos.raw), (-4_072_592_452, 1_364_087_530));
    let least = Rotation::from_angle(raw(i64::MIN));
    assert_eq!((least.sin.raw, least.cos.raw), (4_072_592_452, 1_364_087_530));
}

#[test]
fn sines_and_cosines_follow_the_real_ones() {
    let mut k: i64 = -4000;
    while k <= 4000 {
        let angle = from_f64(k as f64 * 0.0123);
        let rot = Rotation::from_angle(angle);
        let exact = as_f64(angle);
        assert!((as_f64(rot.sin) - exact.sin()).abs() < 1e-8, "sine of {}", exact);
        assert!((as_f64(rot.cos) - exact.cos()).abs() < 1e-8, "cosine of {}", exact);
        k += 1;
    }
}

#[test]
fn rotations_lie_on_the_unit_circle() {
    let mut k: i64 = -3000;
    while k <= 3000 {
        let rot = Rotation::from_angle(raw(k * 98_765_432_101));
        let s = rot.sin.raw as i128;
        let c = rot.cos.raw as i128;
        let one = SCALE as i128;
        let short = one * one - (s * s + c * c);
        assert!(0 <= short && short <= 2 * one);
        assert!(-one <= s && s <= one && -one <= c && c <= one);
        k += 1;
    }
}

#[test]
fn opposite_angles_give_inverse_rotations() {
    let mut k: i64 = 0;
    while k <= 2000 {
        let angle = raw(k * 12_345_678_901);
        let there = Rotation::from_angle(angle);
        let back = Rotation::from_angle(angle.neg());
        assert_eq!(back, there.inverse());
        assert_eq!(back.cos, there.cos);
        assert_eq!(back.sin, there.sin.neg());
        k += 1;
    }
}
