use fixed::types::{I17F15, U17F15, U1F15};
use touch_input::UnitAngle;

fn pi_radians(value: f32) -> UnitAngle {
    UnitAngle::from_pi_radians(I17F15::from_num(value).to_bits())
}

fn degrees(value: i32) -> UnitAngle {
    UnitAngle::from_degrees(I17F15::from_num(value).to_bits())
}

fn radians_f32(angle: &UnitAngle) -> f32 {
    U17F15::from_bits(angle.as_radians_fixed()).to_num::<f32>()
}

fn degrees_f32(angle: &UnitAngle) -> f32 {
    U17F15::from_bits(angle.as_degrees_fixed()).to_num::<f32>()
}

#[test]
fn angle_from_pi_radians() {
    let angle = pi_radians(0.0);
    assert_eq!(angle.as_pi_radians(), U1F15::from_num(0.0).to_bits());
    assert!(radians_f32(&angle).abs() < 0.00001);
    assert!(degrees_f32(&angle).abs() < 0.00001);

    for i in -8..8 {
        let offset = (i * 2) as f32;
        let angle = pi_radians(1.0 + offset);
        assert_eq!(angle.as_pi_radians(), U1F15::from_num(1.0).to_bits());
        assert!((radians_f32(&angle) - 1.0 * std::f32::consts::PI).abs() < 0.00001);
        assert!((degrees_f32(&angle) - 180.0).abs() < 0.00001);
    }
}

#[test]
fn sweep_360_degrees() {
    for i in -1080..1080 {
        let angle = degrees(i);

        let unit_degrees = (i + 360 * 20) % 360;
        let radians = unit_degrees as f32 * std::f32::consts::PI / 180.0;

        assert!(
            (degrees_f32(&angle) - unit_degrees as f32).abs() < 0.01,
            "Expected {} to be nearly {unit_degrees}",
            degrees_f32(&angle)
        );
        assert!(
            (radians_f32(&angle) - radians).abs() < 0.001,
            "Expected {}  to be nearly {radians}",
            radians_f32(&angle)
        );
    }
}

#[test]
fn minus_ninety_degrees_is_two_hundred_seventy() {
    assert_eq!(degrees(-90), degrees(270));
    assert_eq!(degrees(-90).as_pi_radians(), 49152);
}

#[test]
fn one_pi_radian_is_half_a_turn() {
    let angle = pi_radians(1.0);
    assert!((degrees_f32(&angle) - 180.0).abs() < 0.01);
    assert!((radians_f32(&angle) - std::f32::consts::PI).abs() < 0.001);
    assert_eq!(angle.as_degrees_fixed(), 180 * 32768);
    assert_eq!(angle.as_radians_fixed(), 102944);
}

#[test]
fn pi_radians_in_range_are_kept_exactly() {
    for bits in [0, 1, 16384, 32768, 49151, 65535] {
        assert_eq!(UnitAngle::from_pi_radians(bits).as_pi_radians() as i32, bits);
    }
}

#[test]
fn pi_radians_out_of_range_wrap() {
    assert_eq!(UnitAngle::from_pi_radians(-32768).as_pi_radians(), 32768);
    assert_eq!(UnitAngle::from_pi_radians(65536 + 5).as_pi_radians(), 5);
    assert_eq!(UnitAngle::from_pi_radians(-1).as_pi_radians(), 65535);
    assert_eq!(UnitAngle::from_pi_radians(i32::MIN).as_pi_radians(), 0);
}

#[test]
fn whole_turns_of_pi_radians_give_the_same_angle() {
    for v in [0, 1, 16384, 40000, 65535] {
        for k in -3..4 {
            assert_eq!(UnitAngle::from_pi_radians(v), UnitAngle::from_pi_radians(v + 65536 * k));
        }
    }
}

#[test]
fn whole_turns_of_degrees_give_the_same_angle() {
    for d in [0, 1, 45, 90, 179, 359] {
        for k in 1..5 {
            assert_eq!(degrees(d), degrees(d + 360 * k));
            assert_eq!(degrees(-d), degrees(-d - 360 * k));
            assert_eq!(degrees(-d), degrees(-d + 360 * k));
        }
    }
    assert_eq!(degrees(360), degrees(0));
    assert_eq!(degrees(720), degrees(0));
    assert_eq!(degrees(-360), degrees(0));
    assert_eq!(degrees(-180), degrees(180));
}

#[test]
fn degrees_across_zero_agree() {
    assert_eq!(degrees(-1).as_pi_radians(), 65353);
    assert_eq!(degrees(-1), degrees(359));
    assert_eq!(degrees(-179), degrees(181));
    assert_eq!(degrees(359).as_pi_radians(), 65353);
    assert_eq!(degrees(1).as_pi_radians(), 182);
}

#[test]
fn degrees_exact_values() {
    assert_eq!(degrees(90).as_pi_radians(), 16384);
    assert_eq!(degrees(90).as_degrees_fixed(), 90 * 32768);
    assert_eq!(degrees(450).as_degrees_fixed(), 90 * 32768);
    assert_eq!(degrees(0).as_pi_radians(), 0);
    assert_eq!(UnitAngle::from_degrees(I17F15::MAX.to_bits()).as_pi_radians(), 2912);
    assert_eq!(UnitAngle::from_degrees(I17F15::MIN.to_bits()).as_pi_radians(), 62623);
}

#[test]
fn radians_exact_values() {
    assert_eq!(UnitAngle::from_radians(102944).as_pi_radians(), 32768);
    assert_eq!(UnitAngle::from_radians(2 * 102944).as_pi_radians(), 0);
    assert_eq!(UnitAngle::from_radians(51472).as_pi_radians(), 16384);
    assert_eq!(UnitAngle::from_radians(0).as_pi_radians(), 0);
    assert_eq!(UnitAngle::from_radians(-102944).as_pi_radians(), 32767);
    assert_eq!(UnitAngle::from_radians(-32768).as_pi_radians(), 55105);
    let angle = UnitAngle::from_radians(I17F15::from_num(1.0).to_bits());
    assert_eq!(angle.as_pi_radians(), 10430);
    assert_eq!(angle.as_radians_fixed(), 32766);
}

#[test]
fn radians_round_trip_within_tolerance() {
    for r in [0.0f32, 0.5, 1.0, 3.0, 3.2, 6.0, 6.3, 10.0, 100.0, -0.5, -1.0, -3.2, -6.3, -100.0] {
        let angle = UnitAngle::from_radians(I17F15::from_num(r).to_bits());
        let expected = r.rem_euclid(2.0 * std::f32::consts::PI);
        let got = radians_f32(&angle);
        let diff = (got - expected).abs();
        let diff = diff.min((diff - 2.0 * std::f32::consts::PI).abs());
        assert!(diff < 0.001, "{r}: got {got}, expected {expected}");
    }
}

#[test]
fn ten_thousand_radians_round_trip() {
    let angle = UnitAngle::from_radians(I17F15::from_num(10000).to_bits());
    assert_eq!(angle.as_pi_radians(), 36007);
    assert_eq!(angle.as_radians_fixed(), 113119);
    let expected = 10000.0f64.rem_euclid(2.0 * std::f64::consts::PI);
    let got = angle.as_radians_fixed() as f64 / 32768.0;
    assert!((got - expected).abs() < 0.001, "got {got}, expected {expected}");
}

#[test]
fn large_radians_round_trip_within_tolerance() {
    for r in [-65535.5f64, -40000.25, -10000.0, -1234.5, 777.75, 20000.0, 65535.0] {
        let angle = UnitAngle::from_radians(I17F15::from_num(r).to_bits());
        let expected = r.rem_euclid(2.0 * std::f64::consts::PI);
        let got = angle.as_radians_fixed() as f64 / 32768.0;
        let diff = (got - expected).abs();
        let diff = diff.min((diff - 2.0 * std::f64::consts::PI).abs());
        assert!(diff < 0.001, "{r}: got {got}, expected {expected}");
    }
}
