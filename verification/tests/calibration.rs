use watercontroller::calibration::{CalPoint, Calibration};
use watercontroller::reading::Reading;

fn r(v: f32) -> Reading {
    Reading { bits: v.to_bits() }
}

fn points(list: &[(f32, f32)]) -> Vec<CalPoint> {
    list.iter().map(|(raw, value)| CalPoint { raw: r(*raw), value: r(*value) }).collect()
}

#[test]
fn rejects_fewer_than_two_points() {
    assert!(Calibration::new(points(&[])).is_none());
    assert!(Calibration::new(points(&[(1.0, 2.0)])).is_none());
}

#[test]
fn rejects_duplicate_x_inputs() {
    assert!(Calibration::new(points(&[(1.0, 2.0), (1.0, 3.0)])).is_none());
}

#[test]
fn zeros_of_either_sign_are_one_input() {
    assert!(Calibration::new(points(&[(0.0, 2.0), (-0.0, 3.0)])).is_none());
}

#[test]
fn points_are_sorted_by_input() {
    let c = Calibration::new(points(&[(2.0, 20.0), (-1.5, 3.0), (0.5, 7.0)])).unwrap();
    assert_eq!(c.points, points(&[(-1.5, 3.0), (0.5, 7.0), (2.0, 20.0)]));
}

#[test]
fn values_are_read_off_their_segment() {
    let c = Calibration::new(points(&[(0.0, 0.0), (1.0, 10.0), (2.0, 12.0)])).unwrap();
    assert_eq!(c.segment(r(0.5)), 0);
    assert_eq!(c.segment(r(1.0)), 0);
    assert_eq!(c.segment(r(1.5)), 1);
    // Outside, the nearest segment counts.
    assert_eq!(c.segment(r(-5.0)), 0);
    assert_eq!(c.segment(r(15.0)), 1);
}

#[test]
fn readings_compare_as_numbers() {
    assert!(r(-1.0).at_least(&r(-2.0)));
    assert!(!r(-2.0).at_least(&r(-1.0)));
    assert!(r(0.0).at_least(&r(-0.0)));
    assert!(r(-0.0).at_least(&r(0.0)));
    assert!(r(f32::INFINITY).at_least(&r(f32::MAX)));
    assert!(!r(f32::NAN).at_least(&r(1.0)));
    assert!(!r(1.0).at_least(&r(f32::NAN)));
}

#[test]
fn whole_part_is_the_cast() {
    for v in [
        0.0f32, -0.0, 0.99, -0.99, 1.0, -1.0, 1.5, 100.0, 99.999, -100.7, 123456.789, 8388607.5,
        8388608.0, 16777215.0, 16777216.0, 1.0e9, -1.0e9, 2147483520.0, -2147483520.0, 2147483648.0,
        -2147483648.0, 1.0e20, -1.0e20, f32::MAX, f32::MIN, f32::INFINITY, f32::NEG_INFINITY,
        f32::NAN, f32::MIN_POSITIVE, 1.0e-40,
    ] {
        assert_eq!(r(v).whole(), v as i32, "{v}");
    }
}
