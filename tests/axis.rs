use pliced::axis::Axis;
use pliced::geometry::{Interval, DATA_ONE};

fn d(v: i64) -> i64 {
    v * DATA_ONE
}

#[test]
fn length_all_positive() {
    let axis = Axis::default().range(Interval::new(d(1), d(5)));
    assert!(((axis.length() - d(4) as i128) as f32) <= f32::EPSILON)
}

#[test]
fn length_all_negative() {
    let axis = Axis::default().range(Interval::new(d(-1), d(-5)));
    assert!(((axis.length() - d(4) as i128) as f32) <= f32::EPSILON)
}

#[test]
fn length_negative_and_positive() {
    let axis = Axis::default().range(Interval::new(d(-1), d(5)));
    assert!(((axis.length() - d(6) as i128) as f32) <= f32::EPSILON)
}

#[test]
fn default_axis_spans_zero_to_ten() {
    assert_eq!(Axis::default().length(), d(10) as i128);
}

#[test]
fn fractional_lengths() {
    let axis = Axis::default().range(Interval::new(0, DATA_ONE / 4));
    assert_eq!(axis.length(), 16384);
}
