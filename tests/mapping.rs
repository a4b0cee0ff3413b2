use pliced::cartesian::{Axis, Plane};
use pliced::geometry::{DataPoint, Interval, Point, DATA_ONE, PIXEL_ONE};

fn d(v: i64) -> i64 {
    v * DATA_ONE
}

fn px(v: i32) -> i32 {
    v * PIXEL_ONE
}

fn plane(x: Interval, y: Interval, width: u16, height: u16) -> Plane {
    // the margins a default chart uses with ten pixel labels
    Plane {
        x: Axis::new(&x, 10, 10, width),
        y: Axis::new(&y, 20, 10, height),
    }
}

fn tens() -> Plane {
    plane(Interval::new(0, d(10)), Interval::new(0, d(10)), 220, 120)
}

#[test]
fn data_to_pixel_is_affine() {
    let p = tens();
    assert_eq!(p.scale_to_cartesian_x(0), px(10));
    assert_eq!(p.scale_to_cartesian_x(d(5)), px(110));
    assert_eq!(p.scale_to_cartesian_x(d(10)), px(210));
    assert_eq!(p.scale_to_cartesian_x(d(-1)), px(-10));
    assert_eq!(p.scale_to_cartesian_x(d(5) + DATA_ONE / 2), px(120));
}

#[test]
fn unit_ranges_can_be_charted() {
    let p = plane(Interval::new(0, DATA_ONE), Interval::new(0, DATA_ONE), 220, 120);
    assert_eq!(p.scale_to_cartesian_x(DATA_ONE / 4), px(60));
    assert_eq!(p.scale_to_cartesian_y(DATA_ONE / 2), px(55));
    assert_eq!(p.get_cartesian(Point::new(px(60), px(55))), DataPoint::new(DATA_ONE / 4, DATA_ONE / 2));
}

#[test]
fn y_axis_is_flipped() {
    let p = tens();
    // bottom margin is 20 pixels, top margin 10
    assert_eq!(p.scale_to_cartesian_y(0), px(100));
    assert_eq!(p.scale_to_cartesian_y(d(10)), px(10));
    assert!(p.scale_to_cartesian_y(d(7)) < p.scale_to_cartesian_y(d(3)));
}

#[test]
fn forward_maps_are_strictly_monotone() {
    let p = plane(Interval::new(0, d(1000)), Interval::new(0, d(1000)), 120, 130);
    assert!(p.scale_to_cartesian_x(d(1)) < p.scale_to_cartesian_x(d(2)));
    assert!(p.scale_to_cartesian_y(d(1)) > p.scale_to_cartesian_y(d(2)));
}

#[test]
fn pixel_round_trip_is_exact() {
    let p = plane(Interval::new(0, d(10)), Interval::new(0, d(10)), 120, 130);
    for x in [px(10), px(61), px(61) + 3, px(110)] {
        for y in [px(10), px(61), px(61) + 7, px(110)] {
            let data = p.get_cartesian(Point::new(x, y));
            assert_eq!(p.scale_to_cartesian_x(data.x), x);
            assert_eq!(p.scale_to_cartesian_y(data.y), y);
        }
    }
}

#[test]
fn data_round_trip_within_one_pixel_unit() {
    let p = plane(Interval::new(0, d(1000)), Interval::new(0, d(1000)), 120, 130);
    for v in [d(5), d(5) + 17, d(999)] {
        let back = p.get_cartesian(Point::new(p.scale_to_cartesian_x(v), p.scale_to_cartesian_y(v)));
        // one pixel unit is 1000 * DATA_ONE / (100 * PIXEL_ONE) data units
        let unit = d(1000) / (100 * PIXEL_ONE as i64);
        assert!(back.x <= v && v - back.x < unit);
        assert!(back.y >= v && back.y - v < unit);
    }
    let fine = plane(Interval::new(0, d(10)), Interval::new(0, d(10)), 220, 120);
    let back = fine.get_cartesian(Point::new(fine.scale_to_cartesian_x(d(6)), fine.scale_to_cartesian_y(d(6))));
    assert!((back.x - d(6)).abs() < 13 && (back.y - d(6)).abs() < 29);
}

#[test]
fn offset_is_relative_to_the_middle() {
    let p = tens();
    assert_eq!(p.get_offset(Point::new(px(110), px(55))), DataPoint::new(0, 0));
    assert_eq!(p.get_offset(Point::new(px(210), px(10))), DataPoint::new(d(5), d(5)));
    let odd = plane(Interval::new(0, d(999)), Interval::new(0, d(999)), 120, 130);
    let mid = d(999) / 2;
    let at = Point::new(odd.scale_to_cartesian_x(mid), odd.scale_to_cartesian_y(mid));
    let off = odd.get_offset(at);
    let unit = d(999) / (100 * PIXEL_ONE as i64) + 1;
    assert!(off.x.abs() <= unit && off.y.abs() <= unit);
}

#[test]
fn degenerate_ranges_do_not_divide_by_zero() {
    let p = plane(Interval::new(d(4), d(4)), Interval::new(d(3), d(3)), 10, 10);
    assert_eq!(p.x.length, 1);
    assert_eq!(p.x.span, 1);
    assert_eq!(p.scale_to_cartesian_x(d(4)), px(10));
    assert_eq!(p.get_cartesian(Point::new(px(10), px(10))), DataPoint::new(d(4), d(3)));
}

#[test]
fn far_values_saturate() {
    let p = plane(Interval::new(i64::MIN, i64::MIN + 1), Interval::new(0, d(10)), 60000, 120);
    assert_eq!(p.scale_to_cartesian_x(i64::MAX), i32::MAX);
}

#[test]
fn plane_corners() {
    let p = plane(Interval::new(d(-2), d(8)), Interval::new(d(1), d(9)), 220, 120);
    assert_eq!(p.bottom_left(), DataPoint::new(d(-2), 0));
    assert_eq!(p.bottom_right(), DataPoint::new(d(8), 0));
    assert_eq!(p.bottom_center(), DataPoint::new(0, d(1)));
    assert_eq!(p.top_center(), DataPoint::new(0, d(9)));
}
