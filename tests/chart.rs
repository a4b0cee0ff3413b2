use pliced::chart::{ticks, AxisRange, Chart, Margin, Ticks};
use pliced::geometry::{DataPoint, Interval, Point, Rect, DATA_ONE, PIXEL_ONE};
use pliced::scene::{Anchor, Shape};
use pliced::series::{line_series, point_series, Color, LineSeries, PointSeries, PointStyle, Series};
use pliced::state::{Button, Event, Handlers, Interaction, ScrollDelta, State};

fn d(v: i64) -> i64 {
    v * DATA_ONE
}

fn px(v: i32) -> i32 {
    v * PIXEL_ONE
}

fn data(list: &[(i64, i64)]) -> Vec<(i64, i64)> {
    list.iter().map(|&(x, y)| (d(x), d(y))).collect()
}

fn line(list: &[(i64, i64)]) -> Series<u8> {
    Series::from(line_series(data(list)))
}

fn points(list: &[(i64, i64)]) -> Series<u8> {
    Series::from(point_series::<u8>(data(list)))
}

fn iv(a: i64, b: i64) -> Interval {
    Interval::new(d(a), d(b))
}

#[test]
fn auto_range_is_the_union_in_any_order() {
    let a = [(1, 5), (3, -2)];
    let b = [(-4, 0), (2, 9)];
    let ab = Chart::<u8>::new().push_series(line(&a)).push_series(points(&b));
    let ba = Chart::<u8>::new().push_series(points(&b)).push_series(line(&a));
    assert_eq!(ab.x_range, AxisRange::Automatic(Some(iv(-4, 3))));
    assert_eq!(ab.y_range, AxisRange::Automatic(Some(iv(-2, 9))));
    assert_eq!(ab.x_range, ba.x_range);
    assert_eq!(ab.y_range, ba.y_range);
    let more = ab.push_series(line(&[]));
    assert_eq!(more.x_range, AxisRange::Automatic(Some(iv(-4, 3))));
    assert_eq!(more.y_range, AxisRange::Automatic(Some(iv(-2, 9))));
    assert_eq!(more.series.len(), 3);
}

#[test]
fn empty_series_keeps_the_default_range() {
    let c = Chart::<u8>::new().push_series(points(&[]));
    assert_eq!(c.x_range, AxisRange::Automatic(None));
    assert_eq!(c.x_range.resolve(), iv(0, 10));
}

#[test]
fn custom_range_is_sticky() {
    let r = iv(-3, 3);
    let c = Chart::<u8>::new()
        .x_range(r)
        .extend_series(vec![line(&[(100, 100)]), points(&[(-50, 7)])])
        .push_series(line(&[(1000, 0)]));
    assert_eq!(c.x_range, AxisRange::Custom(r));
    assert_eq!(c.x_range.resolve(), r);
    assert_eq!(c.y_range, AxisRange::Automatic(Some(iv(0, 100))));
}

#[test]
fn extend_in_any_order_gives_the_same_ranges() {
    let l1 = [(1, 1), (2, 8)];
    let l2 = [(-1, 3)];
    let l3 = [(7, -6)];
    let c = Chart::<u8>::new().extend_series(vec![line(&l1), points(&l2), line(&l3)]);
    let e = Chart::<u8>::new().extend_series(vec![line(&l3), line(&l1), points(&l2)]);
    assert_eq!(c.x_range, AxisRange::Automatic(Some(iv(-1, 7))));
    assert_eq!(c.y_range, AxisRange::Automatic(Some(iv(-6, 8))));
    assert_eq!(c.x_range, e.x_range);
    assert_eq!(c.y_range, e.y_range);
    assert_eq!(c.series.len(), 3);
}

#[test]
fn series_ranges() {
    let l = LineSeries::new(data(&[(4, -1), (-2, 6), (3, 3)]));
    assert_eq!(l.x_range(), Some(iv(-2, 4)));
    assert_eq!(l.y_range(), Some(iv(-1, 6)));
    let p: PointSeries<u8> = PointSeries::new(vec![]);
    assert_eq!(p.x_range(), None);
    assert_eq!(p.y_range(), None);
}

#[test]
fn layout_builds_the_plane() {
    let c = Chart::<u8>::new().y_range(iv(0, 10));
    let mut state: State<u8> = State::new();
    let plane = c.layout(&mut state, 220, 120, 10);
    assert_eq!(plane.x.span, px(200) as i64);
    assert_eq!(plane.y.span, px(90) as i64);
    assert_eq!(plane.y.margin_min, 20);
    assert_eq!(plane.y.margin_max, 10);
    assert!(state.plane.is_some());
    // y-flip: data 0 on the bottom margin, data 10 on the top margin
    assert_eq!(plane.scale_to_cartesian_y(0), px(100));
    assert_eq!(plane.scale_to_cartesian_y(d(10)), px(10));
}

#[test]
fn layout_with_wide_margins_keeps_one_unit() {
    let c = Chart::<u8>::new().margin(Margin { top: 50, bottom: 50, left: 50, right: 50 });
    let mut state: State<u8> = State::new();
    let plane = c.layout(&mut state, 10, 10, 65535);
    assert_eq!(plane.x.span, 1);
    assert_eq!(plane.y.span, 1);
    assert_eq!(plane.y.margin_min, 65535);
}

#[test]
fn hovered_item_is_found_after_layout() {
    let c = Chart::<u8>::new()
        .x_range(iv(0, 3))
        .y_range(iv(0, 1))
        .push_series(Series::from(
            point_series::<u8>(data(&[(0, 0), (1, 1), (2, 1), (3, 0)])).with_id(4),
        ));
    let mut state: State<u8> = State::new();
    let plane = c.layout(&mut state, 220, 120, 10);
    let h = Handlers { press: false, release: false, moves: true, scroll: false };
    let bounds = Rect::new(0, 0, px(220), px(120));
    let at = Point::new(plane.scale_to_cartesian_x(d(1)), plane.scale_to_cartesian_y(d(1)));
    let r = state.on_event(Event::CursorMoved, Some(at), bounds, h);
    assert_eq!(r, Some(Interaction::Move));
    assert_eq!(state.items(), Some(vec![(4, 1)]));
    state.on_event(Event::CursorMoved, Some(Point::new(px(120), px(60))), bounds, h);
    assert_eq!(state.items(), Some(vec![]));
}

#[test]
fn events_before_layout_are_ignored() {
    let mut state: State<u8> = State::new();
    let h = Handlers { press: true, release: true, moves: true, scroll: true };
    let r = state.on_event(Event::FingerPressed, Some(Point::new(1, 1)), Rect::new(0, 0, 9, 9), h);
    assert_eq!(r, None);
    assert_eq!(state.get_cursor_position(), None);
    assert_eq!(state.get_coords(), None);
}

#[test]
fn events_follow_the_fixed_priority() {
    let c = Chart::<u8>::new();
    let mut state: State<u8> = State::new();
    c.layout(&mut state, 220, 120, 10);
    let all = Handlers { press: true, release: true, moves: true, scroll: true };
    let bounds = Rect::new(px(100), px(50), px(220), px(120));
    let at = Some(Point::new(px(110), px(60)));
    assert_eq!(state.on_event(Event::ButtonPressed(Button::Left), at, bounds, all), Some(Interaction::Press));
    assert_eq!(state.get_cursor_position(), Some(Point::new(px(10), px(10))));
    assert_eq!(state.on_event(Event::FingerPressed, at, bounds, all), Some(Interaction::Press));
    assert_eq!(state.on_event(Event::ButtonPressed(Button::Right), at, bounds, all), None);
    assert_eq!(state.on_event(Event::FingerLifted, at, bounds, all), Some(Interaction::Release));
    assert_eq!(state.on_event(Event::FingerMoved, at, bounds, all), Some(Interaction::Move));
    let delta = ScrollDelta::Lines { x: 0, y: -3 * PIXEL_ONE / 2 };
    assert_eq!(state.on_event(Event::WheelScrolled(delta), at, bounds, all), Some(Interaction::Scroll));
    assert_eq!(state.scroll_delta(), Some(delta));
    let none = Handlers { press: false, release: false, moves: false, scroll: false };
    assert_eq!(state.on_event(Event::ButtonPressed(Button::Left), at, bounds, none), None);
    assert_eq!(state.on_event(Event::Other, at, bounds, all), None);
}

#[test]
fn events_outside_bounds_are_ignored() {
    let c = Chart::<u8>::new();
    let mut state: State<u8> = State::new();
    c.layout(&mut state, 220, 120, 10);
    let all = Handlers { press: true, release: true, moves: true, scroll: true };
    let bounds = Rect::new(0, 0, px(220), px(120));
    assert_eq!(state.on_event(Event::CursorMoved, Some(Point::new(5, 5)), bounds, all), Some(Interaction::Move));
    assert_eq!(state.on_event(Event::CursorMoved, Some(Point::new(px(220), 5)), bounds, all), None);
    assert_eq!(state.on_event(Event::CursorMoved, None, bounds, all), None);
    assert_eq!(state.get_cursor_position(), Some(Point::new(5, 5)));
    assert_eq!(state.on_event(Event::CursorMoved, Some(Point::new(7, 6)), bounds, all), Some(Interaction::Move));
    assert_eq!(state.prev_position, Some(Point::new(5, 5)));
}

#[test]
fn cursor_coordinates_go_through_the_plane() {
    let c = Chart::<u8>::new();
    let mut state: State<u8> = State::new();
    c.layout(&mut state, 220, 120, 10);
    let all = Handlers { press: true, release: true, moves: true, scroll: true };
    state.on_event(Event::CursorMoved, Some(Point::new(px(210), px(10))), Rect::new(0, 0, px(220), px(120)), all);
    assert_eq!(state.get_coords(), Some(DataPoint::new(d(10), d(10))));
    assert_eq!(state.get_offset(), Some(DataPoint::new(d(5), d(5))));
}

#[test]
fn tick_values_split_the_range() {
    let c = Chart::<u8>::new().x_range(iv(-5, 17)).y_range(iv(0, 100));
    let mut state: State<u8> = State::new();
    let plane = c.layout(&mut state, 220, 120, 10);
    assert_eq!(
        ticks(&plane.x, 10, false),
        vec![-288359, -144180, 0, 144179, 288358, 432537, 576716, 720896, 865075, 1009254]
    );
    assert_eq!(ticks(&plane.y, 10, true), (1..=10).map(|k| d(10 * k)).collect::<Vec<_>>());
    assert_eq!(ticks(&plane.y, 0, false), vec![0, d(100)]);
}

#[test]
fn tick_step_is_length_over_amount() {
    let c = Chart::<u8>::new().x_range(iv(0, 10));
    let mut state: State<u8> = State::new();
    let plane = c.layout(&mut state, 220, 120, 10);
    // 10 / 3 apart, each rounded down to a data unit
    assert_eq!(ticks(&plane.x, 3, false), vec![0, 218453, 436906, d(10)]);
}

#[test]
fn line_path_drops_points_out_of_view() {
    let c = Chart::<u8>::new().x_range(iv(0, 10)).y_range(iv(0, 10));
    let mut state: State<u8> = State::new();
    let plane = c.layout(&mut state, 220, 120, 10);
    let l = line_series(data(&[(2, 2), (20, 8), (4, 2)]));
    assert_eq!(
        l.path(&plane),
        vec![
            Point::new(plane.scale_to_cartesian_x(d(2)), plane.scale_to_cartesian_y(d(2))),
            Point::new(plane.scale_to_cartesian_x(d(4)), plane.scale_to_cartesian_y(d(2))),
        ]
    );
    assert_eq!(l.path(&plane), vec![Point::new(px(50), px(82)), Point::new(px(90), px(82))]);
}

#[test]
fn nothing_is_drawn_on_an_empty_area() {
    let c = Chart::<u8>::new().push_series(line(&[(1, 1), (2, 2)]));
    let mut state: State<u8> = State::new();
    assert!(c.draw(&state, 100, 100).is_empty());
    c.layout(&mut state, 0, 0, 10);
    assert!(c.draw(&state, 0, 0).is_empty());
    assert!(c.draw(&state, 0, 100).is_empty());
    assert!(c.draw(&state, 100, 0).is_empty());
}

#[test]
fn draw_lists_axes_then_series() {
    let c = Chart::<u8>::new()
        .x_range(iv(0, 10))
        .y_range(iv(0, 10))
        .x_ticks(Ticks::default().amount(2))
        .y_ticks(Ticks::default().amount(2))
        .push_series(line(&[(1, 1), (2, 2)]))
        .push_series(points(&[(5, 5)]));
    let mut state: State<u8> = State::new();
    c.layout(&mut state, 220, 120, 10);
    let shapes = c.draw(&state, 220, 120);
    // x axis + 3 ticks with labels, y axis + 2 ticks with labels, polyline, circle
    assert_eq!(shapes.len(), 7 + 5 + 2);
    match &shapes[0] {
        Shape::Segment { from, to, .. } => {
            assert_eq!(*from, Point::new(px(10), px(100)));
            assert_eq!(*to, Point::new(px(210), px(100)));
        }
        other => panic!("unexpected {:?}", other),
    }
    match &shapes[2] {
        Shape::Label { value, at, anchor, .. } => {
            assert_eq!(*value, 0);
            assert_eq!(*at, Point::new(px(10), px(108)));
            assert_eq!(*anchor, Anchor::Below);
        }
        other => panic!("unexpected {:?}", other),
    }
    match &shapes[12] {
        Shape::Polyline { points, color, width } => {
            assert_eq!(points, &vec![Point::new(px(30), px(91)), Point::new(px(50), px(82))]);
            assert_eq!(*color, Color::black());
            assert_eq!(*width, 2);
        }
        other => panic!("unexpected {:?}", other),
    }
    match &shapes[13] {
        Shape::Circle(m) => {
            assert_eq!(m.center, Point::new(px(110), px(55)));
            assert_eq!(m.radius, 5);
        }
        other => panic!("unexpected {:?}", other),
    }
}

#[test]
fn point_styles_resolve_per_item() {
    let red = Color::from_rgba8(255, 0, 0, 255);
    let big = PointStyle { color: None, border_color: Some(red), border: 1, radius: 9 };
    let p: PointSeries<u8> = point_series(data(&[(0, 0), (5, 5)]))
        .color(red)
        .style_for_each(move |i, _| if i == 1 { big } else { PointStyle::default() });
    let c = Chart::<u8>::new();
    let mut state: State<u8> = State::new();
    let plane = c.layout(&mut state, 220, 120, 10);
    let marks = p.marks(&plane);
    assert_eq!(marks.len(), 2);
    assert_eq!(marks[0].radius, 5);
    assert_eq!(marks[0].fill, red);
    assert_eq!(marks[1].radius, 9);
    assert_eq!(marks[1].border, 1);
    assert_eq!(marks[1].center, Point::new(px(110), px(55)));
}

#[test]
fn collision_box_defaults_to_the_point_radius() {
    let p: Series<u8> = points(&[(1, 1)]);
    assert_eq!(p.collision_box(), Some(Rect::new(px(-5), px(-5), px(10), px(10))));
    let q: Series<u8> = Series::from(point_series::<u8>(vec![]).collision_box(Rect::new(-1, -2, 3, 4)));
    assert_eq!(q.collision_box(), Some(Rect::new(-1, -2, 3, 4)));
    assert_eq!(line(&[]).collision_box(), None);
    assert_eq!(line(&[]).id(), None);
}
