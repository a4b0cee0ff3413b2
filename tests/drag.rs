use pliced::drag::{Drag, Pan, Release};
use pliced::geometry::Point;

#[test]
fn press_and_release_in_place_is_a_click() {
    let mut d = Drag::default();
    d.press(Some(0), Point::new(10, 10));
    assert_eq!(d, Drag::PossibleClick { item: 0, origin: Point::new(10, 10) });
    assert_eq!(d.moved(Point::new(10, 10)), None);
    assert_eq!(d.release(Point::new(10, 10)), Release::Click(0));
    assert_eq!(d, Drag::Idle);
}

#[test]
fn press_move_release_is_a_drag() {
    let mut d = Drag::default();
    d.press(Some(0), Point::new(10, 10));
    assert_eq!(d.moved(Point::new(15, 12)), Some(Pan { item: 0, dx: 5, dy: 2 }));
    assert_eq!(d, Drag::Dragging { item: 0, last: Point::new(15, 12) });
    assert_eq!(d.release(Point::new(15, 12)), Release::DragEnd(Pan { item: 0, dx: 0, dy: 0 }));
    assert_eq!(d, Drag::Idle);
}

#[test]
fn drag_reports_each_step() {
    let mut d = Drag::default();
    d.press(Some(3), Point::new(0, 0));
    assert_eq!(d.moved(Point::new(2, 0)), Some(Pan { item: 3, dx: 2, dy: 0 }));
    assert_eq!(d.moved(Point::new(2, -4)), Some(Pan { item: 3, dx: 0, dy: -4 }));
    assert_eq!(d.release(Point::new(1, -4)), Release::DragEnd(Pan { item: 3, dx: -1, dy: 0 }));
}

#[test]
fn press_without_item_or_while_busy_changes_nothing() {
    let mut d = Drag::default();
    d.press(None, Point::new(1, 1));
    assert_eq!(d, Drag::Idle);
    assert_eq!(d.moved(Point::new(5, 5)), None);
    assert_eq!(d.release(Point::new(5, 5)), Release::Ignored);
    d.press(Some(1), Point::new(1, 1));
    d.press(Some(2), Point::new(9, 9));
    assert_eq!(d, Drag::PossibleClick { item: 1, origin: Point::new(1, 1) });
}
