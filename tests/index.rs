use pliced::geometry::{Point, Rect};
use pliced::items::Items;

fn points(list: &[(i32, i32)]) -> Vec<Point> {
    list.iter().map(|&(x, y)| Point::new(x, y)).collect()
}

#[test]
fn hit_test_single_and_all() {
    let mut items: Items<u8> = Items::new();
    items.add_series(7, &points(&[(10, 100), (76, 10), (143, 10), (210, 100)]));
    assert_eq!(items.collision(Rect::new(71, 5, 10, 10)), vec![(7, 1)]);
    assert_eq!(
        items.collision(Rect::new(0, 0, 300, 200)),
        vec![(7, 0), (7, 1), (7, 2), (7, 3)]
    );
}

#[test]
fn hit_test_orders_by_column_then_row() {
    let mut items: Items<u8> = Items::new();
    items.add_series(1, &points(&[(5, 9), (3, 4), (5, 2), (3, 1)]));
    assert_eq!(
        items.collision(Rect::new(0, 0, 10, 10)),
        vec![(1, 3), (1, 1), (1, 2), (1, 0)]
    );
}

#[test]
fn hit_test_edges_are_half_open() {
    let mut items: Items<u8> = Items::new();
    items.add_series(1, &points(&[(10, 10)]));
    assert_eq!(items.collision(Rect::new(10, 10, 1, 1)), vec![(1, 0)]);
    assert!(items.collision(Rect::new(0, 0, 10, 20)).is_empty());
    assert!(items.collision(Rect::new(0, 0, 20, 10)).is_empty());
    assert!(items.collision(Rect::new(10, 10, 0, 5)).is_empty());
}

#[test]
fn first_item_at_a_position_wins() {
    let mut items: Items<u8> = Items::new();
    items.add_series(1, &points(&[(4, 4), (4, 4)]));
    items.add_series(2, &points(&[(4, 4), (4, 5)]));
    assert_eq!(items.len(), 2);
    assert_eq!(items.collision(Rect::new(4, 4, 1, 1)), vec![(1, 0)]);
    assert_eq!(items.collision(Rect::new(4, 5, 1, 1)), vec![(2, 1)]);
}

#[test]
fn empty_index_finds_nothing() {
    let items: Items<u8> = Items::new();
    assert!(items.collision(Rect::new(i32::MIN, i32::MIN, i32::MAX, i32::MAX)).is_empty());
}
