use vstd::prelude::*;

verus! {

/// Pixel coordinates are fixed-point numbers: `PIXEL_ONE` units make one pixel.
pub const PIXEL_ONE: i32 = 256;

/// Data values are fixed-point numbers: `DATA_ONE` units make one.
pub const DATA_ONE: i64 = 65536;

/// A pixel position, in units of `1 / PIXEL_ONE` pixel.
#[derive(Clone, Copy, Debug, PartialEq, Eq, Structural)]
pub struct Point {
    pub x: i32,
    pub y: i32,
}

impl Point {
    pub fn new(x: i32, y: i32) -> (r: Point)
        ensures
            r.x == x,
            r.y == y,
    {
        Point { x, y }
    }
}

/// A position in data space, in units of `1 / DATA_ONE`.
#[derive(Clone, Copy, Debug, PartialEq, Eq, Structural)]
pub struct DataPoint {
    pub x: i64,
    pub y: i64,
}

impl DataPoint {
    pub fn new(x: i64, y: i64) -> (r: DataPoint)
        ensures
            r.x == x,
            r.y == y,
    {
        DataPoint { x, y }
    }
}

/// An inclusive interval `start..=end` of data values.
#[derive(Clone, Copy, Debug, PartialEq, Eq, Structural)]
pub struct Interval {
    pub start: i64,
    pub end: i64,
}

impl Interval {
    pub fn new(start: i64, end: i64) -> (r: Interval)
        ensures
            r.start == start,
            r.end == end,
    {
        Interval { start, end }
    }
}

/// An axis-aligned pixel rectangle (in pixel units) covering `x..x + width` and `y..y + height`.
#[derive(Clone, Copy, Debug, PartialEq, Eq, Structural)]
pub struct Rect {
    pub x: i32,
    pub y: i32,
    pub width: i32,
    pub height: i32,
}

impl Rect {
    pub fn new(x: i32, y: i32, width: i32, height: i32) -> (r: Rect)
        ensures
            r == (Rect { x, y, width, height }),
    {
        Rect { x, y, width, height }
    }

    /// Whether the rectangle covers the position (left and top edges included,
    /// right and bottom edges excluded).
    pub open spec fn covers(self, px: int, py: int) -> bool {
        self.x <= px < self.x + self.width && self.y <= py < self.y + self.height
    }

    pub fn contains(&self, p: Point) -> (r: bool)
        ensures
            r == self.covers(p.x as int, p.y as int),
    {
        let px = p.x as i64;
        let py = p.y as i64;
        self.x as i64 <= px && px < self.x as i64 + self.width as i64 && self.y as i64 <= py
            && py < self.y as i64 + self.height as i64
    }
}

} // verus!

verus! {

/// The smallest interval covering both arguments; `None` stands for the
/// empty interval.
pub open spec fn hull(a: Option<Interval>, b: Option<Interval>) -> Option<Interval> {
    match (a, b) {
        (None, _) => b,
        (_, None) => a,
        (Some(p), Some(q)) => Some(
            Interval {
                start: if p.start <= q.start { p.start } else { q.start },
                end: if p.end >= q.end { p.end } else { q.end },
            },
        ),
    }
}

pub fn hull_of(a: Option<Interval>, b: Option<Interval>) -> (r: Option<Interval>)
    ensures
        r == hull(a, b),
{
    match (a, b) {
        (None, _) => b,
        (_, None) => a,
        (Some(p), Some(q)) => Some(
            Interval {
                start: if p.start <= q.start { p.start } else { q.start },
                end: if p.end >= q.end { p.end } else { q.end },
            },
        ),
    }
}

pub proof fn lemma_hull_commutes(a: Option<Interval>, b: Option<Interval>)
    ensures
        hull(a, b) == hull(b, a),
{
}

pub proof fn lemma_hull_associates(a: Option<Interval>, b: Option<Interval>, c: Option<Interval>)
    ensures
        hull(hull(a, b), c) == hull(a, hull(b, c)),
{
}

} // verus!
