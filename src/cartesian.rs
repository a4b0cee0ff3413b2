use vstd::prelude::*;

use crate::geometry::{DataPoint, Interval, Point};
use crate::num::{
    ceil_div, div_ceil, div_floor, floor_div, max_int, saturate, saturate64, saturate_i32,
    saturate_i64,
};

verus! {

/// The mapping of one dimension between data values and pixels.
///
/// `length` is the data length of the range in data units and `span` the
/// room between the two margins in pixel units; both are at least one, so
/// the mapping never divides by zero. Margins are whole pixels. Data to
/// pixel rounds down to a pixel unit, pixel to data rounds up to a data unit.
#[derive(Clone, Copy, Debug)]
pub struct Axis {
    pub length: i128,
    pub span: i64,
    pub margin_min: u16,
    pub margin_max: u16,
    pub min: i64,
    pub max: i64,
}

/// Pixel units of a whole number of pixels.
pub open spec fn units(pixels: int) -> int {
    pixels * 256
}

impl Axis {
    pub open spec fn wf(self) -> bool {
        &&& self.length == max_int(self.max - self.min, 1)
        &&& 1 <= self.span <= units(u16::MAX as int)
    }

    /// The range has a positive length, so no clamping took place.
    pub open spec fn is_proper(self) -> bool {
        self.max - self.min >= 1
    }

    pub open spec fn new_spec(range: Interval, margin_min: u16, margin_max: u16, width: u16) -> Axis {
        Axis {
            length: max_int(range.end - range.start, 1) as i128,
            span: max_int(units(width - margin_min - margin_max), 1) as i64,
            margin_min,
            margin_max,
            min: range.start,
            max: range.end,
        }
    }

    /// Builds the mapping of `range` onto `width` pixels, of which
    /// `margin_min` and `margin_max` are kept free at the two ends.
    /// A range of zero or negative length is taken to have length one unit,
    /// and a width that leaves no room between the margins gives one unit.
    pub fn new(range: &Interval, margin_min: u16, margin_max: u16, width: u16) -> (r: Axis)
        ensures
            r.wf(),
            r == Axis::new_spec(*range, margin_min, margin_max, width),
    {
        let raw_length: i128 = range.end as i128 - range.start as i128;
        let length: i128 = if raw_length < 1 { 1 } else { raw_length };
        let raw_span: i64 = (width as i64 - margin(margin_min, margin_max)) * 256;
        let span: i64 = if raw_span < 1 { 1 } else { raw_span };
        Axis { length, span, margin_min, margin_max, min: range.start, max: range.end }
    }
}

fn margin(min: u16, max: u16) -> (r: i64)
    ensures
        r == min + max,
{
    min as i64 + max as i64
}

/// The two axes of a chart: data space on one side, pixels on the other.
/// Pixel `y` grows downwards, data `y` upwards.
#[derive(Clone, Copy, Debug)]
pub struct Plane {
    pub x: Axis,
    pub y: Axis,
}

impl Plane {
    pub open spec fn wf(self) -> bool {
        self.x.wf() && self.y.wf()
    }

    /// Pixel column of the data value `v`.
    pub open spec fn x_pixel(self, v: int) -> int {
        saturate(
            units(self.x.margin_min as int) + floor_div((v - self.x.min) * self.x.span, self.x.length as int),
        )
    }

    /// Pixel row of the data value `v`: the maximum sits on the top margin.
    pub open spec fn y_pixel(self, v: int) -> int {
        saturate(
            units(self.y.margin_max as int) + floor_div((self.y.max - v) * self.y.span, self.y.length as int),
        )
    }

    /// Data value at pixel column `p`.
    pub open spec fn x_data(self, p: int) -> int {
        saturate64(
            self.x.min + ceil_div((p - units(self.x.margin_min as int)) * self.x.length, self.x.span as int),
        )
    }

    /// Data value at pixel row `p`.
    pub open spec fn y_data(self, p: int) -> int {
        saturate64(
            self.y.max - ceil_div((p - units(self.y.margin_max as int)) * self.y.length, self.y.span as int),
        )
    }

    pub open spec fn pixel_of(self, d: DataPoint) -> Point {
        Point { x: self.x_pixel(d.x as int) as i32, y: self.y_pixel(d.y as int) as i32 }
    }

    pub open spec fn data_of(self, p: Point) -> DataPoint {
        DataPoint { x: self.x_data(p.x as int) as i64, y: self.y_data(p.y as int) as i64 }
    }

    /// The data midpoint of each axis, rounded down to a data unit.
    pub open spec fn center(self) -> (int, int) {
        (floor_div(self.x.min + self.x.max, 2), floor_div(self.y.min + self.y.max, 2))
    }

    pub open spec fn offset_of(self, p: Point) -> DataPoint {
        DataPoint {
            x: saturate64(self.x_data(p.x as int) - self.center().0) as i64,
            y: saturate64(self.y_data(p.y as int) - self.center().1) as i64,
        }
    }

    pub fn bottom_center(&self) -> (r: DataPoint)
        ensures
            r == (DataPoint { x: 0, y: self.y.min }),
    {
        DataPoint { x: 0, y: self.y.min }
    }

    pub fn top_center(&self) -> (r: DataPoint)
        ensures
            r == (DataPoint { x: 0, y: self.y.max }),
    {
        DataPoint { x: 0, y: self.y.max }
    }

    pub fn bottom_left(&self) -> (r: DataPoint)
        ensures
            r == (DataPoint { x: self.x.min, y: 0 }),
    {
        DataPoint { x: self.x.min, y: 0 }
    }

    pub fn bottom_right(&self) -> (r: DataPoint)
        ensures
            r == (DataPoint { x: self.x.max, y: 0 }),
    {
        DataPoint { x: self.x.max, y: 0 }
    }

    pub fn scale_to_cartesian_x(&self, value: i64) -> (r: i32)
        requires
            self.wf(),
        ensures
            r == self.x_pixel(value as int),
    {
        let d: i128 = value as i128 - self.x.min as i128;
        let s: i128 = self.x.span as i128;
        proof {
            assert(-0x2_0000_0000_0000_0000 <= d <= 0x2_0000_0000_0000_0000);
            assert(-0x10_0000_0000_0000_0000_0000_0000 <= d * s <= 0x10_0000_0000_0000_0000_0000_0000)
                by (nonlinear_arith)
                requires
                    -0x2_0000_0000_0000_0000 <= d <= 0x2_0000_0000_0000_0000,
                    1 <= s <= 0x100_0000,
            ;
        }
        let q = div_floor(d * s, self.x.length);
        saturate_i32(self.x.margin_min as i128 * 256 + q)
    }

    pub fn scale_to_cartesian_y(&self, value: i64) -> (r: i32)
        requires
            self.wf(),
        ensures
            r == self.y_pixel(value as int),
    {
        let d: i128 = self.y.max as i128 - value as i128;
        let s: i128 = self.y.span as i128;
        proof {
            assert(-0x2_0000_0000_0000_0000 <= d <= 0x2_0000_0000_0000_0000);
            assert(-0x10_0000_0000_0000_0000_0000_0000 <= d * s <= 0x10_0000_0000_0000_0000_0000_0000)
                by (nonlinear_arith)
                requires
                    -0x2_0000_0000_0000_0000 <= d <= 0x2_0000_0000_0000_0000,
                    1 <= s <= 0x100_0000,
            ;
        }
        let q = div_floor(d * s, self.y.length);
        saturate_i32(self.y.margin_max as i128 * 256 + q)
    }

    fn data_x(&self, p: i32) -> (r: i64)
        requires
            self.wf(),
        ensures
            r == self.x_data(p as int),
    {
        let d: i128 = p as i128 - self.x.margin_min as i128 * 256;
        let l: i128 = self.x.length;
        proof {
            assert(-0x2_0000_0000 <= d <= 0x2_0000_0000);
            assert(1 <= l <= 0x2_0000_0000_0000_0000);
            assert(-0x10_0000_0000_0000_0000_0000_0000 <= d * l <= 0x10_0000_0000_0000_0000_0000_0000)
                by (nonlinear_arith)
                requires
                    -0x2_0000_0000 <= d <= 0x2_0000_0000,
                    1 <= l <= 0x2_0000_0000_0000_0000,
            ;
        }
        let q = div_ceil(d * l, self.x.span as i128);
        saturate_i64(self.x.min as i128 + q)
    }

    fn data_y(&self, p: i32) -> (r: i64)
        requires
            self.wf(),
        ensures
            r == self.y_data(p as int),
    {
        let d: i128 = p as i128 - self.y.margin_max as i128 * 256;
        let l: i128 = self.y.length;
        proof {
            assert(-0x2_0000_0000 <= d <= 0x2_0000_0000);
            assert(1 <= l <= 0x2_0000_0000_0000_0000);
            assert(-0x10_0000_0000_0000_0000_0000_0000 <= d * l <= 0x10_0000_0000_0000_0000_0000_0000)
                by (nonlinear_arith)
                requires
                    -0x2_0000_0000 <= d <= 0x2_0000_0000,
                    1 <= l <= 0x2_0000_0000_0000_0000,
            ;
        }
        let q = div_ceil(d * l, self.y.span as i128);
        saturate_i64(self.y.max as i128 - q)
    }

    /// Data coordinates of the pixel position `pos`.
    pub fn get_cartesian(&self, pos: Point) -> (r: DataPoint)
        requires
            self.wf(),
        ensures
            r == self.data_of(pos),
    {
        DataPoint { x: self.data_x(pos.x), y: self.data_y(pos.y) }
    }

    /// Data coordinates of `pos` relative to the middle of the visible ranges.
    pub fn get_offset(&self, pos: Point) -> (r: DataPoint)
        requires
            self.wf(),
        ensures
            r == self.offset_of(pos),
    {
        let p = self.get_cartesian(pos);
        let cx = div_floor(self.x.min as i128 + self.x.max as i128, 2);
        let cy = div_floor(self.y.min as i128 + self.y.max as i128, 2);
        DataPoint { x: saturate_i64(p.x as i128 - cx), y: saturate_i64(p.y as i128 - cy) }
    }
}

proof fn lemma_axis_round_trip(q: int, len: int, span: int) -> (a: int)
    requires
        len >= 1,
        span >= 1,
        0 <= q <= span,
    ensures
        a == ceil_div(q * len, span),
        0 <= a <= len,
        q <= floor_div(a * span, len),
        (floor_div(a * span, len) - q) * len < span,
{
    let a = ceil_div(q * len, span);
    crate::num::lemma_ceil_div_bounds(q * len, span);
    assert(0 <= a <= len) by (nonlinear_arith)
        requires
            q * len <= a * span < q * len + span,
            0 <= q <= span,
            len >= 1,
            span >= 1,
    ;
    let f = floor_div(a * span, len);
    crate::num::lemma_floor_div_bounds(a * span, len);
    assert(q <= f && (f - q) * len < span) by (nonlinear_arith)
        requires
            f * len <= a * span < f * len + len,
            q * len <= a * span < q * len + span,
            len >= 1,
            span >= 1,
    ;
    a
}

proof fn lemma_axis_data_round_trip(e: int, len: int, span: int) -> (b: int)
    requires
        len >= 1,
        span >= 1,
        0 <= e <= len,
    ensures
        b == floor_div(e * span, len),
        0 <= b <= span,
        0 <= ceil_div(b * len, span) <= e,
        (e - ceil_div(b * len, span)) * span < len,
{
    let b = floor_div(e * span, len);
    crate::num::lemma_floor_div_bounds(e * span, len);
    assert(0 <= b <= span) by (nonlinear_arith)
        requires
            b * len <= e * span < b * len + len,
            0 <= e <= len,
            len >= 1,
            span >= 1,
    ;
    let c = ceil_div(b * len, span);
    crate::num::lemma_ceil_div_bounds(b * len, span);
    assert(0 <= c <= e && (e - c) * span < len) by (nonlinear_arith)
        requires
            0 <= b,
            b * len <= e * span < b * len + len,
            b * len <= c * span < b * len + span,
            len >= 1,
            span >= 1,
    ;
    b
}

proof fn lemma_small_excess(k: int, len: int, span: int)
    requires
        k >= 0,
        len >= 1,
        span >= 1,
        k * len < span,
    ensures
        k < span,
        len >= span ==> k == 0,
{
    assert(k < span && (len >= span ==> k == 0)) by (nonlinear_arith)
        requires
            k >= 0,
            len >= 1,
            span >= 1,
            k * len < span,
    ;
}

/// Round trip through data space: a pixel position inside the drawable area,
/// turned into data coordinates and back, lands on the same pixel position or
/// less than one data unit's width further along each axis; when an axis
/// has at least as many data units as pixel units, the round trip is exact.
pub proof fn lemma_round_trip(plane: Plane, p: Point)
    requires
        plane.wf(),
        plane.x.is_proper(),
        plane.y.is_proper(),
        units(plane.x.margin_min as int) <= p.x <= units(plane.x.margin_min as int) + plane.x.span,
        units(plane.y.margin_max as int) <= p.y <= units(plane.y.margin_max as int) + plane.y.span,
    ensures
        ({
            let r = plane.pixel_of(plane.data_of(p));
            &&& p.x <= r.x
            &&& (r.x - p.x) * plane.x.length < plane.x.span
            &&& p.y <= r.y
            &&& (r.y - p.y) * plane.y.length < plane.y.span
            &&& plane.x.length >= plane.x.span ==> r.x == p.x
            &&& plane.y.length >= plane.y.span ==> r.y == p.y
        }),
{
    let lx = plane.x.length as int;
    let sx = plane.x.span as int;
    let ly = plane.y.length as int;
    let sy = plane.y.span as int;
    let qx = p.x - units(plane.x.margin_min as int);
    let ax = lemma_axis_round_trip(qx, lx, sx);
    let qy = p.y - units(plane.y.margin_max as int);
    let ay = lemma_axis_round_trip(qy, ly, sy);
    let fx = floor_div(ax * sx, lx);
    let fy = floor_div(ay * sy, ly);
    assert(plane.x_data(p.x as int) == plane.x.min + ax);
    assert(plane.y_data(p.y as int) == plane.y.max - ay);
    let d = plane.data_of(p);
    assert(d.x - plane.x.min == ax);
    assert(plane.y.max - d.y == ay);
    lemma_small_excess(fx - qx, lx, sx);
    lemma_small_excess(fy - qy, ly, sy);
    assert(plane.x_pixel(d.x as int) == p.x + (fx - qx));
    assert(plane.y_pixel(d.y as int) == p.y + (fy - qy));
}

/// Round trip through pixel space: a data point inside the visible ranges,
/// turned into pixels and back, lands on the same data point or less than
/// one pixel unit's worth of data away (towards the bottom left); when an
/// axis has at least as many pixel units as data units, it is exact.
pub proof fn lemma_data_round_trip(plane: Plane, d: DataPoint)
    requires
        plane.wf(),
        plane.x.is_proper(),
        plane.y.is_proper(),
        plane.x.min <= d.x <= plane.x.max,
        plane.y.min <= d.y <= plane.y.max,
    ensures
        ({
            let g = plane.data_of(plane.pixel_of(d));
            &&& g.x <= d.x
            &&& (d.x - g.x) * plane.x.span < plane.x.length
            &&& d.y <= g.y
            &&& (g.y - d.y) * plane.y.span < plane.y.length
            &&& plane.x.span >= plane.x.length ==> g.x == d.x
            &&& plane.y.span >= plane.y.length ==> g.y == d.y
        }),
{
    let lx = plane.x.length as int;
    let sx = plane.x.span as int;
    let ly = plane.y.length as int;
    let sy = plane.y.span as int;
    let bx = lemma_axis_data_round_trip(d.x - plane.x.min, lx, sx);
    let by = lemma_axis_data_round_trip(plane.y.max - d.y, ly, sy);
    let p = plane.pixel_of(d);
    assert(p.x - units(plane.x.margin_min as int) == bx);
    assert(p.y - units(plane.y.margin_max as int) == by);
    let cx = ceil_div(bx * lx, sx);
    let cy = ceil_div(by * ly, sy);
    assert(plane.x_data(p.x as int) == plane.x.min + cx);
    assert(plane.y_data(p.y as int) == plane.y.max - cy);
    lemma_small_excess(d.x - plane.x.min - cx, sx, lx);
    lemma_small_excess(plane.y.max - d.y - cy, sy, ly);
}

proof fn lemma_axis_monotone(e1: int, e2: int, len: int, span: int)
    requires
        len >= 1,
        span >= 1,
        0 <= e1 <= e2 <= len,
    ensures
        0 <= floor_div(e1 * span, len) <= floor_div(e2 * span, len) <= span,
        (e2 - e1) * span >= len ==> floor_div(e1 * span, len) < floor_div(e2 * span, len),
{
    let f1 = floor_div(e1 * span, len);
    let f2 = floor_div(e2 * span, len);
    crate::num::lemma_floor_div_bounds(e1 * span, len);
    crate::num::lemma_floor_div_bounds(e2 * span, len);
    assert(0 <= f1 <= f2 <= span && ((e2 - e1) * span >= len ==> f1 < f2)) by (nonlinear_arith)
        requires
            f1 * len <= e1 * span < f1 * len + len,
            f2 * len <= e2 * span < f2 * len + len,
            0 <= e1 <= e2 <= len,
            len >= 1,
            span >= 1,
    ;
}

/// Within the visible range, a larger data value never lies left of a
/// smaller one, and lies strictly right of it once the two are at least one
/// pixel unit's worth of data apart.
pub proof fn lemma_x_increasing(plane: Plane, lo: int, hi: int)
    requires
        plane.wf(),
        plane.x.is_proper(),
        plane.x.min <= lo <= hi <= plane.x.max,
    ensures
        plane.x_pixel(lo) <= plane.x_pixel(hi),
        (hi - lo) * plane.x.span >= plane.x.length ==> plane.x_pixel(lo) < plane.x_pixel(hi),
{
    lemma_axis_monotone(lo - plane.x.min, hi - plane.x.min, plane.x.length as int, plane.x.span as int);
}

/// Screen-space inversion of the vertical axis: the top of the data range
/// sits on the top margin, the bottom of the range on the bottom margin, a
/// larger data value never lies lower on screen than a smaller one, and lies
/// strictly higher once the two are one pixel unit's worth of data apart.
pub proof fn lemma_y_points_down(plane: Plane, lo: int, hi: int)
    requires
        plane.wf(),
        plane.y.is_proper(),
        plane.y.min <= lo <= hi <= plane.y.max,
    ensures
        plane.y_pixel(plane.y.max as int) == units(plane.y.margin_max as int),
        plane.y_pixel(plane.y.min as int) == units(plane.y.margin_max as int) + plane.y.span,
        plane.y_pixel(hi) <= plane.y_pixel(lo),
        (hi - lo) * plane.y.span >= plane.y.length ==> plane.y_pixel(hi) < plane.y_pixel(lo),
{
    let len = plane.y.length as int;
    let span = plane.y.span as int;
    assert(floor_div(0 * span, len) == 0);
    assert((plane.y.max - plane.y.min) * span == span * len) by (nonlinear_arith)
        requires
            len == plane.y.max - plane.y.min,
    ;
    vstd::arithmetic::div_mod::lemma_div_multiples_vanish(span, len);
    lemma_axis_monotone(plane.y.max - hi, plane.y.max - lo, len, span);
}

} // verus!
