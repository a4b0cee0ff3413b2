use vstd::prelude::*;

use crate::cartesian::Plane;
use crate::chart::{ticks, tick_values, Chart, Labels, Ticks};
use crate::geometry::{DataPoint, Point, PIXEL_ONE};
use crate::num::{saturate, saturate_i32};
use crate::series::{mark_of, visible_path, Color, Mark, Series};
use crate::state::State;

verus! {

/// Where a label sits relative to its anchor point.
#[derive(Clone, Copy, Debug, PartialEq, Eq, Structural)]
pub enum Anchor {
    /// Centered horizontally, hanging below the point.
    Below,
    /// Centered vertically, ending at the point.
    Left,
}

/// One drawing primitive of a chart, in pixels relative to the widget.
#[derive(Debug)]
pub enum Shape {
    /// A connected stroke through the points.
    Polyline { points: Vec<Point>, color: Color, width: u16 },
    /// A filled and outlined circle.
    Circle(Mark),
    /// A straight stroke.
    Segment { from: Point, to: Point, color: Color, width: u16 },
    /// The label of a tick at data value `value`.
    Label { value: i64, at: Point, text_color: Option<Color>, size: Option<u16>, anchor: Anchor },
}

/// The mathematical value of a `Shape`.
pub enum ShapeView {
    Polyline(Seq<Point>, Color, u16),
    Circle(Mark),
    Segment(Point, Point, Color, u16),
    Label(i64, Point, Option<Color>, Option<u16>, Anchor),
}

impl View for Shape {
    type V = ShapeView;

    open spec fn view(&self) -> ShapeView {
        match self {
            Shape::Polyline { points, color, width } => ShapeView::Polyline(points@, *color, *width),
            Shape::Circle(m) => ShapeView::Circle(*m),
            Shape::Segment { from, to, color, width } => ShapeView::Segment(*from, *to, *color, *width),
            Shape::Label { value, at, text_color, size, anchor } => ShapeView::Label(
                *value,
                *at,
                *text_color,
                *size,
                *anchor,
            ),
        }
    }
}

pub open spec fn views(s: Seq<Shape>) -> Seq<ShapeView> {
    s.map_values(|x: Shape| x@)
}

/// Stroke width of a line series.
pub const LINE_WIDTH: u16 = 2;

/// Distance between a tick and its label: eight pixels.
pub const LABEL_GAP: i32 = 8 * PIXEL_ONE;

/// The shapes of one series: one polyline for a line series, one circle per
/// point for a point series.
pub open spec fn series_shapes<S>(plane: Plane, s: Series<S>) -> Seq<ShapeView> {
    match s {
        Series::Line(l) => seq![ShapeView::Polyline(visible_path(plane, l.data@), l.color, 2)],
        Series::Point(p) => Seq::new(
            p.data@.len(),
            |i: int| ShapeView::Circle(mark_of(plane, p.data@[i], p.style_at(i), p.color)),
        ),
    }
}

/// The shapes of all series, in the order they were pushed.
pub open spec fn data_shapes<S>(plane: Plane, ss: Seq<Series<S>>) -> Seq<ShapeView>
    decreases ss.len(),
{
    if ss.len() == 0 {
        Seq::empty()
    } else {
        data_shapes(plane, ss.drop_last()) + series_shapes(plane, ss.last())
    }
}

/// A tick mark across the x axis, `height` pixels long, and its label eight
/// pixels below, for each value.
pub open spec fn x_tick_shapes(plane: Plane, t: Ticks, l: Labels, vals: Seq<int>) -> Seq<ShapeView>
    decreases vals.len(),
{
    if vals.len() == 0 {
        Seq::empty()
    } else {
        let v = vals.last();
        let px = plane.x_pixel(v) as i32;
        let py = plane.y_pixel(0);
        let half = t.height * 128;
        x_tick_shapes(plane, t, l, vals.drop_last()) + seq![
            ShapeView::Segment(
                Point { x: px, y: saturate(py - half) as i32 },
                Point { x: px, y: saturate(py + half) as i32 },
                t.color,
                t.width,
            ),
            ShapeView::Label(v as i64, Point { x: px, y: saturate(py + 2048) as i32 }, l.color, l.font_size, Anchor::Below),
        ]
    }
}

/// A tick mark across the y axis, `height` pixels long, and its label eight
/// pixels to the left, for each value.
pub open spec fn y_tick_shapes(plane: Plane, t: Ticks, l: Labels, vals: Seq<int>) -> Seq<ShapeView>
    decreases vals.len(),
{
    if vals.len() == 0 {
        Seq::empty()
    } else {
        let v = vals.last();
        let px = plane.x_pixel(0);
        let py = plane.y_pixel(v) as i32;
        let half = t.height * 128;
        y_tick_shapes(plane, t, l, vals.drop_last()) + seq![
            ShapeView::Segment(
                Point { x: saturate(px - half) as i32, y: py },
                Point { x: saturate(px + half) as i32, y: py },
                t.color,
                t.width,
            ),
            ShapeView::Label(v as i64, Point { x: saturate(px - 2048) as i32, y: py }, l.color, l.font_size, Anchor::Left),
        ]
    }
}

impl<S: Copy> Chart<S> {
    /// The x axis along data `y = 0` with its ticks and labels.
    pub open spec fn x_axis_shapes(self, plane: Plane) -> Seq<ShapeView> {
        seq![
            ShapeView::Segment(
                plane.pixel_of(DataPoint { x: plane.x.min, y: 0 }),
                plane.pixel_of(DataPoint { x: plane.x.max, y: 0 }),
                self.x_axis.color,
                self.x_axis.width,
            ),
        ] + x_tick_shapes(plane, self.x_ticks, self.x_labels, tick_values(plane.x, self.x_ticks.amount, false))
    }

    /// The y axis along data `x = 0` with its ticks and labels; the tick at
    /// zero is left to the x axis.
    pub open spec fn y_axis_shapes(self, plane: Plane) -> Seq<ShapeView> {
        seq![
            ShapeView::Segment(
                plane.pixel_of(DataPoint { x: 0, y: plane.y.min }),
                plane.pixel_of(DataPoint { x: 0, y: plane.y.max }),
                self.y_axis.color,
                self.y_axis.width,
            ),
        ] + y_tick_shapes(plane, self.y_ticks, self.y_labels, tick_values(plane.y, self.y_ticks.amount, true))
    }

    /// Everything a chart draws on `plane`: the x axis, the y axis, then the
    /// series in push order, later ones over earlier ones.
    pub open spec fn scene(self, plane: Plane) -> Seq<ShapeView> {
        self.x_axis_shapes(plane) + self.y_axis_shapes(plane) + data_shapes(plane, self.series@)
    }
}

proof fn lemma_views_push(s: Seq<Shape>, x: Shape)
    ensures
        views(s.push(x)) == views(s).push(x@),
{
    assert(views(s.push(x)) =~= views(s).push(x@));
}

fn push_shape(out: &mut Vec<Shape>, x: Shape)
    ensures
        views(final(out)@) == views(old(out)@).push(x@),
{
    proof {
        lemma_views_push(old(out)@, x);
    }
    out.push(x);
}

fn push_series_shapes<S: Copy>(out: &mut Vec<Shape>, plane: &Plane, s: &Series<S>)
    requires
        plane.wf(),
    ensures
        views(final(out)@) == views(old(out)@) + series_shapes(*plane, *s),
{
    match s {
        Series::Line(l) => {
            let points = l.path(plane);
            let ghost before = views(out@);
            push_shape(out, Shape::Polyline { points, color: l.color, width: LINE_WIDTH });
            assert(views(out@) =~= before + series_shapes(*plane, *s));
        },
        Series::Point(p) => {
            let marks = p.marks(plane);
            let ghost start = views(out@);
            let ghost all = series_shapes(*plane, *s);
            let mut i: usize = 0;
            while i < marks.len()
                invariant
                    marks@.len() == p.data@.len(),
                    all.len() == p.data@.len(),
                    all == series_shapes(*plane, *s),
                    *s == Series::Point(*p),
                    forall|k: int|
                        0 <= k < marks@.len() ==> #[trigger] marks@[k] == mark_of(
                            *plane,
                            p.data@[k],
                            p.style_at(k),
                            p.color,
                        ),
                    i <= marks@.len(),
                    views(out@) == start + all.subrange(0, i as int),
                decreases marks@.len() - i,
            {
                let ghost before = views(out@);
                push_shape(out, Shape::Circle(marks[i]));
                assert(all[i as int] == ShapeView::Circle(marks@[i as int]));
                assert(views(out@) =~= start + all.subrange(0, i + 1));
                i += 1;
            }
            assert(all.subrange(0, all.len() as int) =~= all);
        },
    }
}

fn push_x_ticks(out: &mut Vec<Shape>, plane: &Plane, t: &Ticks, l: &Labels, vals: &Vec<i64>)
    requires
        plane.wf(),
    ensures
        views(final(out)@) == views(old(out)@) + x_tick_shapes(
            *plane,
            *t,
            *l,
            vals@.map_values(|v: i64| v as int),
        ),
{
    let ghost start = views(out@);
    let ghost all = vals@.map_values(|v: i64| v as int);
    let py = plane.scale_to_cartesian_y(0);
    let half: i128 = t.height as i128 * 128;
    let mut i: usize = 0;
    while i < vals.len()
        invariant
            plane.wf(),
            py == plane.y_pixel(0),
            half == t.height * 128,
            all == vals@.map_values(|v: i64| v as int),
            i <= vals@.len(),
            views(out@) == start + x_tick_shapes(*plane, *t, *l, all.subrange(0, i as int)),
        decreases vals@.len() - i,
    {
        let v = vals[i];
        let px = plane.scale_to_cartesian_x(v);
        let seg = Shape::Segment {
            from: Point { x: px, y: saturate_i32(py as i128 - half) },
            to: Point { x: px, y: saturate_i32(py as i128 + half) },
            color: t.color,
            width: t.width,
        };
        let label = Shape::Label {
            value: v,
            at: Point { x: px, y: saturate_i32(py as i128 + LABEL_GAP as i128) },
            text_color: l.color,
            size: l.font_size,
            anchor: Anchor::Below,
        };
        let ghost before = views(out@);
        push_shape(out, seg);
        push_shape(out, label);
        proof {
            let pre = all.subrange(0, i + 1);
            assert(pre.drop_last() =~= all.subrange(0, i as int));
            assert(pre.last() == v as int);
            assert(views(out@) =~= start + x_tick_shapes(*plane, *t, *l, pre));
        }
        i += 1;
    }
    assert(all.subrange(0, all.len() as int) =~= all);
}

fn push_y_ticks(out: &mut Vec<Shape>, plane: &Plane, t: &Ticks, l: &Labels, vals: &Vec<i64>)
    requires
        plane.wf(),
    ensures
        views(final(out)@) == views(old(out)@) + y_tick_shapes(
            *plane,
            *t,
            *l,
            vals@.map_values(|v: i64| v as int),
        ),
{
    let ghost start = views(out@);
    let ghost all = vals@.map_values(|v: i64| v as int);
    let px = plane.scale_to_cartesian_x(0);
    let half: i128 = t.height as i128 * 128;
    let mut i: usize = 0;
    while i < vals.len()
        invariant
            plane.wf(),
            px == plane.x_pixel(0),
            half == t.height * 128,
            all == vals@.map_values(|v: i64| v as int),
            i <= vals@.len(),
            views(out@) == start + y_tick_shapes(*plane, *t, *l, all.subrange(0, i as int)),
        decreases vals@.len() - i,
    {
        let v = vals[i];
        let py = plane.scale_to_cartesian_y(v);
        let seg = Shape::Segment {
            from: Point { x: saturate_i32(px as i128 - half), y: py },
            to: Point { x: saturate_i32(px as i128 + half), y: py },
            color: t.color,
            width: t.width,
        };
        let label = Shape::Label {
            value: v,
            at: Point { x: saturate_i32(px as i128 - LABEL_GAP as i128), y: py },
            text_color: l.color,
            size: l.font_size,
            anchor: Anchor::Left,
        };
        let ghost before = views(out@);
        push_shape(out, seg);
        push_shape(out, label);
        proof {
            let pre = all.subrange(0, i + 1);
            assert(pre.drop_last() =~= all.subrange(0, i as int));
            assert(pre.last() == v as int);
            assert(views(out@) =~= start + y_tick_shapes(*plane, *t, *l, pre));
        }
        i += 1;
    }
    assert(all.subrange(0, all.len() as int) =~= all);
}

impl<S: Copy> Chart<S> {
    fn draw_data(&self, out: &mut Vec<Shape>, plane: &Plane)
        requires
            plane.wf(),
        ensures
            views(final(out)@) == views(old(out)@) + data_shapes(*plane, self.series@),
    {
        let ghost start = views(out@);
        let mut i: usize = 0;
        while i < self.series.len()
            invariant
                plane.wf(),
                i <= self.series@.len(),
                views(out@) == start + data_shapes(*plane, self.series@.subrange(0, i as int)),
            decreases self.series@.len() - i,
        {
            let ghost before = views(out@);
            push_series_shapes(out, plane, &self.series[i]);
            proof {
                let pre = self.series@.subrange(0, i + 1);
                assert(pre.drop_last() =~= self.series@.subrange(0, i as int));
                assert(views(out@) =~= start + data_shapes(*plane, pre));
            }
            i += 1;
        }
        assert(self.series@.subrange(0, self.series@.len() as int) =~= self.series@);
    }

    fn draw_x_axis(&self, out: &mut Vec<Shape>, plane: &Plane)
        requires
            plane.wf(),
        ensures
            views(final(out)@) == views(old(out)@) + self.x_axis_shapes(*plane),
    {
        let ghost start = views(out@);
        let from = plane.bottom_left();
        let to = plane.bottom_right();
        push_shape(
            out,
            Shape::Segment {
                from: Point { x: plane.scale_to_cartesian_x(from.x), y: plane.scale_to_cartesian_y(from.y) },
                to: Point { x: plane.scale_to_cartesian_x(to.x), y: plane.scale_to_cartesian_y(to.y) },
                color: self.x_axis.color,
                width: self.x_axis.width,
            },
        );
        let ghost mid = views(out@);
        let vals = ticks(&plane.x, self.x_ticks.amount, false);
        push_x_ticks(out, plane, &self.x_ticks, &self.x_labels, &vals);
        assert(views(out@) =~= start + self.x_axis_shapes(*plane));
    }

    fn draw_y_axis(&self, out: &mut Vec<Shape>, plane: &Plane)
        requires
            plane.wf(),
        ensures
            views(final(out)@) == views(old(out)@) + self.y_axis_shapes(*plane),
    {
        let ghost start = views(out@);
        let from = plane.bottom_center();
        let to = plane.top_center();
        push_shape(
            out,
            Shape::Segment {
                from: Point { x: plane.scale_to_cartesian_x(from.x), y: plane.scale_to_cartesian_y(from.y) },
                to: Point { x: plane.scale_to_cartesian_x(to.x), y: plane.scale_to_cartesian_y(to.y) },
                color: self.y_axis.color,
                width: self.y_axis.width,
            },
        );
        let vals = ticks(&plane.y, self.y_ticks.amount, true);
        push_y_ticks(out, plane, &self.y_ticks, &self.y_labels, &vals);
        assert(views(out@) =~= start + self.y_axis_shapes(*plane));
    }

    /// The shapes to draw for a widget of `width` by `height` pixels. Nothing
    /// is drawn on an empty area or before the first layout.
    pub fn draw(&self, state: &State<S>, width: u16, height: u16) -> (r: Vec<Shape>)
        requires
            state.wf(),
        ensures
            width < 1 || height < 1 || state.plane is None ==> r@.len() == 0,
            state.plane matches Some(p) ==> (width < 1 || height < 1 || views(r@) == self.scene(p)),
    {
        let mut out: Vec<Shape> = Vec::new();
        if width < 1 || height < 1 {
            return out;
        }
        match &state.plane {
            None => out,
            Some(plane) => {
                assert(views(out@) =~= Seq::<ShapeView>::empty());
                self.draw_x_axis(&mut out, plane);
                self.draw_y_axis(&mut out, plane);
                self.draw_data(&mut out, plane);
                assert(views(out@) =~= self.scene(*plane));
                out
            },
        }
    }
}

} // verus!
