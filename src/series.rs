use vstd::prelude::*;

use crate::cartesian::Plane;
use crate::geometry::{hull, hull_of, DataPoint, Interval, Point, Rect};

verus! {

/// An RGBA color with eight bits per channel.
#[derive(Clone, Copy, Debug, PartialEq, Eq, Structural)]
pub struct Color {
    pub r: u8,
    pub g: u8,
    pub b: u8,
    pub a: u8,
}

impl Color {
    pub fn from_rgba8(r: u8, g: u8, b: u8, a: u8) -> (c: Color)
        ensures
            c == (Color { r, g, b, a }),
    {
        Color { r, g, b, a }
    }

    pub fn black() -> (c: Color)
        ensures
            c == (Color { r: 0, g: 0, b: 0, a: 255 }),
    {
        Color { r: 0, g: 0, b: 0, a: 255 }
    }

    pub fn white() -> (c: Color)
        ensures
            c == (Color { r: 255, g: 255, b: 255, a: 255 }),
    {
        Color { r: 255, g: 255, b: 255, a: 255 }
    }
}

/// The interval spanned by the `x` values of `s`, `None` when `s` is empty.
pub open spec fn x_extent(s: Seq<(i64, i64)>) -> Option<Interval>
    decreases s.len(),
{
    if s.len() == 0 {
        None
    } else {
        hull(x_extent(s.drop_last()), Some(Interval { start: s.last().0, end: s.last().0 }))
    }
}

/// The interval spanned by the `y` values of `s`, `None` when `s` is empty.
pub open spec fn y_extent(s: Seq<(i64, i64)>) -> Option<Interval>
    decreases s.len(),
{
    if s.len() == 0 {
        None
    } else {
        hull(y_extent(s.drop_last()), Some(Interval { start: s.last().1, end: s.last().1 }))
    }
}

/// Whether a data point lies in the visible ranges of `plane`, edges included.
pub open spec fn in_view(plane: Plane, p: (i64, i64)) -> bool {
    plane.x.min <= p.0 <= plane.x.max && plane.y.min <= p.1 <= plane.y.max
}

pub open spec fn to_pixels(plane: Plane, p: (i64, i64)) -> Point {
    plane.pixel_of(DataPoint { x: p.0, y: p.1 })
}

/// The pixel positions of the points of `s` that lie in view, in order.
pub open spec fn visible_path(plane: Plane, s: Seq<(i64, i64)>) -> Seq<Point>
    decreases s.len(),
{
    if s.len() == 0 {
        Seq::empty()
    } else {
        let rest = visible_path(plane, s.drop_last());
        if in_view(plane, s.last()) {
            rest.push(to_pixels(plane, s.last()))
        } else {
            rest
        }
    }
}

proof fn lemma_visible_path_concat(plane: Plane, a: Seq<(i64, i64)>, b: Seq<(i64, i64)>)
    ensures
        visible_path(plane, a + b) == visible_path(plane, a) + visible_path(plane, b),
    decreases b.len(),
{
    if b.len() == 0 {
        assert(a + b =~= a);
        assert(visible_path(plane, a) + visible_path(plane, b) =~= visible_path(plane, a));
    } else {
        lemma_visible_path_concat(plane, a, b.drop_last());
        assert((a + b).drop_last() =~= a + b.drop_last());
        assert((a + b).last() == b.last());
        if in_view(plane, b.last()) {
            assert(visible_path(plane, a) + visible_path(plane, b) =~= (visible_path(plane, a)
                + visible_path(plane, b.drop_last())).push(to_pixels(plane, b.last())));
        }
    }
}

/// A point out of view breaks the line: the path is the path of the points
/// before it followed by the path of the points after it, with no vertex
/// for the point itself.
pub proof fn lemma_path_skips_hidden(plane: Plane, s: Seq<(i64, i64)>, i: int)
    requires
        0 <= i < s.len(),
        !in_view(plane, s[i]),
    ensures
        visible_path(plane, s) == visible_path(plane, s.take(i)) + visible_path(
            plane,
            s.skip(i + 1),
        ),
{
    let front = s.take(i + 1);
    assert(s =~= front + s.skip(i + 1));
    lemma_visible_path_concat(plane, front, s.skip(i + 1));
    assert(front.drop_last() =~= s.take(i));
    assert(front.last() == s[i]);
}

proof fn lemma_prefix_step(s: Seq<(i64, i64)>, i: int)
    requires
        0 <= i < s.len(),
    ensures
        s.subrange(0, i + 1).drop_last() == s.subrange(0, i),
        s.subrange(0, i + 1).last() == s[i],
{
    assert(s.subrange(0, i + 1).drop_last() =~= s.subrange(0, i));
}

fn fold_x(data: &Vec<(i64, i64)>) -> (r: Option<Interval>)
    ensures
        r == x_extent(data@),
{
    let mut acc: Option<Interval> = None;
    let mut i: usize = 0;
    while i < data.len()
        invariant
            i <= data@.len(),
            acc == x_extent(data@.subrange(0, i as int)),
        decreases data@.len() - i,
    {
        proof {
            lemma_prefix_step(data@, i as int);
        }
        let x = data[i].0;
        acc = hull_of(acc, Some(Interval { start: x, end: x }));
        i += 1;
    }
    assert(data@.subrange(0, data@.len() as int) =~= data@);
    acc
}

fn fold_y(data: &Vec<(i64, i64)>) -> (r: Option<Interval>)
    ensures
        r == y_extent(data@),
{
    let mut acc: Option<Interval> = None;
    let mut i: usize = 0;
    while i < data.len()
        invariant
            i <= data@.len(),
            acc == y_extent(data@.subrange(0, i as int)),
        decreases data@.len() - i,
    {
        proof {
            lemma_prefix_step(data@, i as int);
        }
        let y = data[i].1;
        acc = hull_of(acc, Some(Interval { start: y, end: y }));
        i += 1;
    }
    assert(data@.subrange(0, data@.len() as int) =~= data@);
    acc
}

/// A polyline through data points, drawn with one stroke color.
pub struct LineSeries {
    pub data: Vec<(i64, i64)>,
    pub color: Color,
}

impl LineSeries {
    pub fn new(data: Vec<(i64, i64)>) -> (r: LineSeries)
        ensures
            r.data@ == data@,
            r.color == Color::black_spec(),
    {
        LineSeries { data, color: Color::black() }
    }

    pub fn color(self, color: Color) -> (r: LineSeries)
        ensures
            r.data@ == self.data@,
            r.color == color,
    {
        LineSeries { data: self.data, color }
    }

    pub fn x_range(&self) -> (r: Option<Interval>)
        ensures
            r == x_extent(self.data@),
    {
        fold_x(&self.data)
    }

    pub fn y_range(&self) -> (r: Option<Interval>)
        ensures
            r == y_extent(self.data@),
    {
        fold_y(&self.data)
    }

    /// The pixel polyline of the series: the points in view, in order.
    /// A point out of view is dropped, not clipped, so the line runs
    /// straight from its predecessor in view to its successor in view.
    pub fn path(&self, plane: &Plane) -> (r: Vec<Point>)
        requires
            plane.wf(),
        ensures
            r@ == visible_path(*plane, self.data@),
    {
        let mut out: Vec<Point> = Vec::new();
        let mut i: usize = 0;
        while i < self.data.len()
            invariant
                plane.wf(),
                i <= self.data@.len(),
                out@ == visible_path(*plane, self.data@.subrange(0, i as int)),
            decreases self.data@.len() - i,
        {
            proof {
                lemma_prefix_step(self.data@, i as int);
            }
            let (x, y) = self.data[i];
            if plane.x.min <= x && x <= plane.x.max && plane.y.min <= y && y <= plane.y.max {
                let p = Point { x: plane.scale_to_cartesian_x(x), y: plane.scale_to_cartesian_y(y) };
                out.push(p);
            }
            i += 1;
        }
        assert(self.data@.subrange(0, self.data@.len() as int) =~= self.data@);
        out
    }
}

impl Color {
    pub open spec fn black_spec() -> Color {
        Color { r: 0, g: 0, b: 0, a: 255 }
    }

    pub open spec fn white_spec() -> Color {
        Color { r: 255, g: 255, b: 255, a: 255 }
    }
}

pub fn line_series(data: Vec<(i64, i64)>) -> (r: LineSeries)
    ensures
        r.data@ == data@,
        r.color == Color::black_spec(),
{
    LineSeries::new(data)
}

/// How one point of a point series is drawn, sizes in whole pixels. A color
/// left unset falls back to the series color.
#[derive(Clone, Copy, Debug, PartialEq, Eq, Structural)]
pub struct PointStyle {
    pub color: Option<Color>,
    pub border_color: Option<Color>,
    pub border: u16,
    pub radius: u16,
}

impl PointStyle {
    pub open spec fn default_spec() -> PointStyle {
        PointStyle { color: None, border_color: None, border: 2, radius: 5 }
    }
}

impl Default for PointStyle {
    fn default() -> (r: PointStyle)
        ensures
            r == PointStyle::default_spec(),
    {
        PointStyle { color: None, border_color: None, border: 2, radius: 5 }
    }
}

/// A resolved circle of a point series: its center in pixel units, its
/// radius and border width in whole pixels.
#[derive(Clone, Copy, Debug, PartialEq, Eq, Structural)]
pub struct Mark {
    pub center: Point,
    pub radius: u16,
    pub fill: Color,
    pub border: u16,
    pub border_color: Color,
}

pub open spec fn mark_of(plane: Plane, p: (i64, i64), style: PointStyle, color: Color) -> Mark {
    Mark {
        center: to_pixels(plane, p),
        radius: style.radius,
        fill: match style.color {
            Some(c) => c,
            None => color,
        },
        border: style.border,
        border_color: match style.border_color {
            Some(c) => c,
            None => color,
        },
    }
}

/// The square of half-width `r` whole pixels centered on the origin.
pub open spec fn square_spec(r: u16) -> Rect {
    Rect {
        x: (-256 * r) as i32,
        y: (-256 * r) as i32,
        width: (512 * r) as i32,
        height: (512 * r) as i32,
    }
}

fn square(r: u16) -> (b: Rect)
    ensures
        b == square_spec(r),
{
    let u: i32 = r as i32 * 256;
    Rect { x: -u, y: -u, width: 2 * u, height: 2 * u }
}

/// A set of points drawn as circles. With an identity, its items can be
/// found under the cursor.
pub struct PointSeries<S> {
    pub id: Option<S>,
    pub data: Vec<(i64, i64)>,
    pub color: Color,
    pub collision_box: Option<Rect>,
    pub style: PointStyle,
    pub styles: Option<Vec<PointStyle>>,
}

impl<S> PointSeries<S> {
    /// The style of the `i`-th point: the per-point style when one was given
    /// for it, else the series style.
    pub open spec fn style_at(self, i: int) -> PointStyle {
        match self.styles {
            Some(v) => if 0 <= i < v@.len() {
                v@[i]
            } else {
                self.style
            },
            None => self.style,
        }
    }
}

impl<S: Copy> PointSeries<S> {
    pub fn new(data: Vec<(i64, i64)>) -> (r: PointSeries<S>)
        ensures
            r.id is None,
            r.data@ == data@,
            r.color == Color::black_spec(),
            r.collision_box is None,
            r.style == PointStyle::default_spec(),
            r.styles is None,
    {
        PointSeries {
            id: None,
            data,
            color: Color::black(),
            collision_box: None,
            style: PointStyle::default(),
            styles: None,
        }
    }

    pub fn color(self, color: Color) -> (r: PointSeries<S>)
        ensures
            r == (PointSeries { color, ..self }),
    {
        PointSeries { color, ..self }
    }

    pub fn collision_box(self, collision_box: Rect) -> (r: PointSeries<S>)
        ensures
            r == (PointSeries { collision_box: Some(collision_box), ..self }),
    {
        PointSeries { collision_box: Some(collision_box), ..self }
    }

    pub fn style(self, style: PointStyle) -> (r: PointSeries<S>)
        ensures
            r == (PointSeries { style, ..self }),
    {
        PointSeries { style, ..self }
    }

    pub fn with_id(self, id: S) -> (r: PointSeries<S>)
        ensures
            r == (PointSeries { id: Some(id), ..self }),
    {
        PointSeries { id: Some(id), ..self }
    }

    /// Gives each point the style that `style_fn` returns for its index and
    /// position.
    pub fn style_for_each<F: Fn(usize, (i64, i64)) -> PointStyle>(self, style_fn: F) -> (r:
        PointSeries<S>)
        requires
            forall|i: usize, p: (i64, i64)| style_fn.requires((i, p)),
        ensures
            r.id == self.id,
            r.data@ == self.data@,
            r.color == self.color,
            r.collision_box == self.collision_box,
            r.style == self.style,
            r.styles matches Some(v) && v@.len() == self.data@.len(),
            forall|i: int|
                0 <= i < self.data@.len() ==> style_fn.ensures(
                    (i as usize, self.data@[i]),
                    #[trigger] r.style_at(i),
                ),
    {
        let mut styles: Vec<PointStyle> = Vec::new();
        let mut i: usize = 0;
        while i < self.data.len()
            invariant
                i <= self.data@.len(),
                styles@.len() == i,
                forall|i: usize, p: (i64, i64)| style_fn.requires((i, p)),
                forall|k: int|
                    0 <= k < i ==> style_fn.ensures((k as usize, self.data@[k]), #[trigger] styles@[k]),
            decreases self.data@.len() - i,
        {
            let st = style_fn(i, self.data[i]);
            styles.push(st);
            i += 1;
        }
        PointSeries {
            id: self.id,
            data: self.data,
            color: self.color,
            collision_box: self.collision_box,
            style: self.style,
            styles: Some(styles),
        }
    }

    pub fn x_range(&self) -> (r: Option<Interval>)
        ensures
            r == x_extent(self.data@),
    {
        fold_x(&self.data)
    }

    pub fn y_range(&self) -> (r: Option<Interval>)
        ensures
            r == y_extent(self.data@),
    {
        fold_y(&self.data)
    }

    /// The pixel position of every point, in order.
    pub fn positions(&self, plane: &Plane) -> (r: Vec<Point>)
        requires
            plane.wf(),
        ensures
            r@ == self.data@.map_values(|q: (i64, i64)| to_pixels(*plane, q)),
    {
        let mut out: Vec<Point> = Vec::new();
        let mut i: usize = 0;
        while i < self.data.len()
            invariant
                plane.wf(),
                i <= self.data@.len(),
                out@.len() == i,
                forall|k: int| 0 <= k < i ==> #[trigger] out@[k] == to_pixels(*plane, self.data@[k]),
            decreases self.data@.len() - i,
        {
            let (x, y) = self.data[i];
            out.push(Point { x: plane.scale_to_cartesian_x(x), y: plane.scale_to_cartesian_y(y) });
            i += 1;
        }
        assert(out@ =~= self.data@.map_values(|q: (i64, i64)| to_pixels(*plane, q)));
        out
    }

    /// One circle per point, in order, each with its resolved style.
    pub fn marks(&self, plane: &Plane) -> (r: Vec<Mark>)
        requires
            plane.wf(),
        ensures
            r@.len() == self.data@.len(),
            forall|i: int|
                0 <= i < r@.len() ==> #[trigger] r@[i] == mark_of(
                    *plane,
                    self.data@[i],
                    self.style_at(i),
                    self.color,
                ),
    {
        let mut out: Vec<Mark> = Vec::new();
        let mut i: usize = 0;
        while i < self.data.len()
            invariant
                plane.wf(),
                i <= self.data@.len(),
                out@.len() == i,
                forall|k: int|
                    0 <= k < i ==> #[trigger] out@[k] == mark_of(
                        *plane,
                        self.data@[k],
                        self.style_at(k),
                        self.color,
                    ),
            decreases self.data@.len() - i,
        {
            let style = match &self.styles {
                Some(v) => if i < v.len() {
                    v[i]
                } else {
                    self.style
                },
                None => self.style,
            };
            let (x, y) = self.data[i];
            let fill = match style.color {
                Some(c) => c,
                None => self.color,
            };
            let border_color = match style.border_color {
                Some(c) => c,
                None => self.color,
            };
            out.push(
                Mark {
                    center: Point {
                        x: plane.scale_to_cartesian_x(x),
                        y: plane.scale_to_cartesian_y(y),
                    },
                    radius: style.radius,
                    fill,
                    border: style.border,
                    border_color,
                },
            );
            i += 1;
        }
        out
    }
}

pub fn point_series<S: Copy>(data: Vec<(i64, i64)>) -> (r: PointSeries<S>)
    ensures
        r.id is None,
        r.data@ == data@,
        r.color == Color::black_spec(),
        r.collision_box is None,
        r.style == PointStyle::default_spec(),
        r.styles is None,
{
    PointSeries::new(data)
}

/// A series of either shape.
pub enum Series<S> {
    Line(LineSeries),
    Point(PointSeries<S>),
}

impl<S: Copy> Series<S> {
    pub open spec fn data(self) -> Seq<(i64, i64)> {
        match self {
            Series::Line(l) => l.data@,
            Series::Point(p) => p.data@,
        }
    }

    pub fn x_range(&self) -> (r: Option<Interval>)
        ensures
            r == x_extent(self.data()),
    {
        match self {
            Series::Line(l) => l.x_range(),
            Series::Point(p) => p.x_range(),
        }
    }

    pub fn y_range(&self) -> (r: Option<Interval>)
        ensures
            r == y_extent(self.data()),
    {
        match self {
            Series::Line(l) => l.y_range(),
            Series::Point(p) => p.y_range(),
        }
    }

    /// The identity of a point series, if it was given one.
    pub fn id(&self) -> (r: Option<S>)
        ensures
            r == match self {
                Series::Line(_) => None,
                Series::Point(p) => p.id,
            },
    {
        match self {
            Series::Line(_) => None,
            Series::Point(p) => p.id,
        }
    }

    /// The area around the cursor, relative to it, in which the items of a
    /// point series are picked: the box that was set, else a square of the
    /// default point radius.
    pub fn collision_box(&self) -> (r: Option<Rect>)
        ensures
            r == match self {
                Series::Line(_) => None,
                Series::Point(p) => match p.collision_box {
                    Some(b) => Some(b),
                    None => Some(square_spec(PointStyle::default_spec().radius)),
                },
            },
    {
        match self {
            Series::Line(_) => None,
            Series::Point(p) => match p.collision_box {
                Some(b) => Some(b),
                None => Some(square(PointStyle::default().radius)),
            },
        }
    }
}

impl<S> From<LineSeries> for Series<S> {
    fn from(line_series: LineSeries) -> (r: Series<S>) {
        Series::Line(line_series)
    }
}

impl<S> vstd::std_specs::convert::FromSpecImpl<LineSeries> for Series<S> {
    open spec fn obeys_from_spec() -> bool {
        true
    }

    open spec fn from_spec(v: LineSeries) -> Series<S> {
        Series::Line(v)
    }
}

impl<S> From<PointSeries<S>> for Series<S> {
    fn from(point_series: PointSeries<S>) -> (r: Series<S>) {
        Series::Point(point_series)
    }
}

impl<S> vstd::std_specs::convert::FromSpecImpl<PointSeries<S>> for Series<S> {
    open spec fn obeys_from_spec() -> bool {
        true
    }

    open spec fn from_spec(v: PointSeries<S>) -> Series<S> {
        Series::Point(v)
    }
}

} // verus!
