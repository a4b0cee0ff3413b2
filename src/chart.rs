use vstd::prelude::*;

use crate::cartesian::{self, Plane};
use crate::geometry::{hull, hull_of, Interval, Rect, DATA_ONE};
use crate::items::{add_points, Items};
use crate::num::{ceil_div, div_ceil, div_floor, floor_div, max_int};
use crate::series::{square_spec, to_pixels, x_extent, y_extent, Color, PointStyle, Series};
use crate::state::State;

verus! {

/// Where an axis takes its data range from.
#[derive(Clone, Copy, Debug, PartialEq, Eq, Structural)]
pub enum AxisRange {
    /// Pinned by the caller; pushing series never changes it.
    Custom(Interval),
    /// The hull of every series pushed so far; `None` until one of them had
    /// a point.
    Automatic(Option<Interval>),
}

pub open spec fn default_range() -> Interval {
    Interval { start: 0, end: 655360 }
}

impl AxisRange {
    /// The range after a series spanning `extent` was pushed.
    pub open spec fn absorb_spec(self, extent: Option<Interval>) -> AxisRange {
        match self {
            AxisRange::Custom(r) => AxisRange::Custom(r),
            AxisRange::Automatic(acc) => AxisRange::Automatic(hull(acc, extent)),
        }
    }

    /// The range an axis is drawn with: the pinned one, else the
    /// accumulated one, else `0..=10`.
    pub open spec fn resolved(self) -> Interval {
        match self {
            AxisRange::Custom(r) => r,
            AxisRange::Automatic(Some(r)) => r,
            AxisRange::Automatic(None) => default_range(),
        }
    }

    pub fn absorb(self, extent: Option<Interval>) -> (r: AxisRange)
        ensures
            r == self.absorb_spec(extent),
    {
        match self {
            AxisRange::Custom(r) => AxisRange::Custom(r),
            AxisRange::Automatic(acc) => AxisRange::Automatic(hull_of(acc, extent)),
        }
    }

    pub fn resolve(&self) -> (r: Interval)
        ensures
            r == self.resolved(),
    {
        match self {
            AxisRange::Custom(r) => *r,
            AxisRange::Automatic(Some(r)) => *r,
            AxisRange::Automatic(None) => Interval { start: 0, end: 10 * DATA_ONE },
        }
    }
}

impl Default for AxisRange {
    fn default() -> (r: AxisRange)
        ensures
            r == AxisRange::Automatic(None),
    {
        AxisRange::Automatic(None)
    }
}

/// The x range after pushing each series of `ss` in order.
pub open spec fn absorb_all_x<S>(r: AxisRange, ss: Seq<Series<S>>) -> AxisRange
    decreases ss.len(),
{
    if ss.len() == 0 {
        r
    } else {
        absorb_all_x(r, ss.drop_last()).absorb_spec(x_extent(series_data(ss.last())))
    }
}

/// The y range after pushing each series of `ss` in order.
pub open spec fn absorb_all_y<S>(r: AxisRange, ss: Seq<Series<S>>) -> AxisRange
    decreases ss.len(),
{
    if ss.len() == 0 {
        r
    } else {
        absorb_all_y(r, ss.drop_last()).absorb_spec(y_extent(series_data(ss.last())))
    }
}

pub open spec fn series_data<S>(s: Series<S>) -> Seq<(i64, i64)> {
    match s {
        Series::Line(l) => l.data@,
        Series::Point(p) => p.data@,
    }
}

/// Pixel space kept free around the plot area.
#[derive(Clone, Copy, Debug, PartialEq, Eq, Structural)]
pub struct Margin {
    pub top: u16,
    pub bottom: u16,
    pub left: u16,
    pub right: u16,
}

pub const MARGIN_DEFAULT: u16 = 10;

impl Default for Margin {
    fn default() -> (r: Margin)
        ensures
            r == (Margin { top: 10, bottom: 10, left: 10, right: 10 }),
    {
        Margin {
            top: MARGIN_DEFAULT,
            bottom: MARGIN_DEFAULT,
            left: MARGIN_DEFAULT,
            right: MARGIN_DEFAULT,
        }
    }
}

/// How the ticks of an axis are drawn, and how many intervals they cut the
/// visible range into.
#[derive(Clone, Copy, Debug, PartialEq, Eq, Structural)]
pub struct Ticks {
    pub color: Color,
    pub height: u16,
    pub width: u16,
    pub amount: u16,
}

impl Ticks {
    pub fn color(self, color: Color) -> (r: Ticks)
        ensures
            r == (Ticks { color, ..self }),
    {
        Ticks { color, ..self }
    }

    pub fn height(self, height: u16) -> (r: Ticks)
        ensures
            r == (Ticks { height, ..self }),
    {
        Ticks { height, ..self }
    }

    pub fn width(self, width: u16) -> (r: Ticks)
        ensures
            r == (Ticks { width, ..self }),
    {
        Ticks { width, ..self }
    }

    pub fn amount(self, amount: u16) -> (r: Ticks)
        ensures
            r == (Ticks { amount, ..self }),
    {
        Ticks { amount, ..self }
    }
}

impl Default for Ticks {
    fn default() -> (r: Ticks)
        ensures
            r == (Ticks { color: Color::white_spec(), height: 5, width: 1, amount: 10 }),
    {
        Ticks { color: Color::white(), height: 5, width: 1, amount: 10 }
    }
}

/// How the line of an axis is drawn.
#[derive(Clone, Copy, Debug, PartialEq, Eq, Structural)]
pub struct Axis {
    pub color: Color,
    pub width: u16,
}

impl Axis {
    pub fn color(self, color: Color) -> (r: Axis)
        ensures
            r == (Axis { color, ..self }),
    {
        Axis { color, ..self }
    }

    pub fn width(self, width: u16) -> (r: Axis)
        ensures
            r == (Axis { width, ..self }),
    {
        Axis { width, ..self }
    }
}

impl Default for Axis {
    fn default() -> (r: Axis)
        ensures
            r == (Axis { color: Color::white_spec(), width: 1 }),
    {
        Axis { color: Color::white(), width: 1 }
    }
}

/// How the tick labels of an axis are drawn; unset fields take the host's
/// defaults.
#[derive(Clone, Copy, Debug, PartialEq, Eq, Structural)]
pub struct Labels {
    pub color: Option<Color>,
    pub font_size: Option<u16>,
}

impl Labels {
    pub fn color(self, color: Color) -> (r: Labels)
        ensures
            r == (Labels { color: Some(color), ..self }),
    {
        Labels { color: Some(color), ..self }
    }

    pub fn font_size(self, font_size: u16) -> (r: Labels)
        ensures
            r == (Labels { font_size: Some(font_size), ..self }),
    {
        Labels { font_size: Some(font_size), ..self }
    }
}

impl Default for Labels {
    fn default() -> (r: Labels)
        ensures
            r == (Labels { color: None, font_size: None }),
    {
        Labels { color: None, font_size: None }
    }
}

/// The configuration and data of a chart: margins, axis styles, ranges
/// and the series in the order they were pushed.
pub struct Chart<S> {
    pub margin: Margin,
    pub x_axis: Axis,
    pub y_axis: Axis,
    pub x_ticks: Ticks,
    pub y_ticks: Ticks,
    pub x_labels: Labels,
    pub y_labels: Labels,
    pub x_range: AxisRange,
    pub y_range: AxisRange,
    pub series: Vec<Series<S>>,
}

impl<S: Copy> Chart<S> {
    pub fn new() -> (r: Chart<S>)
        ensures
            r.margin == (Margin { top: 10, bottom: 10, left: 10, right: 10 }),
            r.x_range == AxisRange::Automatic(None),
            r.y_range == AxisRange::Automatic(None),
            r.series@.len() == 0,
            r.x_axis == (Axis { color: Color::white_spec(), width: 1 }),
            r.y_axis == (Axis { color: Color::white_spec(), width: 1 }),
            r.x_ticks == (Ticks { color: Color::white_spec(), height: 5, width: 1, amount: 10 }),
            r.y_ticks == (Ticks { color: Color::white_spec(), height: 5, width: 1, amount: 10 }),
            r.x_labels == (Labels { color: None, font_size: None }),
            r.y_labels == (Labels { color: None, font_size: None }),
    {
        Chart {
            margin: Margin::default(),
            x_axis: Axis::default(),
            y_axis: Axis::default(),
            x_ticks: Ticks::default(),
            y_ticks: Ticks::default(),
            x_labels: Labels::default(),
            y_labels: Labels::default(),
            x_range: AxisRange::default(),
            y_range: AxisRange::default(),
            series: Vec::new(),
        }
    }

    pub fn margin(self, margin: Margin) -> (r: Chart<S>)
        ensures
            r == (Chart { margin, ..self }),
    {
        Chart { margin, ..self }
    }

    /// Pins the x range.
    pub fn x_range(self, range: Interval) -> (r: Chart<S>)
        ensures
            r == (Chart { x_range: AxisRange::Custom(range), ..self }),
    {
        Chart { x_range: AxisRange::Custom(range), ..self }
    }

    /// Pins the y range.
    pub fn y_range(self, range: Interval) -> (r: Chart<S>)
        ensures
            r == (Chart { y_range: AxisRange::Custom(range), ..self }),
    {
        Chart { y_range: AxisRange::Custom(range), ..self }
    }

    pub fn x_axis(self, axis: Axis) -> (r: Chart<S>)
        ensures
            r == (Chart { x_axis: axis, ..self }),
    {
        Chart { x_axis: axis, ..self }
    }

    pub fn y_axis(self, axis: Axis) -> (r: Chart<S>)
        ensures
            r == (Chart { y_axis: axis, ..self }),
    {
        Chart { y_axis: axis, ..self }
    }

    pub fn x_ticks(self, ticks: Ticks) -> (r: Chart<S>)
        ensures
            r == (Chart { x_ticks: ticks, ..self }),
    {
        Chart { x_ticks: ticks, ..self }
    }

    pub fn y_ticks(self, ticks: Ticks) -> (r: Chart<S>)
        ensures
            r == (Chart { y_ticks: ticks, ..self }),
    {
        Chart { y_ticks: ticks, ..self }
    }

    pub fn x_labels(self, labels: Labels) -> (r: Chart<S>)
        ensures
            r == (Chart { x_labels: labels, ..self }),
    {
        Chart { x_labels: labels, ..self }
    }

    pub fn y_labels(self, labels: Labels) -> (r: Chart<S>)
        ensures
            r == (Chart { y_labels: labels, ..self }),
    {
        Chart { y_labels: labels, ..self }
    }

    /// Appends a series; an automatic range grows to cover its points.
    pub fn push_series(self, series: Series<S>) -> (r: Chart<S>)
        ensures
            r.x_range == self.x_range.absorb_spec(x_extent(series_data(series))),
            r.y_range == self.y_range.absorb_spec(y_extent(series_data(series))),
            r.series@ == self.series@.push(series),
            r.margin == self.margin,
            r.x_axis == self.x_axis,
            r.y_axis == self.y_axis,
            r.x_ticks == self.x_ticks,
            r.y_ticks == self.y_ticks,
            r.x_labels == self.x_labels,
            r.y_labels == self.y_labels,
    {
        let x_range = self.x_range.absorb(series.x_range());
        let y_range = self.y_range.absorb(series.y_range());
        let mut list = self.series;
        list.push(series);
        Chart { x_range, y_range, series: list, ..self }
    }

    /// Pushes each series of `series_list` in order.
    pub fn extend_series(self, series_list: Vec<Series<S>>) -> (r: Chart<S>)
        ensures
            r.x_range == absorb_all_x(self.x_range, series_list@),
            r.y_range == absorb_all_y(self.y_range, series_list@),
            r.series@ == self.series@ + series_list@,
            r.margin == self.margin,
            r.x_axis == self.x_axis,
            r.y_axis == self.y_axis,
            r.x_ticks == self.x_ticks,
            r.y_ticks == self.y_ticks,
            r.x_labels == self.x_labels,
            r.y_labels == self.y_labels,
    {
        let ghost x0 = self.x_range;
        let ghost y0 = self.y_range;
        let ghost s0 = self.series@;
        let ghost all = series_list@;
        let mut chart = self;
        let mut rest = series_list;
        let ghost mut i: int = 0;
        while rest.len() > 0
            invariant
                0 <= i,
                i + rest@.len() == all.len(),
                rest@ == all.subrange(i, all.len() as int),
                chart.x_range == absorb_all_x(x0, all.subrange(0, i)),
                chart.y_range == absorb_all_y(y0, all.subrange(0, i)),
                chart.series@ == s0 + all.subrange(0, i),
                chart.margin == self.margin,
                chart.x_axis == self.x_axis,
                chart.y_axis == self.y_axis,
                chart.x_ticks == self.x_ticks,
                chart.y_ticks == self.y_ticks,
                chart.x_labels == self.x_labels,
                chart.y_labels == self.y_labels,
            decreases rest@.len(),
        {
            let ghost before = rest@;
            let s = rest.remove(0);
            proof {
                assert(before[0] == all[i]);
                assert(s == all[i]);
                assert(all.subrange(0, i + 1).drop_last() =~= all.subrange(0, i));
                assert(s0 + all.subrange(0, i + 1) =~= (s0 + all.subrange(0, i)).push(s));
                assert(rest@ =~= all.subrange(i + 1, all.len() as int));
            }
            chart = chart.push_series(s);
            proof {
                i = i + 1;
            }
        }
        assert(all.subrange(0, all.len() as int) =~= all);
        chart
    }
}

/// The hull of `acc` and of `f` of each series of `ss`.
pub open spec fn fold_hull<S>(
    acc: Option<Interval>,
    ss: Seq<Series<S>>,
    f: spec_fn(Series<S>) -> Option<Interval>,
) -> Option<Interval>
    decreases ss.len(),
{
    if ss.len() == 0 {
        acc
    } else {
        hull(fold_hull(acc, ss.drop_last(), f), f(ss.last()))
    }
}

/// `iv` lies within the hull bounds of `o`.
pub open spec fn inside(o: Option<Interval>, iv: Interval) -> bool {
    o matches Some(e) ==> iv.start <= e.start && e.end <= iv.end
}

pub open spec fn starts_at(o: Option<Interval>, v: i64) -> bool {
    o matches Some(e) && e.start == v
}

pub open spec fn ends_at(o: Option<Interval>, v: i64) -> bool {
    o matches Some(e) && e.end == v
}

proof fn lemma_fold_hull_bounds<S>(
    acc: Option<Interval>,
    ss: Seq<Series<S>>,
    f: spec_fn(Series<S>) -> Option<Interval>,
)
    ensures
        fold_hull(acc, ss, f) is None <==> (acc is None && forall|i: int|
            0 <= i < ss.len() ==> (#[trigger] f(ss[i])) is None),
        fold_hull(acc, ss, f) matches Some(iv) ==> {
            &&& inside(acc, iv)
            &&& forall|i: int| 0 <= i < ss.len() ==> inside(#[trigger] f(ss[i]), iv)
            &&& starts_at(acc, iv.start) || exists|i: int|
                0 <= i < ss.len() && starts_at(#[trigger] f(ss[i]), iv.start)
            &&& ends_at(acc, iv.end) || exists|i: int|
                0 <= i < ss.len() && ends_at(#[trigger] f(ss[i]), iv.end)
        },
    decreases ss.len(),
{
    if ss.len() > 0 {
        let t = ss.drop_last();
        let n = ss.len() - 1;
        lemma_fold_hull_bounds(acc, t, f);
        assert forall|i: int| 0 <= i < n implies #[trigger] f(ss[i]) == f(t[i]) by {
            assert(ss[i] == t[i]);
        }
        let prev = fold_hull(acc, t, f);
        let last = f(ss[n]);
        assert(ss.last() == ss[n]);
        if let Some(iv) = fold_hull(acc, ss, f) {
            assert forall|i: int| 0 <= i < ss.len() implies inside(#[trigger] f(ss[i]), iv) by {
                if i < n {
                    assert(f(ss[i]) == f(t[i]));
                }
            }
            if let Some(p) = prev {
                if iv.start == p.start {
                    if !starts_at(acc, iv.start) {
                        let w = choose|i: int| 0 <= i < t.len() && starts_at(#[trigger] f(t[i]), p.start);
                        assert(f(ss[w]) == f(t[w]));
                    }
                } else {
                    assert(starts_at(f(ss[n]), iv.start));
                }
                if iv.end == p.end {
                    if !ends_at(acc, iv.end) {
                        let w = choose|i: int| 0 <= i < t.len() && ends_at(#[trigger] f(t[i]), p.end);
                        assert(f(ss[w]) == f(t[w]));
                    }
                } else {
                    assert(ends_at(f(ss[n]), iv.end));
                }
            } else {
                assert(starts_at(f(ss[n]), iv.start));
                assert(ends_at(f(ss[n]), iv.end));
            }
        } else {
            assert forall|i: int| 0 <= i < ss.len() implies (#[trigger] f(ss[i])) is None by {
                if i < n {
                    assert(f(ss[i]) == f(t[i]));
                }
            }
        }
        if fold_hull(acc, ss, f) is Some {
            if acc is None {
                if forall|i: int| 0 <= i < ss.len() ==> (#[trigger] f(ss[i])) is None {
                    assert(f(ss[n]) is None);
                    assert forall|i: int| 0 <= i < t.len() implies (#[trigger] f(t[i])) is None by {
                        assert(f(ss[i]) == f(t[i]));
                    }
                }
            }
        }
    }
}

proof fn lemma_fold_hull_same_members<S>(
    acc: Option<Interval>,
    a: Seq<Series<S>>,
    b: Seq<Series<S>>,
    f: spec_fn(Series<S>) -> Option<Interval>,
)
    requires
        forall|s: Series<S>| a.contains(s) <==> b.contains(s),
    ensures
        fold_hull(acc, a, f) == fold_hull(acc, b, f),
{
    lemma_fold_hull_bounds(acc, a, f);
    lemma_fold_hull_bounds(acc, b, f);
    // every member of one sequence is a member of the other
    assert forall|i: int| 0 <= i < a.len() implies exists|j: int|
        0 <= j < b.len() && #[trigger] a[i] == b[j] by {
        assert(a.contains(a[i]));
        assert(b.contains(a[i]));
    }
    assert forall|j: int| 0 <= j < b.len() implies exists|i: int|
        0 <= i < a.len() && a[i] == #[trigger] b[j] by {
        assert(b.contains(b[j]));
        assert(a.contains(b[j]));
    }
    match (fold_hull(acc, a, f), fold_hull(acc, b, f)) {
        (None, None) => {},
        (Some(x), None) => {
            if acc is None {
                let w = choose|i: int| 0 <= i < a.len() && !((#[trigger] f(a[i])) is None);
                let j = choose|j: int| 0 <= j < b.len() && a[w] == b[j];
                assert(f(b[j]) is None);
            }
        },
        (None, Some(y)) => {
            if acc is None {
                let w = choose|i: int| 0 <= i < b.len() && !((#[trigger] f(b[i])) is None);
                let j = choose|i: int| 0 <= i < a.len() && a[i] == b[w];
                assert(f(a[j]) is None);
            }
        },
        (Some(x), Some(y)) => {
            assert(x.start == y.start) by {
                if !starts_at(acc, x.start) {
                    let w = choose|i: int| 0 <= i < a.len() && starts_at(#[trigger] f(a[i]), x.start);
                    let j = choose|j: int| 0 <= j < b.len() && a[w] == b[j];
                    assert(inside(f(b[j]), y));
                }
                if !starts_at(acc, y.start) {
                    let w = choose|i: int| 0 <= i < b.len() && starts_at(#[trigger] f(b[i]), y.start);
                    let j = choose|i: int| 0 <= i < a.len() && a[i] == b[w];
                    assert(inside(f(a[j]), x));
                }
            }
            assert(x.end == y.end) by {
                if !ends_at(acc, x.end) {
                    let w = choose|i: int| 0 <= i < a.len() && ends_at(#[trigger] f(a[i]), x.end);
                    let j = choose|j: int| 0 <= j < b.len() && a[w] == b[j];
                    assert(inside(f(b[j]), y));
                }
                if !ends_at(acc, y.end) {
                    let w = choose|i: int| 0 <= i < b.len() && ends_at(#[trigger] f(b[i]), y.end);
                    let j = choose|i: int| 0 <= i < a.len() && a[i] == b[w];
                    assert(inside(f(a[j]), x));
                }
            }
        },
    }
}

proof fn lemma_absorb_all_is_fold<S>(acc: Option<Interval>, ss: Seq<Series<S>>)
    ensures
        absorb_all_x(AxisRange::Automatic(acc), ss) == AxisRange::Automatic(
            fold_hull(acc, ss, |s: Series<S>| x_extent(series_data(s))),
        ),
        absorb_all_y(AxisRange::Automatic(acc), ss) == AxisRange::Automatic(
            fold_hull(acc, ss, |s: Series<S>| y_extent(series_data(s))),
        ),
    decreases ss.len(),
{
    if ss.len() > 0 {
        lemma_absorb_all_is_fold(acc, ss.drop_last());
    }
}

/// Pushing the same series in any order, each any number of times, gives
/// the same ranges: an automatic range depends only on which series were
/// pushed.
pub proof fn lemma_extend_order_free<S>(r: AxisRange, a: Seq<Series<S>>, b: Seq<Series<S>>)
    requires
        forall|s: Series<S>| a.contains(s) <==> b.contains(s),
    ensures
        absorb_all_x(r, a) == absorb_all_x(r, b),
        absorb_all_y(r, a) == absorb_all_y(r, b),
{
    match r {
        AxisRange::Custom(c) => {
            lemma_custom_sticky(c, a);
            lemma_custom_sticky(c, b);
        },
        AxisRange::Automatic(acc) => {
            lemma_absorb_all_is_fold(acc, a);
            lemma_absorb_all_is_fold(acc, b);
            lemma_fold_hull_same_members(acc, a, b, |s: Series<S>| x_extent(series_data(s)));
            lemma_fold_hull_same_members(acc, a, b, |s: Series<S>| y_extent(series_data(s)));
        },
    }
}

/// `x_extent` is `None` exactly for no points, else the least and the
/// greatest `x` coordinate.
pub proof fn lemma_extent_is_min_max(s: Seq<(i64, i64)>)
    ensures
        x_extent(s) is None <==> s.len() == 0,
        x_extent(s) matches Some(iv) ==> {
            &&& forall|i: int| 0 <= i < s.len() ==> iv.start <= #[trigger] s[i].0 <= iv.end
            &&& exists|i: int| 0 <= i < s.len() && s[i].0 == iv.start
            &&& exists|i: int| 0 <= i < s.len() && s[i].0 == iv.end
        },
    decreases s.len(),
{
    if s.len() > 0 {
        let t = s.drop_last();
        lemma_extent_is_min_max(t);
        if let Some(iv) = x_extent(s) {
            assert forall|i: int| 0 <= i < s.len() implies iv.start <= #[trigger] s[i].0 <= iv.end by {
                if i < s.len() - 1 {
                    assert(s[i] == t[i]);
                }
            }
            if let Some(jv) = x_extent(t) {
                if iv.start == jv.start {
                    let w = choose|i: int| 0 <= i < t.len() && t[i].0 == jv.start;
                    assert(s[w] == t[w]);
                } else {
                    assert(s[s.len() - 1].0 == iv.start);
                }
                if iv.end == jv.end {
                    let w = choose|i: int| 0 <= i < t.len() && t[i].0 == jv.end;
                    assert(s[w] == t[w]);
                } else {
                    assert(s[s.len() - 1].0 == iv.end);
                }
            } else {
                assert(s[s.len() - 1].0 == iv.start);
            }
        }
    }
}

/// `y_extent` is `None` exactly for no points, else the least and the
/// greatest `y` coordinate.
pub proof fn lemma_y_extent_is_min_max(s: Seq<(i64, i64)>)
    ensures
        y_extent(s) is None <==> s.len() == 0,
        y_extent(s) matches Some(iv) ==> {
            &&& forall|i: int| 0 <= i < s.len() ==> iv.start <= #[trigger] s[i].1 <= iv.end
            &&& exists|i: int| 0 <= i < s.len() && s[i].1 == iv.start
            &&& exists|i: int| 0 <= i < s.len() && s[i].1 == iv.end
        },
    decreases s.len(),
{
    if s.len() > 0 {
        let t = s.drop_last();
        lemma_y_extent_is_min_max(t);
        if let Some(iv) = y_extent(s) {
            assert forall|i: int| 0 <= i < s.len() implies iv.start <= #[trigger] s[i].1 <= iv.end by {
                if i < s.len() - 1 {
                    assert(s[i] == t[i]);
                }
            }
            if let Some(jv) = y_extent(t) {
                if iv.start == jv.start {
                    let w = choose|i: int| 0 <= i < t.len() && t[i].1 == jv.start;
                    assert(s[w] == t[w]);
                } else {
                    assert(s[s.len() - 1].1 == iv.start);
                }
                if iv.end == jv.end {
                    let w = choose|i: int| 0 <= i < t.len() && t[i].1 == jv.end;
                    assert(s[w] == t[w]);
                } else {
                    assert(s[s.len() - 1].1 == iv.end);
                }
            } else {
                assert(s[s.len() - 1].1 == iv.start);
            }
        }
    }
}

proof fn lemma_absorb_commutes(r: AxisRange, a: Option<Interval>, b: Option<Interval>)
    ensures
        r.absorb_spec(a).absorb_spec(b) == r.absorb_spec(b).absorb_spec(a),
{
    if let AxisRange::Automatic(acc) = r {
        crate::geometry::lemma_hull_associates(acc, a, b);
        crate::geometry::lemma_hull_associates(acc, b, a);
        crate::geometry::lemma_hull_commutes(a, b);
    }
}

/// Pushing two series in either order gives the same ranges, and pushing a
/// series without points leaves them as they were.
pub proof fn lemma_push_order_free<S>(r: AxisRange, a: Series<S>, b: Series<S>, e: Series<S>)
    requires
        series_data(e).len() == 0,
    ensures
        absorb_all_x(r, seq![a, b]) == absorb_all_x(r, seq![b, a]),
        absorb_all_y(r, seq![a, b]) == absorb_all_y(r, seq![b, a]),
        absorb_all_x(r, seq![e]) == r,
        absorb_all_y(r, seq![e]) == r,
{
    assert(seq![a, b].drop_last() =~= seq![a]);
    assert(seq![b, a].drop_last() =~= seq![b]);
    assert(seq![a].drop_last() =~= Seq::<Series<S>>::empty());
    assert(seq![b].drop_last() =~= Seq::<Series<S>>::empty());
    assert(seq![e].drop_last() =~= Seq::<Series<S>>::empty());
    assert(seq![a, b].last() == b);
    assert(seq![b, a].last() == a);
    assert(seq![a].last() == a);
    assert(seq![b].last() == b);
    assert(absorb_all_x(r, seq![a].drop_last()) == r);
    assert(absorb_all_x(r, seq![b].drop_last()) == r);
    assert(absorb_all_y(r, seq![a].drop_last()) == r);
    assert(absorb_all_y(r, seq![b].drop_last()) == r);
    assert(absorb_all_x(r, seq![a]) == r.absorb_spec(x_extent(series_data(a))));
    assert(absorb_all_x(r, seq![b]) == r.absorb_spec(x_extent(series_data(b))));
    assert(absorb_all_y(r, seq![a]) == r.absorb_spec(y_extent(series_data(a))));
    assert(absorb_all_y(r, seq![b]) == r.absorb_spec(y_extent(series_data(b))));
    lemma_absorb_commutes(r, x_extent(series_data(a)), x_extent(series_data(b)));
    lemma_absorb_commutes(r, y_extent(series_data(a)), y_extent(series_data(b)));
    assert(x_extent(series_data(e)) is None);
    assert(y_extent(series_data(e)) is None);
}

/// A pinned range stays pinned: whatever series are pushed, the range an
/// axis is drawn with is the one that was set.
pub proof fn lemma_custom_sticky<S>(c: Interval, ss: Seq<Series<S>>)
    ensures
        absorb_all_x(AxisRange::Custom(c), ss) == AxisRange::Custom(c),
        absorb_all_y(AxisRange::Custom(c), ss) == AxisRange::Custom(c),
        absorb_all_x(AxisRange::Custom(c), ss).resolved() == c,
    decreases ss.len(),
{
    if ss.len() > 0 {
        lemma_custom_sticky(c, ss.drop_last());
    }
}

pub open spec fn add_u16(a: u16, b: u16) -> u16 {
    if a + b > u16::MAX {
        u16::MAX
    } else {
        (a + b) as u16
    }
}

fn add_u16_saturating(a: u16, b: u16) -> (r: u16)
    ensures
        r == add_u16(a, b),
{
    let s: u32 = a as u32 + b as u32;
    if s > u16::MAX as u32 {
        u16::MAX
    } else {
        s as u16
    }
}

/// The item index of the identified point series of `ss`, laid out on `plane`.
pub open spec fn index_cells<S>(ss: Seq<Series<S>>, plane: Plane) -> Map<(int, int), (S, usize)>
    decreases ss.len(),
{
    if ss.len() == 0 {
        Map::empty()
    } else {
        let m = index_cells(ss.drop_last(), plane);
        match ss.last() {
            Series::Point(p) => match p.id {
                Some(id) => add_points(
                    m,
                    id,
                    p.data@.map_values(|q: (i64, i64)| to_pixels(plane, q)),
                ),
                None => m,
            },
            Series::Line(_) => m,
        }
    }
}

/// The picking area of the last identified point series of `ss`, or a
/// square of the default point radius.
pub open spec fn pick_box_of<S>(ss: Seq<Series<S>>) -> Rect
    decreases ss.len(),
{
    if ss.len() == 0 {
        square_spec(PointStyle::default_spec().radius)
    } else {
        match ss.last() {
            Series::Point(p) if p.id is Some => match p.collision_box {
                Some(b) => b,
                None => square_spec(PointStyle::default_spec().radius),
            },
            _ => pick_box_of(ss.drop_last()),
        }
    }
}

/// The tick values `k * length / parts` for `k` from `k` to `hi`, each
/// rounded down to a data unit, without `k == 0` when `skip_zero`.
pub open spec fn multiples(k: int, hi: int, length: int, parts: int, skip_zero: bool) -> Seq<int>
    decreases hi + 1 - k,
{
    if k > hi {
        Seq::empty()
    } else if skip_zero && k == 0 {
        multiples(k + 1, hi, length, parts, skip_zero)
    } else {
        seq![floor_div(k * length, parts)] + multiples(k + 1, hi, length, parts, skip_zero)
    }
}

/// The tick values of an axis: the multiples of `length / amount` (an
/// amount of zero counting as one) that lie in its range, in increasing
/// order, each rounded down to a data unit.
pub open spec fn tick_values(axis: cartesian::Axis, amount: u16, skip_zero: bool) -> Seq<int> {
    let parts = max_int(amount as int, 1);
    let len = axis.length as int;
    multiples(ceil_div(axis.min * parts, len), floor_div(axis.max * parts, len), len, parts, skip_zero)
}

/// Tick values of `axis`, see `tick_values`.
pub fn ticks(axis: &cartesian::Axis, amount: u16, skip_zero: bool) -> (r: Vec<i64>)
    requires
        axis.wf(),
    ensures
        r@.map_values(|v: i64| v as int) == tick_values(*axis, amount, skip_zero),
        forall|i: int| 0 <= i < r@.len() ==> axis.min <= #[trigger] r@[i] <= axis.max,
{
    let parts: i128 = if amount == 0 { 1 } else { amount as i128 };
    let len: i128 = axis.length;
    proof {
        assert(-0x8000_0000_0000_0000_0000 <= axis.min * parts <= 0x8000_0000_0000_0000_0000) by (nonlinear_arith)
            requires
                i64::MIN <= axis.min <= i64::MAX,
                1 <= parts <= 0x1_0000,
        ;
        assert(-0x8000_0000_0000_0000_0000 <= axis.max * parts <= 0x8000_0000_0000_0000_0000) by (nonlinear_arith)
            requires
                i64::MIN <= axis.max <= i64::MAX,
                1 <= parts <= 0x1_0000,
        ;
    }
    let lo = div_ceil(axis.min as i128 * parts, len);
    let hi = div_floor(axis.max as i128 * parts, len);
    proof {
        crate::num::lemma_ceil_div_bounds(axis.min * parts, len as int);
        crate::num::lemma_floor_div_bounds(axis.max * parts, len as int);
    }
    let ghost all = multiples(lo as int, hi as int, len as int, parts as int, skip_zero);
    let mut out: Vec<i64> = Vec::new();
    let mut k: i128 = lo;
    while k <= hi
        invariant
            lo <= k,
            k <= hi + 1 || k == lo,
            hi <= crate::num::WIDE,
            1 <= parts <= 0x1_0000,
            1 <= len <= 0x2_0000_0000_0000_0000,
            axis.min * parts <= lo * len,
            hi * len <= axis.max * parts,
            out@.map_values(|v: i64| v as int) + multiples(k as int, hi as int, len as int, parts as int, skip_zero) == all,
            forall|i: int| 0 <= i < out@.len() ==> axis.min <= #[trigger] out@[i] <= axis.max,
        decreases hi + 1 - k,
    {
        let ghost before = out@;
        if !(skip_zero && k == 0) {
            proof {
                assert(axis.min * parts <= k * len <= axis.max * parts) by (nonlinear_arith)
                    requires
                        lo <= k <= hi,
                        len >= 1,
                        axis.min * parts <= lo * len,
                        hi * len <= axis.max * parts,
                ;
                assert(-0x8000_0000_0000_0000_0000 <= axis.min * parts) by (nonlinear_arith)
                    requires
                        i64::MIN <= axis.min,
                        1 <= parts <= 0x1_0000,
                ;
                assert(axis.max * parts <= 0x8000_0000_0000_0000_0000) by (nonlinear_arith)
                    requires
                        axis.max <= i64::MAX,
                        1 <= parts <= 0x1_0000,
                ;
                crate::num::lemma_floor_div_bounds(k * len, parts as int);
                let f = floor_div(k * len, parts as int);
                assert(axis.min <= f <= axis.max) by (nonlinear_arith)
                    requires
                        f * parts <= k * len < f * parts + parts,
                        axis.min * parts <= k * len <= axis.max * parts,
                        parts >= 1,
                ;
            }
            let v = div_floor(k * len, parts) as i64;
            out.push(v);
            proof {
                assert(out@.map_values(|v: i64| v as int) =~= before.map_values(|v: i64| v as int).push(
                    floor_div(k * len, parts as int),
                ));
            }
        }
        proof {
            let m = multiples(k as int, hi as int, len as int, parts as int, skip_zero);
            let m1 = multiples(k + 1, hi as int, len as int, parts as int, skip_zero);
            let f = floor_div(k * len, parts as int);
            if skip_zero && k == 0 {
                assert(m == m1);
            } else {
                assert(m == seq![f] + m1);
                assert(before.map_values(|v: i64| v as int).push(f) + m1 =~= before.map_values(
                    |v: i64| v as int,
                ) + (seq![f] + m1));
            }
        }
        k = k + 1;
    }
    assert(out@.map_values(|v: i64| v as int) =~= all);
    out
}

impl<S: Copy> Chart<S> {
    /// The plane a layout of `width` by `height` pixels produces. The x axis
    /// keeps the left and right margins free; the y axis the top margin and
    /// the bottom margin plus one line of label text.
    pub open spec fn plane_spec(self, width: u16, height: u16, font_size: u16) -> Plane {
        Plane {
            x: cartesian::Axis::new_spec(
                self.x_range.resolved(),
                self.margin.left,
                self.margin.right,
                width,
            ),
            y: cartesian::Axis::new_spec(
                self.y_range.resolved(),
                add_u16(self.margin.bottom, font_size),
                self.margin.top,
                height,
            ),
        }
    }

    /// Lays the chart out on `width` by `height` pixels: resolves the ranges,
    /// builds the plane, stores it in `state` and indexes the items of the
    /// identified point series there.
    pub fn layout(&self, state: &mut State<S>, width: u16, height: u16, font_size: u16) -> (r: Plane)
        requires
            old(state).wf(),
        ensures
            r == self.plane_spec(width, height, font_size),
            r.wf(),
            final(state).wf(),
            final(state).plane == Some(r),
            final(state).items.cells() == index_cells(self.series@, r),
            final(state).pick_box == pick_box_of(self.series@),
            final(state).prev_position == old(state).prev_position,
            final(state).cursor_position == old(state).cursor_position,
            final(state).scroll_delta == old(state).scroll_delta,
    {
        let x_range = self.x_range.resolve();
        let y_range = self.y_range.resolve();
        let plane = Plane {
            x: cartesian::Axis::new(&x_range, self.margin.left, self.margin.right, width),
            y: cartesian::Axis::new(
                &y_range,
                add_u16_saturating(self.margin.bottom, font_size),
                self.margin.top,
                height,
            ),
        };
        let mut items: Items<S> = Items::new();
        let mut pick_box = Rect { x: -1280, y: -1280, width: 2560, height: 2560 };
        let mut i: usize = 0;
        while i < self.series.len()
            invariant
                plane.wf(),
                i <= self.series@.len(),
                items.wf(),
                items.cells() == index_cells(self.series@.subrange(0, i as int), plane),
                pick_box == pick_box_of(self.series@.subrange(0, i as int)),
            decreases self.series@.len() - i,
        {
            proof {
                assert(self.series@.subrange(0, i + 1).drop_last() =~= self.series@.subrange(0, i as int));
            }
            match &self.series[i] {
                Series::Point(p) => {
                    if let Some(id) = p.id {
                        let positions = p.positions(&plane);
                        items.add_series(id, &positions);
                        pick_box = match p.collision_box {
                            Some(b) => b,
                            None => Rect { x: -1280, y: -1280, width: 2560, height: 2560 },
                        };
                    }
                },
                Series::Line(_) => {},
            }
            i += 1;
        }
        assert(self.series@.subrange(0, self.series@.len() as int) =~= self.series@);
        state.plane = Some(plane);
        state.items = items;
        state.pick_box = pick_box;
        plane
    }
}

} // verus!
