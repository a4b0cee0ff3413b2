use vstd::prelude::*;

use crate::geometry::{Point, Rect};

verus! {

/// One indexed item: its pixel position, the series it belongs to and its
/// index within that series.
#[derive(Debug)]
pub struct Slot<S> {
    pub x: i32,
    pub y: i32,
    pub series: S,
    pub index: usize,
}

/// Lexicographic order on positions: by column, then by row.
pub open spec fn key_lt(ax: int, ay: int, bx: int, by: int) -> bool {
    ax < bx || (ax == bx && ay < by)
}

pub open spec fn slot_lt<S>(a: Slot<S>, b: Slot<S>) -> bool {
    key_lt(a.x as int, a.y as int, b.x as int, b.y as int)
}

pub open spec fn strictly_sorted<S>(s: Seq<Slot<S>>) -> bool {
    forall|i: int, j: int| 0 <= i < j < s.len() ==> #[trigger] slot_lt(s[i], s[j])
}

/// The items of `s`, in order, whose position lies in `rect`.
pub open spec fn hits<S>(s: Seq<Slot<S>>, rect: Rect) -> Seq<(S, usize)>
    decreases s.len(),
{
    if s.len() == 0 {
        Seq::empty()
    } else {
        let rest = hits(s.drop_last(), rect);
        let e = s.last();
        if rect.covers(e.x as int, e.y as int) {
            rest.push((e.series, e.index))
        } else {
            rest
        }
    }
}

/// `m` after offering it the points of `pts` in order, the i-th under
/// `(id, i)`; a position that is already taken keeps its first item.
pub open spec fn add_points<S>(m: Map<(int, int), (S, usize)>, id: S, pts: Seq<Point>) -> Map<
    (int, int),
    (S, usize),
>
    decreases pts.len(),
{
    if pts.len() == 0 {
        m
    } else {
        let m0 = add_points(m, id, pts.drop_last());
        let k = (pts.last().x as int, pts.last().y as int);
        if m0.contains_key(k) {
            m0
        } else {
            m0.insert(k, (id, (pts.len() - 1) as usize))
        }
    }
}

proof fn lemma_hits_step<S>(s: Seq<Slot<S>>, i: int, rect: Rect)
    requires
        0 <= i < s.len(),
    ensures
        hits(s.subrange(0, i + 1), rect) == if rect.covers(s[i].x as int, s[i].y as int) {
            hits(s.subrange(0, i), rect).push((s[i].series, s[i].index))
        } else {
            hits(s.subrange(0, i), rect)
        },
{
    assert(s.subrange(0, i + 1).drop_last() =~= s.subrange(0, i));
}

proof fn lemma_hits_skip<S>(s: Seq<Slot<S>>, a: int, b: int, rect: Rect)
    requires
        0 <= a <= b <= s.len(),
        forall|k: int| a <= k < b ==> !rect.covers(#[trigger] s[k].x as int, s[k].y as int),
    ensures
        hits(s.subrange(0, b), rect) == hits(s.subrange(0, a), rect),
    decreases b - a,
{
    if a < b {
        lemma_hits_skip(s, a, b - 1, rect);
        lemma_hits_step(s, b - 1, rect);
    }
}

/// An index of item positions, answering which items lie in a pixel
/// rectangle. The items are kept ordered by column, then by row, and each
/// position holds at most one item: the first one added there.
pub struct Items<S> {
    slots: Vec<Slot<S>>,
    cells: Ghost<Map<(int, int), (S, usize)>>,
}

impl<S: Copy> Items<S> {
    /// The indexed items, ordered by column and then by row.
    pub closed spec fn slots(self) -> Seq<Slot<S>> {
        self.slots@
    }

    /// The item held at each occupied position.
    pub closed spec fn cells(self) -> Map<(int, int), (S, usize)> {
        self.cells@
    }

    pub closed spec fn wf(self) -> bool {
        &&& strictly_sorted(self.slots@)
        &&& forall|i: int|
            0 <= i < self.slots@.len() ==> {
                let e = #[trigger] self.slots@[i];
                &&& self.cells@.contains_key((e.x as int, e.y as int))
                &&& self.cells@[(e.x as int, e.y as int)] == (e.series, e.index)
            }
        &&& forall|k: (int, int)|
            #[trigger] self.cells@.contains_key(k) ==> exists|i: int|
                0 <= i < self.slots@.len() && k == (self.slots@[i].x as int, self.slots@[i].y as int)
    }

    pub fn new() -> (r: Items<S>)
        ensures
            r.wf(),
            r.cells() == Map::<(int, int), (S, usize)>::empty(),
            r.slots() == Seq::<Slot<S>>::empty(),
    {
        Items { slots: Vec::new(), cells: Ghost(Map::empty()) }
    }

    pub fn len(&self) -> (r: usize)
        ensures
            r == self.slots().len(),
    {
        self.slots.len()
    }

    /// First index in `lo..hi` whose position is not below `(kx, ky)`,
    /// or `hi` when there is none.
    fn lower_bound(&self, lo: usize, hi: usize, kx: i64, ky: i64) -> (r: usize)
        requires
            self.wf(),
            lo <= hi <= self.slots@.len(),
        ensures
            lo <= r <= hi,
            forall|i: int|
                lo <= i < r ==> key_lt(
                    #[trigger] self.slots@[i].x as int,
                    self.slots@[i].y as int,
                    kx as int,
                    ky as int,
                ),
            forall|i: int|
                r <= i < hi ==> !key_lt(
                    #[trigger] self.slots@[i].x as int,
                    self.slots@[i].y as int,
                    kx as int,
                    ky as int,
                ),
    {
        let mut a = lo;
        let mut b = hi;
        while a < b
            invariant
                self.wf(),
                lo <= a <= b <= hi <= self.slots@.len(),
                forall|i: int|
                    lo <= i < a ==> key_lt(
                        #[trigger] self.slots@[i].x as int,
                        self.slots@[i].y as int,
                        kx as int,
                        ky as int,
                    ),
                forall|i: int|
                    b <= i < hi ==> !key_lt(
                        #[trigger] self.slots@[i].x as int,
                        self.slots@[i].y as int,
                        kx as int,
                        ky as int,
                    ),
            decreases b - a,
        {
            let m = a + (b - a) / 2;
            let e = &self.slots[m];
            let below = (e.x as i64) < kx || ((e.x as i64) == kx && (e.y as i64) < ky);
            if below {
                proof {
                    assert forall|i: int| lo <= i < m + 1 implies key_lt(
                        #[trigger] self.slots@[i].x as int,
                        self.slots@[i].y as int,
                        kx as int,
                        ky as int,
                    ) by {
                        if i < m {
                            assert(slot_lt(self.slots@[i], self.slots@[m as int]));
                        }
                    }
                }
                a = m + 1;
            } else {
                proof {
                    assert forall|i: int| m <= i < hi implies !key_lt(
                        #[trigger] self.slots@[i].x as int,
                        self.slots@[i].y as int,
                        kx as int,
                        ky as int,
                    ) by {
                        if i > m {
                            assert(slot_lt(self.slots@[m as int], self.slots@[i]));
                        }
                    }
                }
                b = m;
            }
        }
        a
    }

    /// Adds `series` at `(x, y)` unless that position already holds an item.
    fn insert(&mut self, x: i32, y: i32, series: S, index: usize)
        requires
            old(self).wf(),
        ensures
            final(self).wf(),
            final(self).cells() == if old(self).cells().contains_key((x as int, y as int)) {
                old(self).cells()
            } else {
                old(self).cells().insert((x as int, y as int), (series, index))
            },
    {
        let n = self.slots.len();
        let pos = self.lower_bound(0, n, x as i64, y as i64);
        let ghost k = (x as int, y as int);
        if pos < n && self.slots[pos].x == x && self.slots[pos].y == y {
            return;
        }
        proof {
            if self.cells@.contains_key(k) {
                let i = choose|i: int|
                    0 <= i < self.slots@.len() && k == (
                        self.slots@[i].x as int,
                        self.slots@[i].y as int,
                    );
                if i < pos {
                    assert(key_lt(
                        self.slots@[i].x as int,
                        self.slots@[i].y as int,
                        x as int,
                        y as int,
                    ));
                } else if i > pos {
                    assert(slot_lt(self.slots@[pos as int], self.slots@[i]));
                }
            }
        }
        let ghost s0 = self.slots@;
        let ghost c0 = self.cells@;
        let e = Slot { x, y, series, index };
        self.slots.insert(pos, e);
        self.cells = Ghost(c0.insert(k, (series, index)));
        proof {
            let s1 = self.slots@;
            assert(s1 == s0.insert(pos as int, e));
            assert forall|i: int, j: int| 0 <= i < j < s1.len() implies #[trigger] slot_lt(
                s1[i],
                s1[j],
            ) by {
                if j < pos {
                    assert(slot_lt(s0[i], s0[j]));
                } else if j == pos {
                    assert(key_lt(s0[i].x as int, s0[i].y as int, x as int, y as int));
                } else if i < pos {
                    assert(slot_lt(s0[i], s0[j - 1]));
                } else if i == pos {
                    assert(!key_lt(s0[j - 1].x as int, s0[j - 1].y as int, x as int, y as int));
                    if j - 1 > pos {
                        assert(slot_lt(s0[pos as int], s0[j - 1]));
                    }
                } else {
                    assert(slot_lt(s0[i - 1], s0[j - 1]));
                }
            }
            assert forall|i: int| 0 <= i < s1.len() implies {
                let e = #[trigger] s1[i];
                &&& self.cells@.contains_key((e.x as int, e.y as int))
                &&& self.cells@[(e.x as int, e.y as int)] == (e.series, e.index)
            } by {
                if i < pos {
                    assert(s1[i] == s0[i]);
                    assert(slot_lt(s0[i], s1[pos as int]) || key_lt(
                        s0[i].x as int,
                        s0[i].y as int,
                        x as int,
                        y as int,
                    ));
                } else if i > pos {
                    assert(s1[i] == s0[i - 1]);
                    assert(!key_lt(s0[i - 1].x as int, s0[i - 1].y as int, x as int, y as int));
                    if i - 1 > pos {
                        assert(slot_lt(s0[pos as int], s0[i - 1]));
                    }
                }
            }
            assert forall|q: (int, int)| #[trigger] self.cells@.contains_key(q) implies exists|i: int|
                0 <= i < s1.len() && q == (s1[i].x as int, s1[i].y as int) by {
                if q == k {
                    assert(q == (s1[pos as int].x as int, s1[pos as int].y as int));
                } else {
                    assert(c0.contains_key(q));
                    let i = choose|i: int|
                        0 <= i < s0.len() && q == (s0[i].x as int, s0[i].y as int);
                    if i < pos {
                        assert(q == (s1[i].x as int, s1[i].y as int));
                    } else {
                        assert(q == (s1[i + 1].x as int, s1[i + 1].y as int));
                    }
                }
            }
        }
    }

    /// Indexes the pixel positions of one series: the i-th position under
    /// `(id, i)`. A position that already holds an item keeps it.
    pub fn add_series(&mut self, id: S, series: &Vec<Point>)
        requires
            old(self).wf(),
        ensures
            final(self).wf(),
            final(self).cells() == add_points(old(self).cells(), id, series@),
    {
        let ghost c0 = self.cells();
        let mut index: usize = 0;
        while index < series.len()
            invariant
                self.wf(),
                index <= series@.len(),
                self.cells() == add_points(c0, id, series@.subrange(0, index as int)),
            decreases series@.len() - index,
        {
            let p = series[index];
            proof {
                let pre = series@.subrange(0, index as int + 1);
                assert(pre.drop_last() =~= series@.subrange(0, index as int));
            }
            self.insert(p.x, p.y, id, index);
            index += 1;
        }
        assert(series@.subrange(0, series@.len() as int) =~= series@);
    }

    /// The items whose position lies in `rect`, by column and then by row
    /// (not by distance to the rectangle's center).
    pub fn collision(&self, rect: Rect) -> (r: Vec<(S, usize)>)
        requires
            self.wf(),
        ensures
            r@ == hits(self.slots(), rect),
    {
        let ghost s = self.slots@;
        let n = self.slots.len();
        let x_end: i64 = rect.x as i64 + rect.width as i64;
        let y_end: i64 = rect.y as i64 + rect.height as i64;
        let mut items: Vec<(S, usize)> = Vec::new();
        let mut i = self.lower_bound(0, n, rect.x as i64, i32::MIN as i64);
        proof {
            lemma_hits_skip(s, 0, i as int, rect);
            assert(s.subrange(0, 0) =~= Seq::<Slot<S>>::empty());
        }
        while i < n && (self.slots[i].x as i64) < x_end
            invariant
                self.wf(),
                s == self.slots@,
                n == s.len(),
                x_end == rect.x + rect.width,
                y_end == rect.y + rect.height,
                i <= n,
                i < n ==> rect.x <= s[i as int].x,
                items@ == hits(s.subrange(0, i as int), rect),
            decreases n - i,
        {
            let cx = self.slots[i].x;
            let col_end = self.lower_bound(i, n, cx as i64 + 1, i32::MIN as i64);
            assert(i < col_end);
            assert forall|k: int| i <= k < col_end implies #[trigger] s[k].x == cx by {
                if k > i {
                    assert(slot_lt(s[i as int], s[k]));
                }
            }
            let mut j = self.lower_bound(i, col_end, cx as i64, rect.y as i64);
            proof {
                lemma_hits_skip(s, i as int, j as int, rect);
            }
            while j < col_end && (self.slots[j].y as i64) < y_end
                invariant
                    self.wf(),
                    s == self.slots@,
                    n == s.len(),
                    x_end == rect.x + rect.width,
                    y_end == rect.y + rect.height,
                    i <= j <= col_end <= n,
                    forall|k: int| i <= k < col_end ==> #[trigger] s[k].x == cx,
                    rect.x <= cx < x_end,
                    forall|k: int| j <= k < col_end ==> rect.y <= #[trigger] s[k].y,
                    items@ == hits(s.subrange(0, j as int), rect),
                decreases col_end - j,
            {
                let e = &self.slots[j];
                proof {
                    assert(s[j as int].x == cx);
                    assert(rect.y <= s[j as int].y);
                    assert(rect.covers(s[j as int].x as int, s[j as int].y as int));
                    lemma_hits_step(s, j as int, rect);
                }
                let item = (e.series, e.index);
                assert(item == (s[j as int].series, s[j as int].index));
                items.push(item);
                j += 1;
            }
            proof {
                assert forall|k: int| j <= k < col_end implies !rect.covers(
                    #[trigger] s[k].x as int,
                    s[k].y as int,
                ) by {
                    if k > j {
                        assert(slot_lt(s[j as int], s[k]));
                    }
                }
                lemma_hits_skip(s, j as int, col_end as int, rect);
                if col_end < n {
                    assert(!key_lt(s[col_end as int].x as int, s[col_end as int].y as int, cx + 1, i32::MIN as int));
                }
            }
            i = col_end;
        }
        proof {
            assert forall|k: int| i <= k < n implies !rect.covers(
                #[trigger] s[k].x as int,
                s[k].y as int,
            ) by {
                if k > i {
                    assert(slot_lt(s[i as int], s[k]));
                }
            }
            lemma_hits_skip(s, i as int, n as int, rect);
            assert(s.subrange(0, n as int) =~= s);
        }
        items
    }

    /// The ordered items enumerate the occupied positions: strictly by
    /// column and then by row, each with the item held there, and every
    /// occupied position appears.
    pub proof fn lemma_slots_enumerate_cells(self)
        requires
            self.wf(),
        ensures
            strictly_sorted(self.slots()),
            forall|i: int|
                0 <= i < self.slots().len() ==> {
                    let e = #[trigger] self.slots()[i];
                    &&& self.cells().contains_key((e.x as int, e.y as int))
                    &&& self.cells()[(e.x as int, e.y as int)] == (e.series, e.index)
                },
            forall|k: (int, int)|
                #[trigger] self.cells().contains_key(k) ==> exists|i: int|
                    0 <= i < self.slots().len() && k == (
                        self.slots()[i].x as int,
                        self.slots()[i].y as int,
                    ),
    {
    }
}

} // verus!
