use vstd::prelude::*;

use crate::cartesian::Plane;
use crate::geometry::{DataPoint, Point, Rect};
use crate::items::{hits, Items};

verus! {

/// Mouse buttons.
#[derive(Clone, Copy, Debug, PartialEq, Eq, Structural)]
pub enum Button {
    Left,
    Right,
    Middle,
    Other,
}

/// How far a wheel turned, in lines or in pixels, with `PIXEL_ONE` units
/// to a line or a pixel.
#[derive(Clone, Copy, Debug, PartialEq, Eq, Structural)]
pub enum ScrollDelta {
    Lines { x: i32, y: i32 },
    Pixels { x: i32, y: i32 },
}

/// The input events a chart reacts to. Mouse and touch events that mean the
/// same thing are told apart only here.
#[derive(Clone, Copy, Debug, PartialEq, Eq, Structural)]
pub enum Event {
    ButtonPressed(Button),
    ButtonReleased(Button),
    CursorMoved,
    FingerPressed,
    FingerMoved,
    FingerLifted,
    WheelScrolled(ScrollDelta),
    Other,
}

/// The kind of callback an event triggers.
#[derive(Clone, Copy, Debug, PartialEq, Eq, Structural)]
pub enum Interaction {
    Press,
    Release,
    Move,
    Scroll,
}

/// Which callbacks are registered.
#[derive(Clone, Copy, Debug, PartialEq, Eq, Structural)]
pub struct Handlers {
    pub press: bool,
    pub release: bool,
    pub moves: bool,
    pub scroll: bool,
}

pub open spec fn is_press(e: Event) -> bool {
    e == Event::ButtonPressed(Button::Left) || e == Event::FingerPressed
}

pub open spec fn is_release(e: Event) -> bool {
    e == Event::ButtonReleased(Button::Left) || e == Event::FingerLifted
}

pub open spec fn is_move(e: Event) -> bool {
    e == Event::CursorMoved || e == Event::FingerMoved
}

/// The callback that `e` triggers: the first registered one, in the order
/// press, release, move, scroll, whose trigger matches.
pub open spec fn dispatch(e: Event, h: Handlers) -> Option<Interaction> {
    if h.press && is_press(e) {
        Some(Interaction::Press)
    } else if h.release && is_release(e) {
        Some(Interaction::Release)
    } else if h.moves && is_move(e) {
        Some(Interaction::Move)
    } else if h.scroll && e is WheelScrolled {
        Some(Interaction::Scroll)
    } else {
        None
    }
}

pub fn dispatch_of(e: Event, h: Handlers) -> (r: Option<Interaction>)
    ensures
        r == dispatch(e, h),
{
    let press = match e {
        Event::ButtonPressed(Button::Left) | Event::FingerPressed => true,
        _ => false,
    };
    let release = match e {
        Event::ButtonReleased(Button::Left) | Event::FingerLifted => true,
        _ => false,
    };
    let moved = match e {
        Event::CursorMoved | Event::FingerMoved => true,
        _ => false,
    };
    let scrolled = match e {
        Event::WheelScrolled(_) => true,
        _ => false,
    };
    if h.press && press {
        Some(Interaction::Press)
    } else if h.release && release {
        Some(Interaction::Release)
    } else if h.moves && moved {
        Some(Interaction::Move)
    } else if h.scroll && scrolled {
        Some(Interaction::Scroll)
    } else {
        None
    }
}

/// What a chart keeps between layout, drawing and events: the plane of the
/// last layout, the cursor position relative to the widget and the one
/// before it, the last wheel movement, and the index of identified items.
pub struct State<S> {
    pub plane: Option<Plane>,
    pub prev_position: Option<Point>,
    pub cursor_position: Option<Point>,
    pub scroll_delta: Option<ScrollDelta>,
    pub items: Items<S>,
    pub pick_box: Rect,
}

impl<S: Copy> State<S> {
    pub open spec fn wf(self) -> bool {
        &&& self.items.wf()
        &&& self.plane matches Some(p) ==> p.wf()
    }

    pub fn new() -> (r: State<S>)
        ensures
            r.wf(),
            r.plane is None,
            r.prev_position is None,
            r.cursor_position is None,
            r.scroll_delta is None,
            r.items.cells().is_empty(),
    {
        State {
            plane: None,
            prev_position: None,
            cursor_position: None,
            scroll_delta: None,
            items: Items::new(),
            pick_box: Rect { x: 0, y: 0, width: 0, height: 0 },
        }
    }

    /// Handles an event at the absolute cursor position `cursor` for a widget
    /// occupying `bounds`, and returns the callback to invoke.
    ///
    /// Nothing happens without a cursor position, before the first layout or
    /// with the cursor outside `bounds`. Otherwise the cursor moves (relative
    /// to the widget), a wheel movement is recorded when it triggers the
    /// scroll callback, and the matching callback is returned.
    pub fn on_event(&mut self, event: Event, cursor: Option<Point>, bounds: Rect, handlers: Handlers) -> (r:
        Option<Interaction>)
        requires
            old(self).wf(),
        ensures
            final(self).wf(),
            final(self).plane == old(self).plane,
            final(self).items == old(self).items,
            final(self).pick_box == old(self).pick_box,
            match cursor {
                Some(c) if old(self).plane is Some && bounds.covers(c.x as int, c.y as int) => {
                    &&& r == dispatch(event, handlers)
                    &&& final(self).prev_position == old(self).cursor_position
                    &&& final(self).cursor_position == Some(
                        Point { x: (c.x - bounds.x) as i32, y: (c.y - bounds.y) as i32 },
                    )
                    &&& final(self).scroll_delta == match (r, event) {
                        (Some(Interaction::Scroll), Event::WheelScrolled(d)) => Some(d),
                        _ => old(self).scroll_delta,
                    }
                },
                _ => {
                    &&& r is None
                    &&& final(self).prev_position == old(self).prev_position
                    &&& final(self).cursor_position == old(self).cursor_position
                    &&& final(self).scroll_delta == old(self).scroll_delta
                },
            },
    {
        let c = match cursor {
            Some(c) => c,
            None => return None,
        };
        if self.plane.is_none() || !bounds.contains(c) {
            return None;
        }
        self.prev_position = self.cursor_position;
        self.cursor_position = Some(Point { x: c.x - bounds.x, y: c.y - bounds.y });
        let r = dispatch_of(event, handlers);
        if let Some(Interaction::Scroll) = r {
            if let Event::WheelScrolled(d) = event {
                self.scroll_delta = Some(d);
            }
        }
        r
    }

    pub fn get_cursor_position(&self) -> (r: Option<Point>)
        ensures
            r == self.cursor_position,
    {
        self.cursor_position
    }

    /// Data coordinates under the cursor.
    pub fn get_coords(&self) -> (r: Option<DataPoint>)
        requires
            self.wf(),
        ensures
            r == match (self.plane, self.cursor_position) {
                (Some(p), Some(c)) => Some(p.data_of(c)),
                _ => None,
            },
    {
        match (&self.plane, self.cursor_position) {
            (Some(p), Some(c)) => Some(p.get_cartesian(c)),
            _ => None,
        }
    }

    /// Data coordinates under the cursor, relative to the middle of the
    /// visible ranges.
    pub fn get_offset(&self) -> (r: Option<DataPoint>)
        requires
            self.wf(),
        ensures
            r == match (self.plane, self.cursor_position) {
                (Some(p), Some(c)) => Some(p.offset_of(c)),
                _ => None,
            },
    {
        match (&self.plane, self.cursor_position) {
            (Some(p), Some(c)) => Some(p.get_offset(c)),
            _ => None,
        }
    }

    pub fn scroll_delta(&self) -> (r: Option<ScrollDelta>)
        ensures
            r == self.scroll_delta,
    {
        self.scroll_delta
    }

    /// The rectangle around the cursor in which items are picked.
    pub open spec fn pick_rect(self, c: Point) -> Rect {
        Rect {
            x: crate::num::saturate(c.x + self.pick_box.x) as i32,
            y: crate::num::saturate(c.y + self.pick_box.y) as i32,
            width: self.pick_box.width,
            height: self.pick_box.height,
        }
    }

    /// The identified items under the cursor, by column and then by row.
    pub fn items(&self) -> (r: Option<Vec<(S, usize)>>)
        requires
            self.wf(),
        ensures
            match self.cursor_position {
                Some(c) => r matches Some(v) && v@ == hits(self.items.slots(), self.pick_rect(c)),
                None => r is None,
            },
    {
        match self.cursor_position {
            Some(c) => {
                let rect = Rect {
                    x: crate::num::saturate_i32(c.x as i128 + self.pick_box.x as i128),
                    y: crate::num::saturate_i32(c.y as i128 + self.pick_box.y as i128),
                    width: self.pick_box.width,
                    height: self.pick_box.height,
                };
                Some(self.items.collision(rect))
            },
            None => None,
        }
    }
}

} // verus!
