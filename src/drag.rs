use vstd::prelude::*;

use crate::geometry::Point;

verus! {

/// A movement of a dragged item between two cursor positions.
#[derive(Clone, Copy, Debug, PartialEq, Eq, Structural)]
pub struct Pan {
    pub item: usize,
    pub dx: i64,
    pub dy: i64,
}

/// What a release of the pointer ended.
#[derive(Clone, Copy, Debug, PartialEq, Eq, Structural)]
pub enum Release {
    /// No item was pressed.
    Ignored,
    /// The item was pressed and released without the pointer moving.
    Click(usize),
    /// The item was dragged; the last movement before the release.
    DragEnd(Pan),
}

/// Telling a click from a drag: a press on an item may still be a click
/// until the pointer moves away from where it was pressed.
#[derive(Clone, Copy, Debug, PartialEq, Eq, Structural)]
pub enum Drag {
    Idle,
    PossibleClick { item: usize, origin: Point },
    Dragging { item: usize, last: Point },
}

pub open spec fn pan_spec(item: usize, from: Point, to: Point) -> Pan {
    Pan { item, dx: (to.x - from.x) as i64, dy: (to.y - from.y) as i64 }
}

fn pan(item: usize, from: Point, to: Point) -> (r: Pan)
    ensures
        r == pan_spec(item, from, to),
{
    Pan { item, dx: to.x as i64 - from.x as i64, dy: to.y as i64 - from.y as i64 }
}

impl Drag {
    /// A press at `pos`, on `item` if one lies under the pointer. Only an
    /// idle state with an item under the pointer starts anything.
    pub fn press(&mut self, item: Option<usize>, pos: Point)
        ensures
            *final(self) == match (*old(self), item) {
                (Drag::Idle, Some(i)) => Drag::PossibleClick { item: i, origin: pos },
                _ => *old(self),
            },
    {
        if let (Drag::Idle, Some(i)) = (*self, item) {
            *self = Drag::PossibleClick { item: i, origin: pos };
        }
    }

    /// The pointer moved to `pos`; returns the movement of the dragged item,
    /// if any. Staying where the press happened keeps a possible click.
    pub fn moved(&mut self, pos: Point) -> (r: Option<Pan>)
        ensures
            match *old(self) {
                Drag::Idle => r is None && *final(self) == Drag::Idle,
                Drag::PossibleClick { item, origin } => if pos == origin {
                    r is None && *final(self) == *old(self)
                } else {
                    r == Some(pan_spec(item, origin, pos)) && *final(self) == (Drag::Dragging {
                        item,
                        last: pos,
                    })
                },
                Drag::Dragging { item, last } => r == Some(pan_spec(item, last, pos))
                    && *final(self) == (Drag::Dragging { item, last: pos }),
            },
    {
        match *self {
            Drag::Idle => None,
            Drag::PossibleClick { item, origin } => {
                if pos == origin {
                    None
                } else {
                    *self = Drag::Dragging { item, last: pos };
                    Some(pan(item, origin, pos))
                }
            },
            Drag::Dragging { item, last } => {
                *self = Drag::Dragging { item, last: pos };
                Some(pan(item, last, pos))
            },
        }
    }

    /// The pointer was released at `pos`; the state returns to idle.
    pub fn release(&mut self, pos: Point) -> (r: Release)
        ensures
            *final(self) == Drag::Idle,
            r == match *old(self) {
                Drag::Idle => Release::Ignored,
                Drag::PossibleClick { item, .. } => Release::Click(item),
                Drag::Dragging { item, last } => Release::DragEnd(pan_spec(item, last, pos)),
            },
    {
        let r = match *self {
            Drag::Idle => Release::Ignored,
            Drag::PossibleClick { item, .. } => Release::Click(item),
            Drag::Dragging { item, last } => Release::DragEnd(pan(item, last, pos)),
        };
        *self = Drag::Idle;
        r
    }
}

impl Default for Drag {
    fn default() -> (r: Drag)
        ensures
            r == Drag::Idle,
    {
        Drag::Idle
    }
}

} // verus!
