//! Placement component: a position, an anchor mode, and a width used for
//! anchor-centering math.

use vstd::prelude::*;

verus! {

/// Largest coordinate magnitude the anchor math accepts; keeps every
/// intermediate sum well inside the `i64` range.
pub const COORD_LIMIT: i64 = 1_000_000_000_000;

/// A point in pixel space, y growing downwards from the top-left corner.
#[derive(Clone, Copy, PartialEq, Eq, Structural, Debug)]
pub struct Position {
    pub x: i64,
    pub y: i64,
}

/// The reference point of a placement, relative to a viewport the store does
/// not own.
#[derive(Clone, Copy, PartialEq, Eq, Structural, Debug)]
pub enum Anchor {
    TopLeft,
    TopMiddle,
}

/// Where a text block is placed: a position offset from the anchor, and the
/// block width that anchor-centering divides in half.
#[derive(Clone, Copy, PartialEq, Eq, Structural, Debug)]
pub struct TransformComponent {
    /// The position of the transform, offset from its anchor.
    pub position: Position,
    pub anchor: Anchor,
    pub width: i64,
}

pub open spec fn position_bounded(p: Position) -> bool {
    &&& -COORD_LIMIT <= p.x <= COORD_LIMIT
    &&& -COORD_LIMIT <= p.y <= COORD_LIMIT
}

impl TransformComponent {
    /// A transform at the origin, one hundred pixels wide, anchored top-left.
    pub fn new() -> (t: TransformComponent)
        ensures
            t.position == (Position { x: 0, y: 0 }),
            t.width == 100,
            t.anchor == Anchor::TopLeft,
    {
        let position = Position { x: 0, y: 0 };
        TransformComponent { position, width: 100, anchor: Anchor::TopLeft }
    }

    /// The position of the transform from the top-left corner of the
    /// viewport: a `TopMiddle` anchor centers the block of `self.width`
    /// around the viewport's vertical midline, halves rounding down.
    pub fn absolute_position(&self, viewport_width: i64) -> (p: Position)
        requires
            position_bounded(self.position),
            0 <= self.width <= COORD_LIMIT,
            0 <= viewport_width <= COORD_LIMIT,
        ensures
            self.anchor == Anchor::TopMiddle ==> p.x == self.position.x + viewport_width / 2
                - self.width / 2 && p.y == self.position.y,
            self.anchor == Anchor::TopLeft ==> p == self.position,
    {
        match self.anchor {
            Anchor::TopMiddle => {
                let half_viewport = viewport_width / 2;
                let half_width = self.width / 2;
                Position { x: self.position.x + half_viewport - half_width, y: self.position.y }
            },
            Anchor::TopLeft => self.position,
        }
    }
}

} // verus!
