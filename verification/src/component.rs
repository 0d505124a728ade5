//! The component kinds that an entity can carry. Each is a plain value.

use vstd::prelude::*;

verus! {

/// Handle of an entity. Handles are handed out in ascending order and carry
/// no data of their own.
pub type EntityId = u32;

/// Top-left corner of an entity's rectangle, in the coordinate space of the
/// pointer.
#[derive(Clone, Copy, Debug, PartialEq, Eq, Structural)]
pub struct Position {
    pub x: i64,
    pub y: i64,
}

/// Extent of an entity's rectangle, to the right of and below its position.
#[derive(Clone, Copy, Debug, PartialEq, Eq, Structural)]
pub struct Size {
    pub width: u32,
    pub height: u32,
}

impl Size {
    /// A size is meant to be positive both ways. One that is not spans a
    /// line or a point.
    pub open spec fn positive(self) -> bool {
        self.width > 0 && self.height > 0
    }
}

/// Whether the rectangle at `pos` of extent `size` holds the point `(x, y)`,
/// its four edges included.
pub open spec fn rect_holds(pos: Position, size: Size, x: int, y: int) -> bool {
    &&& pos.x <= x <= pos.x + size.width
    &&& pos.y <= y <= pos.y + size.height
}

/// An opaque colour of three 8-bit channels.
#[derive(Clone, Copy, Debug, PartialEq, Eq, Structural)]
pub struct Color {
    pub r: u8,
    pub g: u8,
    pub b: u8,
}

impl Color {
    /// The colour every cell starts with.
    pub open spec fn spec_white() -> Color {
        Color { r: 255, g: 255, b: 255 }
    }

    #[verifier::when_used_as_spec(spec_white)]
    pub fn white() -> (c: Color)
        ensures
            c == Color::spec_white(),
    {
        Color { r: 255, g: 255, b: 255 }
    }

    /// The colour with each channel replaced by its distance from 255.
    pub open spec fn spec_inverted(self) -> Color {
        Color { r: (255 - self.r) as u8, g: (255 - self.g) as u8, b: (255 - self.b) as u8 }
    }

    #[verifier::when_used_as_spec(spec_inverted)]
    pub fn inverted(self) -> (c: Color)
        ensures
            c == self.spec_inverted(),
            c.r == 255 - self.r,
            c.g == 255 - self.g,
            c.b == 255 - self.b,
    {
        Color { r: 255 - self.r, g: 255 - self.g, b: 255 - self.b }
    }

    /// Inverting twice gives the colour back.
    pub proof fn lemma_inverted_twice(self)
        ensures
            self.inverted().inverted() == self,
    {
    }
}

} // verus!
