use vstd::prelude::*;

verus! {

/// Horizontal placement of an overlay text.
#[derive(Debug, Clone, Copy, PartialEq, Eq, Structural, Hash)]
pub enum HorizontalPosition {
    Left,
    Center,
    Right,
}

/// Vertical placement of an overlay text.
#[derive(Debug, Clone, Copy, PartialEq, Eq, Structural, Hash)]
pub enum VerticalPosition {
    Top,
    Center,
    Bottom,
}

/// Placement of an overlay text on the screen.
#[derive(Debug, Clone, Copy, PartialEq, Eq, Structural, Hash)]
pub struct Position(pub HorizontalPosition, pub VerticalPosition);

impl Position {
    pub fn new(h: HorizontalPosition, v: VerticalPosition) -> (r: Self)
        ensures
            r.0 == h,
            r.1 == v,
    {
        Self(h, v)
    }
}

} // verus!
