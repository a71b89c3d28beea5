use vstd::prelude::*;

verus! {

/// Horizontal placement of a line relative to the position passed to the draw call.
#[derive(Debug, Clone, Copy, PartialEq, Eq, Structural, Default)]
pub enum TextAlign {
    /// The position is the left edge of the line.
    #[default]
    Left,
    /// The position is the horizontal center of the line.
    Center,
    /// The position is the right edge of the line.
    Right,
}

} // verus!
