use vstd::prelude::*;

verus! {

/// The pieces of the frame drawn around the grid.
#[derive(Copy, Clone, Debug, PartialEq, Eq, Structural)]
pub enum BorderChars {
    TopLeft,
    TopRight,
    BottomLeft,
    BottomRight,
    Vertical,
    Horizontal,
}

/// The box-drawing character of each frame piece.
pub open spec fn border_glyph(b: BorderChars) -> char {
    match b {
        BorderChars::TopLeft => '\u{250c}',
        BorderChars::TopRight => '\u{2510}',
        BorderChars::BottomLeft => '\u{2514}',
        BorderChars::BottomRight => '\u{2518}',
        BorderChars::Vertical => '\u{2502}',
        BorderChars::Horizontal => '\u{2500}',
    }
}

/// The frame piece at `(row, col)` of a `height` by `width` grid, if any.
/// A cell that is on both the top and the bottom row, or on both the left
/// and the right column, gets none.
pub open spec fn border_at(row: int, col: int, height: int, width: int) -> Option<BorderChars> {
    let top = row == 0;
    let bottom = row == height - 1;
    let left = col == 0;
    let right = col == width - 1;
    if top && bottom || left && right {
        None
    } else if top || bottom {
        if left {
            Some(if top { BorderChars::TopLeft } else { BorderChars::BottomLeft })
        } else if right {
            Some(if top { BorderChars::TopRight } else { BorderChars::BottomRight })
        } else {
            Some(BorderChars::Horizontal)
        }
    } else if left || right {
        Some(BorderChars::Vertical)
    } else {
        None
    }
}

impl BorderChars {
    /// The box-drawing character of this piece.
    pub fn glyph(&self) -> (r: char)
        ensures
            r == border_glyph(*self),
    {
        match self {
            BorderChars::TopLeft => '\u{250c}',
            BorderChars::TopRight => '\u{2510}',
            BorderChars::BottomLeft => '\u{2514}',
            BorderChars::BottomRight => '\u{2518}',
            BorderChars::Vertical => '\u{2502}',
            BorderChars::Horizontal => '\u{2500}',
        }
    }
}

} // verus!
