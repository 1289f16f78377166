//! Draw commands handed to the host display.
use vstd::prelude::*;

verus! {

/// Colors used by the game.
#[derive(Clone, Copy, Debug, PartialEq, Eq)]
pub enum Color {
    Red,
    Black,
    Navy,
    Yellow,
}

/// Lines of text the game prints; the host chooses their wording.
#[derive(Clone, Copy, Debug, PartialEq, Eq)]
pub enum Line {
    Title,
    PlayOption,
    QuitOption,
    FlapHint,
    Score(i32),
    Dead,
    Earned(i32),
    PlayAgain,
}

/// One command for the display: a grid of cells, `x` the column and `y` the
/// row.
#[derive(Clone, Copy, Debug, PartialEq, Eq)]
pub enum Draw {
    /// Clear the screen.
    Clear,
    /// Clear the screen to a background color.
    ClearTo(Color),
    /// Set one cell to a glyph (a code page 437 index) in the given colors.
    Cell { x: i32, y: i32, fg: Color, bg: Color, glyph: u16 },
    /// Print a line of text starting at a cell.
    Text { x: i32, y: i32, line: Line },
    /// Print a line of text centered on a row.
    Centered { y: i32, line: Line },
}

/// The code page 437 index of a character, as the display's font lays it out.
pub uninterp spec fn cp437_of(c: char) -> u16;

/// Relies on bracket_lib's `to_cp437`: a fixed table from characters to glyph
/// indices.
#[verifier::external_body]
pub(crate) fn glyph(c: char) -> (r: u16)
    ensures
        r == cp437_of(c),
{
    bracket_lib::prelude::to_cp437(c)
}

} // verus!
