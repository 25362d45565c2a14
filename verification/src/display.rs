//! The layout choices of the board's drawing on a terminal: how far from the
//! left edge it starts and which colour each cell is drawn in.
use vstd::prelude::*;

use crate::board::WIDTH;

verus! {

/// The colour a cell is drawn in.
#[derive(Debug, Clone, Copy, PartialEq, Eq)]
pub enum Shade {
    Red,
    Yellow,
    LightBlue,
}

/// The width in columns of the drawn board: eleven cells of six columns
/// (one for the row labels).
pub open spec fn drawing_width() -> int {
    (WIDTH + 1) * 6
}

/// How many columns of blank precede the drawing so that it stands in the
/// middle of a terminal `terminal_width` columns wide: half the terminal's
/// width less half the drawing's.
pub fn board_margin(terminal_width: u16) -> (r: usize)
    requires
        terminal_width / 2 >= drawing_width() / 2,
    ensures
        r == terminal_width / 2 - drawing_width() / 2,
{
    terminal_width as usize / 2 - (WIDTH + 1) * 6 / 2
}

/// The colour a cell of the board text is drawn in: a shot (`'X'`) in red, a
/// ship (`'S'`) in yellow, anything else in light blue.
pub open spec fn shade_of(c: char) -> Shade {
    if c == 'X' {
        Shade::Red
    } else if c == 'S' {
        Shade::Yellow
    } else {
        Shade::LightBlue
    }
}

/// The colour a cell of the board text is drawn in.
pub fn cell_shade(c: char) -> (r: Shade)
    ensures
        r == shade_of(c),
{
    match c {
        'X' => Shade::Red,
        'S' => Shade::Yellow,
        _ => Shade::LightBlue,
    }
}

} // verus!
