//! The board's geometry: its size, the kinds of ships and how a ship placed
//! at a position covers the cells of the board.
use vstd::prelude::*;

verus! {

/// Number of columns of a board.
pub const WIDTH: usize = 10;

/// Number of rows of a board.
pub const HEIGHT: usize = 10;

/// Number of cells of a board: `WIDTH * HEIGHT`.
pub const BOARD_CELLS: usize = 100;

/// How many ships of each kind a fleet holds.
pub const CARRIER: usize = 1;
pub const BATTLESHIP: usize = 1;
pub const CRUISER: usize = 0;
pub const DESTROYER: usize = 0;

/// Number of ship cells a complete fleet covers.
pub const N_SHIPS: usize = 9;

/// Number of ships a complete fleet holds.
pub const SHIP_COUNT: usize = 2;

/// Which way a ship extends from its first cell: `Vertical` goes down the
/// rows, `Horizontal` goes along the columns.
#[derive(Debug, Clone, Copy)]
pub enum Orientation {
    Vertical,
    Horizontal,
}

/// The kinds of ships.
#[derive(Debug, Clone, Copy)]
pub enum Ships {
    Carrier,
    Battleship,
    Cruiser,
    Destroyer,
}

/// Where a ship starts (row `x`, column `y`) and which way it extends.
#[derive(Debug, Clone, Copy)]
pub struct Position {
    pub x: usize,
    pub y: usize,
    pub orientation: Orientation,
}

/// The number of cells a ship of the given kind covers.
pub open spec fn ship_len(ship: Ships) -> nat {
    match ship {
        Ships::Carrier => 5,
        Ships::Battleship => 4,
        Ships::Cruiser => 3,
        Ships::Destroyer => 2,
    }
}

/// Gets the size of a ship.
pub fn size_of(ship: &Ships) -> (n: usize)
    ensures
        n == ship_len(*ship),
{
    match ship {
        Ships::Carrier => 5,
        Ships::Battleship => 4,
        Ships::Cruiser => 3,
        Ships::Destroyer => 2,
    }
}

/// The index, in the row-major board of `WIDTH` columns, of the `k`-th cell
/// of a ship placed at `pos`. No bound is applied: a column past the last one
/// runs into the next row, as the board is one run of cells.
pub open spec fn cell_of(pos: Position, k: int) -> int {
    match pos.orientation {
        Orientation::Vertical => (pos.x + k) * WIDTH + pos.y,
        Orientation::Horizontal => pos.x * WIDTH + pos.y + k,
    }
}

/// A ship of `len` cells at `pos` covers the cell `i`.
pub open spec fn covers(pos: Position, len: int, i: int) -> bool {
    exists|k: int| 0 <= k < len && #[trigger] cell_of(pos, k) == i
}

/// The coordinate along which the ship extends: the row for a vertical ship,
/// the column for a horizontal one.
pub open spec fn lead_coord(pos: Position) -> int {
    match pos.orientation {
        Orientation::Vertical => pos.x as int,
        Orientation::Horizontal => pos.y as int,
    }
}

/// The last coordinate reached by a ship of `len` cells at `pos`, as the
/// placement rule measures it against the board's side of 10.
pub open spec fn reach(pos: Position, len: nat) -> int {
    lead_coord(pos) + len - 1
}

/// The placement rule's room test: the ship's last coordinate is at most 10.
pub open spec fn has_room(pos: Position, len: nat) -> bool {
    reach(pos, len) <= 10
}

/// Distinct steps along a ship give distinct cells.
pub proof fn lemma_cells_distinct(pos: Position, j: int, k: int)
    requires
        j != k,
    ensures
        cell_of(pos, j) != cell_of(pos, k),
{
    match pos.orientation {
        Orientation::Vertical => {
            assert((pos.x + j) * 10 != (pos.x + k) * 10) by (nonlinear_arith)
                requires
                    j != k,
            ;
        },
        Orientation::Horizontal => {},
    }
}

} // verus!
