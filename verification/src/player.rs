//! A player's board on the game's server: the cells of its fleet, the shots
//! received, and how many ship cells are still afloat.
use vstd::prelude::*;

use crate::board::{BOARD_CELLS, N_SHIPS, WIDTH};
use crate::input::{byte_of, parse_turn, turn_col, turn_parsable, turn_row};
use crate::text::{count_of, push_char};

verus! {

/// What a cell of a player's board holds.
#[derive(Debug, Clone, Copy, PartialEq, Eq)]
pub enum Cell {
    Ship,
    Free,
    Shot,
}

/// What a shot did.
#[derive(Debug, Clone, Copy, PartialEq, Eq)]
pub enum Shot {
    Hit,
    Miss,
}

/// A player's board.
pub struct Player {
    board: Vec<Cell>,
    ship_units_left: usize,
}

/// What a player's board holds: its cells in row-major order, and how many
/// ship cells the game counts as still afloat.
pub struct PlayerView {
    pub cells: Seq<Cell>,
    pub units_left: usize,
}

/// The character a cell shows: `'X'` where a shot fell, `'S'` for a ship
/// when ships are shown, `'O'` otherwise.
pub open spec fn glyph(c: Cell, show_ships: bool) -> char {
    match c {
        Cell::Shot => 'X',
        Cell::Ship => if show_ships {
            'S'
        } else {
            'O'
        },
        Cell::Free => 'O',
    }
}

/// The text of a board: one character per cell.
pub open spec fn board_text(cells: Seq<Cell>, show_ships: bool) -> Seq<char> {
    Seq::new(cells.len(), |i: int| glyph(cells[i], show_ships))
}

/// The cells after a fleet's template is loaded: each cell whose byte in the
/// template is `'S'` becomes a ship cell, the others stay as they were.
pub open spec fn loaded(cells: Seq<Cell>, template: Seq<u8>) -> Seq<Cell> {
    Seq::new(
        cells.len(),
        |i: int|
            if template[i] == 83u8 {
                Cell::Ship
            } else {
                cells[i]
            },
    )
}

/// The cell a turn string names, as an index into the row-major board.
pub open spec fn turn_cell(turn: Seq<char>) -> int {
    turn_row(turn) * WIDTH + turn_col(turn)
}

impl PlayerView {
    /// The board has its 100 cells.
    pub open spec fn wf(self) -> bool {
        self.cells.len() == BOARD_CELLS
    }

    /// The board after a shot at cell `i`: the cell shows the shot, and a
    /// ship cell hit counts one fewer afloat.
    pub open spec fn shot_at(self, i: int) -> PlayerView {
        PlayerView {
            cells: self.cells.update(i, Cell::Shot),
            units_left: if self.cells[i] == Cell::Ship {
                (self.units_left - 1) as usize
            } else {
                self.units_left
            },
        }
    }

    /// The count of ship cells afloat agrees with the board.
    pub open spec fn tally_holds(self) -> bool {
        self.units_left == count_of(self.cells, Cell::Ship)
    }

    /// A shot at the cell a turn string names can be taken: the string can
    /// be read, it names a cell of the board, and a ship cell there has a
    /// ship unit to lose.
    pub open spec fn can_take(self, turn: Seq<char>) -> bool {
        &&& turn_parsable(turn)
        &&& turn_row(turn) < 10
        &&& turn_col(turn) < 10
        &&& self.cells[turn_cell(turn)] == Cell::Ship ==> self.units_left > 0
    }
}

impl View for Player {
    type V = PlayerView;

    closed spec fn view(&self) -> PlayerView {
        PlayerView { cells: self.board@, units_left: self.ship_units_left }
    }
}

/// The character a cell shows.
fn glyph_of(c: Cell, show_ships: bool) -> (r: char)
    ensures
        r == glyph(c, show_ships),
{
    match c {
        Cell::Shot => 'X',
        Cell::Ship => if show_ships {
            'S'
        } else {
            'O'
        },
        Cell::Free => 'O',
    }
}

/// Whether a turn goes on after a shot: it does after a hit, unless the
/// opponent has no ship cell left.
pub fn turn_continues(shot: &Shot, target_sunk: bool) -> (r: bool)
    ensures
        r == (*shot == Shot::Hit && !target_sunk),
{
    match shot {
        Shot::Hit => !target_sunk,
        Shot::Miss => false,
    }
}

impl Player {
    /// The board has its 100 cells.
    pub open spec fn wf(&self) -> bool {
        self@.wf()
    }

    /// Generate new player: a board of free cells and a full fleet's ship
    /// cells afloat.
    pub fn new() -> (p: Player)
        ensures
            p.wf(),
            p@ == (PlayerView {
                cells: Seq::new(BOARD_CELLS as nat, |i: int| Cell::Free),
                units_left: N_SHIPS,
            }),
    {
        let mut board: Vec<Cell> = Vec::new();
        let mut i: usize = 0;
        while i < BOARD_CELLS
            invariant
                i <= BOARD_CELLS,
                board@ == Seq::new(i as nat, |j: int| Cell::Free),
            decreases BOARD_CELLS - i,
        {
            board.push(Cell::Free);
            assert(board@ =~= Seq::new((i + 1) as nat, |j: int| Cell::Free));
            i += 1;
        }
        Player { board, ship_units_left: N_SHIPS }
    }

    /// Build fleet from a vector of bytes: the cells whose byte is `'S'`
    /// become ship cells; the others, and the count afloat, stay.
    pub fn build_fleet(&mut self, template: Vec<u8>)
        requires
            old(self).wf(),
            template@.len() >= BOARD_CELLS,
        ensures
            final(self).wf(),
            final(self)@ == (PlayerView {
                cells: loaded(old(self)@.cells, template@),
                units_left: old(self)@.units_left,
            }),
    {
        let mut i: usize = 0;
        while i < BOARD_CELLS
            invariant
                i <= BOARD_CELLS,
                template@.len() >= BOARD_CELLS,
                self.ship_units_left == old(self)@.units_left,
                self.board@.len() == BOARD_CELLS,
                forall|j: int|
                    0 <= j < BOARD_CELLS ==> #[trigger] self.board@[j] == if j < i
                        && template@[j] == 83u8 {
                        Cell::Ship
                    } else {
                        old(self)@.cells[j]
                    },
            decreases BOARD_CELLS - i,
        {
            if template[i] == 83u8 {
                self.board.set(i, Cell::Ship);
            }
            i += 1;
        }
        assert(self@.cells =~= loaded(old(self)@.cells, template@));
    }

    /// Generate a String of the board to send to the players: `'X'` where
    /// a shot fell, `'S'` for a ship cell when `show_ships`, else `'O'`.
    pub fn board_str(&self, show_ships: bool) -> (r: String)
        ensures
            r@ == board_text(self@.cells, show_ships),
    {
        let mut board = String::new();
        let mut i: usize = 0;
        while i < self.board.len()
            invariant
                i <= self.board@.len(),
                board@ == board_text(self@.cells.subrange(0, i as int), show_ships),
            decreases self.board.len() - i,
        {
            push_char(&mut board, glyph_of(self.board[i], show_ships));
            assert(board_text(self@.cells.subrange(0, i + 1), show_ships) =~= board_text(
                self@.cells.subrange(0, i as int),
                show_ships,
            ).push(glyph(self@.cells[i as int], show_ships)));
            i += 1;
        }
        assert(self@.cells.subrange(0, self@.cells.len() as int) =~= self@.cells);
        board
    }

    /// Change boards state to receive shot: the cell the turn names now shows
    /// the shot; the shot hits when the cell held a ship, which then counts
    /// one fewer ship cell afloat.
    pub fn receive_shot(&mut self, turn: String) -> (r: Shot)
        requires
            old(self).wf(),
            old(self)@.can_take(turn@),
        ensures
            final(self).wf(),
            final(self)@ == old(self)@.shot_at(turn_cell(turn@)),
            final(self)@.cells == old(self)@.cells.update(
                ((turn@[0] as int) % 256 - 65) * 10 + ((turn@[1] as int) % 256 - 48),
                Cell::Shot,
            ),
            r == (if old(self)@.cells[turn_cell(turn@)] == Cell::Ship {
                Shot::Hit
            } else {
                Shot::Miss
            }),
    {
        let (x, y) = parse_turn(turn);
        let i = x * WIDTH + y;
        let shot = self.board[i];
        self.board.set(i, Cell::Shot);
        match shot {
            Cell::Ship => {
                self.ship_units_left = self.ship_units_left - 1;
                Shot::Hit
            },
            Cell::Free => Shot::Miss,
            _ => Shot::Miss,
        }
    }

    /// Tells whether `receive_shot` can take this turn (see
    /// `PlayerView::can_take`); on any other turn it would stop the program.
    pub fn can_take(&self, turn: &String) -> (r: bool)
        requires
            self.wf(),
        ensures
            r == self@.can_take(turn@),
    {
        let s = turn.as_str();
        if s.unicode_len() < 2 {
            return false;
        }
        let row = byte_of(s.get_char(0));
        let col = byte_of(s.get_char(1));
        if row < 65 || col < 48 || row - 65 >= 10 || col - 48 >= 10 {
            return false;
        }
        let i = (row - 65) as usize * WIDTH + (col - 48) as usize;
        match self.board[i] {
            Cell::Ship => self.ship_units_left > 0,
            _ => true,
        }
    }

    /// Return true if all ship units have been sunk.
    pub fn is_sunk(&self) -> (r: bool)
        ensures
            r == (self@.units_left == 0),
    {
        self.ship_units_left == 0
    }
}

} // verus!
