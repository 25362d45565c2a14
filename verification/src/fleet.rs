//! A fleet being built: how many ships of each kind are left to place, the
//! board text (`'O'` for water, `'S'` for a ship cell) and the ships placed.
use vstd::prelude::*;
use vstd::string::*;

use crate::board::{
    cell_of, covers, has_room, lead_coord, lemma_cells_distinct, ship_len, size_of,
    Orientation, Position, Ships, BATTLESHIP, BOARD_CELLS, CARRIER, CRUISER, DESTROYER,
    HEIGHT, SHIP_COUNT, WIDTH,
};
use crate::text::{chars_of, count_of, lemma_count_absent, lemma_count_update, push_char, string_of};

verus! {

/// A fleet under construction.
#[derive(Debug)]
pub struct Fleet {
    carrier_count: usize,
    battleship_count: usize,
    cruiser_count: usize,
    destroyer_count: usize,
    board: String,
    ships_locations: [Option<(Position, Ships)>; 10],
    ships_placed: usize,
}

/// What a fleet holds: ships of each kind still to place, the board text in
/// row-major order, and the ships placed so far in the order they were placed.
pub struct FleetView {
    pub carriers: usize,
    pub battleships: usize,
    pub cruisers: usize,
    pub destroyers: usize,
    pub board: Seq<char>,
    pub ships: Seq<(Position, Ships)>,
}

/// How many of the placed ships are of the given kind.
pub open spec fn placed_of(ships: Seq<(Position, Ships)>, kind: Ships) -> nat
    decreases ships.len(),
{
    if ships.len() == 0 {
        0
    } else {
        placed_of(ships.drop_last(), kind) + if ships.last().1 == kind {
            1nat
        } else {
            0nat
        }
    }
}

/// The number of board cells the given ships cover together.
pub open spec fn cells_of_ships(ships: Seq<(Position, Ships)>) -> nat
    decreases ships.len(),
{
    if ships.len() == 0 {
        0
    } else {
        cells_of_ships(ships.drop_last()) + ship_len(ships.last().1)
    }
}

/// Walking the first `k` cells of a ship at `pos` stays on the board and
/// meets no ship cell.
pub open spec fn clear_until(board: Seq<char>, pos: Position, k: int) -> bool {
    forall|j: int|
        0 <= j < k ==> 0 <= #[trigger] cell_of(pos, j) < BOARD_CELLS && board[cell_of(pos, j)]
            != 'S'
}

/// The walk along a ship at `pos` first stops at its `k`-th cell, which
/// holds a ship.
pub open spec fn stops_at_ship(board: Seq<char>, pos: Position, k: int) -> bool {
    clear_until(board, pos, k) && cell_of(pos, k) < BOARD_CELLS && board[cell_of(pos, k)] == 'S'
}

/// The walk along a ship at `pos` first stops at its `k`-th cell, which lies
/// past the end of the board.
pub open spec fn stops_off_board(board: Seq<char>, pos: Position, k: int) -> bool {
    clear_until(board, pos, k) && cell_of(pos, k) >= BOARD_CELLS
}

/// A ship of `len` cells at `pos` meets a ship cell before it leaves the board.
pub open spec fn occupied(board: Seq<char>, pos: Position, len: int) -> bool {
    exists|k: int| 0 <= k < len && #[trigger] stops_at_ship(board, pos, k)
}

/// A ship of `len` cells at `pos` leaves the board before it meets a ship cell.
pub open spec fn runs_off(board: Seq<char>, pos: Position, len: int) -> bool {
    exists|k: int| 0 <= k < len && #[trigger] stops_off_board(board, pos, k)
}

/// The message that refuses a ship of a kind that has none left.
pub open spec fn none_left_text(ship: Ships) -> Seq<char> {
    match ship {
        Ships::Carrier => "No Carriers left"@,
        Ships::Battleship => "No Battleships left"@,
        Ships::Cruiser => "No Cruisers left"@,
        Ships::Destroyer => "No Destroyers left"@,
    }
}

/// The message that refuses a ship that does not fit on the board.
pub open spec fn no_room_text() -> Seq<char> {
    "There is no enough space to place ship"@
}

/// The message that refuses a ship that would cross another.
pub open spec fn occupied_text() -> Seq<char> {
    "One of the cells has been already occupied"@
}

impl FleetView {
    /// How many ships of the given kind are still to place.
    pub open spec fn left(self, ship: Ships) -> usize {
        match ship {
            Ships::Carrier => self.carriers,
            Ships::Battleship => self.battleships,
            Ships::Cruiser => self.cruisers,
            Ships::Destroyer => self.destroyers,
        }
    }

    /// The fleet's invariant: the board has its 100 cells, each water or
    /// ship; each kind's ships left and placed add up to the kind's quota;
    /// and the ship cells are exactly as many as the placed ships cover.
    pub open spec fn wf(self) -> bool {
        &&& self.board.len() == BOARD_CELLS
        &&& forall|i: int|
            0 <= i < self.board.len() ==> #[trigger] self.board[i] == 'O' || self.board[i] == 'S'
        &&& self.carriers + placed_of(self.ships, Ships::Carrier) == CARRIER
        &&& self.battleships + placed_of(self.ships, Ships::Battleship) == BATTLESHIP
        &&& self.cruisers + placed_of(self.ships, Ships::Cruiser) == CRUISER
        &&& self.destroyers + placed_of(self.ships, Ships::Destroyer) == DESTROYER
        &&& count_of(self.board, 'S') == cells_of_ships(self.ships)
    }

    /// Why a ship of kind `ship` at `pos` is refused, as the message the
    /// refusal carries; `None` when it is placed. The tests come in this
    /// order: a kind with none left, then room on the board, then crossing.
    pub open spec fn refusal(self, ship: Ships, pos: Position) -> Option<Seq<char>> {
        if self.left(ship) == 0 {
            Some(none_left_text(ship))
        } else if !has_room(pos, ship_len(ship)) {
            Some(no_room_text())
        } else if occupied(self.board, pos, ship_len(ship) as int) {
            Some(occupied_text())
        } else {
            None
        }
    }

    /// The inputs on which placing a ship of kind `ship` at `pos` stops the
    /// program: the room test's sum of the start coordinate and the ship's
    /// length overflows, or the ship leaves the board before it meets another.
    pub open spec fn add_ship_panics(self, ship: Ships, pos: Position) -> bool {
        &&& self.left(ship) > 0
        &&& lead_coord(pos) + ship_len(ship) > usize::MAX || (has_room(pos, ship_len(ship)) && runs_off(
            self.board,
            pos,
            ship_len(ship) as int,
        ))
    }

    /// The fleet after a ship of kind `ship` is placed at `pos`.
    pub open spec fn with_ship(self, ship: Ships, pos: Position) -> FleetView {
        FleetView {
            carriers: if ship is Carrier {
                (self.carriers - 1) as usize
            } else {
                self.carriers
            },
            battleships: if ship is Battleship {
                (self.battleships - 1) as usize
            } else {
                self.battleships
            },
            cruisers: if ship is Cruiser {
                (self.cruisers - 1) as usize
            } else {
                self.cruisers
            },
            destroyers: if ship is Destroyer {
                (self.destroyers - 1) as usize
            } else {
                self.destroyers
            },
            board: Seq::new(
                self.board.len(),
                |i: int|
                    if covers(pos, ship_len(ship) as int, i) {
                        'S'
                    } else {
                        self.board[i]
                    },
            ),
            ships: self.ships.push((pos, ship)),
        }
    }
}

impl View for Fleet {
    type V = FleetView;

    closed spec fn view(&self) -> FleetView {
        FleetView {
            carriers: self.carrier_count,
            battleships: self.battleship_count,
            cruisers: self.cruiser_count,
            destroyers: self.destroyer_count,
            board: self.board@,
            ships: Seq::new(self.ships_placed as nat, |i: int| self.ships_locations@[i]->0),
        }
    }
}

/// The outcome of walking along a ship's cells.
enum Walk {
    Clear,
    Ship,
    OffBoard,
}

/// The index of the `k`-th cell of a ship at `pos`, or `None` when it lies
/// past the end of the board.
fn cell_index(pos: &Position, k: usize) -> (r: Option<usize>)
    requires
        0 <= lead_coord(*pos) + k <= 10,
    ensures
        r matches Some(i) ==> i == cell_of(*pos, k as int) && i < BOARD_CELLS,
        r is None ==> cell_of(*pos, k as int) >= BOARD_CELLS,
{
    match pos.orientation {
        Orientation::Vertical => {
            if pos.y >= BOARD_CELLS {
                None
            } else {
                let c = (pos.x + k) * WIDTH + pos.y;
                if c < BOARD_CELLS {
                    Some(c)
                } else {
                    None
                }
            }
        },
        Orientation::Horizontal => {
            if pos.x >= HEIGHT {
                assert(pos.x * WIDTH >= 100) by (nonlinear_arith)
                    requires
                        pos.x >= 10,
                ;
                None
            } else {
                let c = pos.x * WIDTH + pos.y + k;
                if c < BOARD_CELLS {
                    Some(c)
                } else {
                    None
                }
            }
        },
    }
}

/// Walks along the `len` cells of a ship at `pos` and reports where the walk
/// first stops, if it does.
fn walk(cells: &Vec<char>, pos: &Position, len: usize) -> (w: Walk)
    requires
        cells@.len() == BOARD_CELLS,
        lead_coord(*pos) + len <= 11,
    ensures
        w is Clear ==> clear_until(cells@, *pos, len as int),
        w is Ship ==> occupied(cells@, *pos, len as int),
        w is OffBoard ==> runs_off(cells@, *pos, len as int),
{
    let mut k: usize = 0;
    while k < len
        invariant
            cells@.len() == BOARD_CELLS,
            lead_coord(*pos) + len <= 11,
            k <= len,
            clear_until(cells@, *pos, k as int),
        decreases len - k,
    {
        match cell_index(pos, k) {
            None => {
                assert(stops_off_board(cells@, *pos, k as int));
                return Walk::OffBoard;
            },
            Some(i) => {
                if cells[i] == 'S' {
                    assert(stops_at_ship(cells@, *pos, k as int));
                    return Walk::Ship;
                }
                assert forall|j: int| 0 <= j < k + 1 implies 0 <= #[trigger] cell_of(*pos, j)
                    < BOARD_CELLS && cells@[cell_of(*pos, j)] != 'S' by {
                    if j == k {
                    } else {
                        assert(clear_until(cells@, *pos, k as int));
                    }
                };
            },
        }
        k += 1;
    }
    Walk::Clear
}

/// The message that refuses a ship of a kind that has none left.
fn none_left_message(ship: Ships) -> (r: String)
    ensures
        r@ == none_left_text(ship),
{
    match ship {
        Ships::Carrier => String::from_str("No Carriers left"),
        Ships::Battleship => String::from_str("No Battleships left"),
        Ships::Cruiser => String::from_str("No Cruisers left"),
        Ships::Destroyer => String::from_str("No Destroyers left"),
    }
}

/// The placed ships are those of the four kinds together.
pub proof fn lemma_placed_kinds(ships: Seq<(Position, Ships)>)
    ensures
        ships.len() == placed_of(ships, Ships::Carrier) + placed_of(ships, Ships::Battleship)
            + placed_of(ships, Ships::Cruiser) + placed_of(ships, Ships::Destroyer),
        cells_of_ships(ships) == 5 * placed_of(ships, Ships::Carrier) + 4 * placed_of(
            ships,
            Ships::Battleship,
        ) + 3 * placed_of(ships, Ships::Cruiser) + 2 * placed_of(ships, Ships::Destroyer),
    decreases ships.len(),
{
    if ships.len() > 0 {
        lemma_placed_kinds(ships.drop_last());
    }
}

/// Placing a ship adds one to the count of its kind and nothing to the others.
proof fn lemma_placed_push(ships: Seq<(Position, Ships)>, e: (Position, Ships), kind: Ships)
    ensures
        placed_of(ships.push(e), kind) == placed_of(ships, kind) + if e.1 == kind {
            1nat
        } else {
            0nat
        },
        cells_of_ships(ships.push(e)) == cells_of_ships(ships) + ship_len(e.1),
{
    assert(ships.push(e).drop_last() =~= ships);
}

impl Fleet {
    /// The fleet's invariant, over its contents.
    pub open spec fn wf(&self) -> bool {
        self@.wf() && self.slots_wf()
    }

    /// The slots of the placed ships: the first `ships_placed` of the ten
    /// hold a ship, the others none.
    pub closed spec fn slots_wf(&self) -> bool {
        &&& self.ships_placed <= 10
        &&& forall|i: int| 0 <= i < self.ships_placed ==> #[trigger] self.ships_locations@[i] is Some
        &&& forall|i: int| self.ships_placed <= i < 10 ==> #[trigger] self.ships_locations@[i] is None
    }

    /// Create new default fleet: one carrier and one battleship to place on
    /// an empty board of water.
    pub fn new() -> (f: Fleet)
        ensures
            f.wf(),
            f@ == (FleetView {
                carriers: CARRIER,
                battleships: BATTLESHIP,
                cruisers: CRUISER,
                destroyers: DESTROYER,
                board: Seq::new(BOARD_CELLS as nat, |i: int| 'O'),
                ships: Seq::empty(),
            }),
    {
        let mut board = String::new();
        let mut i: usize = 0;
        while i < BOARD_CELLS
            invariant
                i <= BOARD_CELLS,
                board@ == Seq::new(i as nat, |j: int| 'O'),
            decreases BOARD_CELLS - i,
        {
            push_char(&mut board, 'O');
            assert(board@ =~= Seq::new((i + 1) as nat, |j: int| 'O'));
            i += 1;
        }
        let f = Fleet {
            carrier_count: CARRIER,
            battleship_count: BATTLESHIP,
            cruiser_count: CRUISER,
            destroyer_count: DESTROYER,
            board,
            ships_locations: [None; 10],
            ships_placed: 0,
        };
        proof {
            lemma_count_absent(f@.board, 'S');
            broadcast use vstd::array::group_array_axioms;
            assert(f@.ships =~= Seq::empty());
            assert(f.slots_wf());
        }
        f
    }

    /// The board's characters, one per cell.
    fn board_cells(&self) -> (v: Vec<char>)
        ensures
            v@ == self@.board,
    {
        chars_of(self.board.as_str())
    }

    /// Tells whether `add_ship` with these arguments would stop the program
    /// (see `FleetView::add_ship_panics`), so that a caller can refuse such
    /// input beforehand.
    pub fn add_ship_panics(&self, ship_type: Ships, coords: (usize, usize), orientation: Orientation) -> (r: bool)
        requires
            self.wf(),
        ensures
            r == self@.add_ship_panics(
                ship_type,
                Position { x: coords.0, y: coords.1, orientation },
            ),
    {
        let position = Position { x: coords.0, y: coords.1, orientation };
        let left = match ship_type {
            Ships::Carrier => self.carrier_count,
            Ships::Battleship => self.battleship_count,
            Ships::Cruiser => self.cruiser_count,
            Ships::Destroyer => self.destroyer_count,
        };
        if left == 0 {
            return false;
        }
        let len = size_of(&ship_type);
        let lead = match orientation {
            Orientation::Vertical => position.x,
            Orientation::Horizontal => position.y,
        };
        if lead > usize::MAX - len {
            return true;
        }
        if lead > 11 - len {
            return false;
        }
        let cells = self.board_cells();
        match walk(&cells, &position, len) {
            Walk::OffBoard => true,
            Walk::Ship => {
                proof {
                    let k = choose|k: int|
                        0 <= k < len && #[trigger] stops_at_ship(cells@, position, k);
                    if runs_off(cells@, position, len as int) {
                        let m = choose|m: int|
                            0 <= m < len && #[trigger] stops_off_board(cells@, position, m);
                        if m < k {
                            assert(clear_until(cells@, position, k));
                            assert(cell_of(position, m) < BOARD_CELLS);
                        } else if m > k {
                            assert(clear_until(cells@, position, m));
                            assert(cells@[cell_of(position, k)] != 'S');
                        }
                    }
                }
                false
            },
            Walk::Clear => {
                proof {
                    if runs_off(cells@, position, len as int) {
                        let m = choose|m: int|
                            0 <= m < len && #[trigger] stops_off_board(cells@, position, m);
                        assert(cell_of(position, m) < BOARD_CELLS);
                    }
                }
                false
            },
        }
    }

    /// Add ship to fleet.
    ///
    /// The ship of kind `ship_type` starts at `coords` (row, column) and
    /// extends along `orientation`. It is refused, with the fleet unchanged,
    /// when no ship of its kind is left; when its last coordinate along
    /// `orientation` (start plus length less one) is past 10 (`has_room`:
    /// a last coordinate of exactly 10 passes, so a horizontal ship there runs
    /// into the next row, and a vertical one leaves the board, which the
    /// precondition rules out); or when it would cross a ship already placed.
    /// Otherwise its cells become ship cells, it joins the placed ships and
    /// one fewer of its kind is left.
    pub fn add_ship(&mut self, ship_type: Ships, coords: (usize, usize), orientation: Orientation) -> (r: Result<(), String>)
        requires
            old(self).wf(),
            !old(self)@.add_ship_panics(
                ship_type,
                Position { x: coords.0, y: coords.1, orientation },
            ),
        ensures
            final(self).wf(),
            r is Ok <==> old(self)@.refusal(
                ship_type,
                Position { x: coords.0, y: coords.1, orientation },
            ) is None,
            r is Ok ==> final(self)@ == old(self)@.with_ship(
                ship_type,
                Position { x: coords.0, y: coords.1, orientation },
            ),
            r is Ok ==> final(self)@.ships == old(self)@.ships.push(
                (Position { x: coords.0, y: coords.1, orientation }, ship_type),
            ),
            r matches Err(e) ==> final(self)@ == old(self)@ && old(self)@.refusal(
                ship_type,
                Position { x: coords.0, y: coords.1, orientation },
            ) == Some(e@),
    {
        let (tx, ty) = coords;
        let position = Position { x: tx, y: ty, orientation };
        // Check if ships of that type are left
        let left = match ship_type {
            Ships::Carrier => self.carrier_count,
            Ships::Battleship => self.battleship_count,
            Ships::Cruiser => self.cruiser_count,
            Ships::Destroyer => self.destroyer_count,
        };
        if left == 0 {
            return Err(none_left_message(ship_type));
        }
        // Get size of ship to free space
        let free_space = size_of(&ship_type);
        // Get if there is enough space in the board to place ship
        let no_room = match position.orientation {
            Orientation::Vertical => position.x > HEIGHT + 1 - free_space,
            Orientation::Horizontal => position.y > WIDTH + 1 - free_space,
        };
        if no_room {
            return Err(String::from_str("There is no enough space to place ship"));
        }
        let mut cells = self.board_cells();
        let ghost before = cells@;
        // Check if there are no ships in the way
        match walk(&cells, &position, free_space) {
            Walk::OffBoard => {
                // Excluded by the precondition: the walk does not leave the board.
                assert(false);
                return Err(String::from_str("There is no enough space to place ship"));
            },
            Walk::Ship => {
                return Err(String::from_str("One of the cells has been already occupied"));
            },
            Walk::Clear => {},
        }
        proof {
            assert forall|k: int| 0 <= k < free_space implies !#[trigger] stops_at_ship(
                before,
                position,
                k,
            ) by {
                assert(before[cell_of(position, k)] != 'S');
            };
        }
        // Mark the ship's cells once everything is cleared
        let mut k: usize = 0;
        while k < free_space
            invariant
                free_space == ship_len(ship_type),
                lead_coord(position) + free_space <= 11,
                k <= free_space,
                before.len() == BOARD_CELLS,
                clear_until(before, position, free_space as int),
                cells@ == Seq::new(
                    BOARD_CELLS as nat,
                    |i: int|
                        if covers(position, k as int, i) {
                            'S'
                        } else {
                            before[i]
                        },
                ),
                count_of(cells@, 'S') == count_of(before, 'S') + k,
            decreases free_space - k,
        {
            let idx = match cell_index(&position, k) {
                Some(i) => i,
                None => {
                    // Unreachable: the walk found every cell of the ship on the board.
                    assert(cell_of(position, k as int) < BOARD_CELLS);
                    return Err(String::from_str("There is no enough space to place ship"));
                },
            };
            proof {
                if covers(position, k as int, idx as int) {
                    let j = choose|j: int| 0 <= j < k && #[trigger] cell_of(position, j) == idx;
                    lemma_cells_distinct(position, j, k as int);
                }
                assert(cells@[idx as int] == before[idx as int]);
                assert(before[cell_of(position, k as int)] != 'S');
                lemma_count_update(cells@, idx as int, 'S', 'S');
            }
            cells.set(idx, 'S');
            proof {
                assert forall|i: int| 0 <= i < BOARD_CELLS implies cells@[i] == (if covers(
                    position,
                    k + 1,
                    i,
                ) {
                    'S'
                } else {
                    before[i]
                }) by {
                    if i == idx {
                        assert(cell_of(position, k as int) == i);
                    } else if covers(position, k as int, i) {
                        let j = choose|j: int| 0 <= j < k && #[trigger] cell_of(position, j) == i;
                        assert(cell_of(position, j) == i);
                    } else if covers(position, k + 1, i) {
                        let j = choose|j: int| 0 <= j < k + 1 && #[trigger] cell_of(position, j) == i;
                        assert(j != k);
                        assert(covers(position, k as int, i));
                    }
                };
                assert(cells@ =~= Seq::new(
                    BOARD_CELLS as nat,
                    |i: int|
                        if covers(position, k + 1, i) {
                            'S'
                        } else {
                            before[i]
                        },
                ));
            }
            k += 1;
        }
        // Add location of ship
        let ghost old_ships = self@.ships;
        proof {
            lemma_placed_kinds(old_ships);
        }
        self.ships_locations[self.ships_placed] = Some((position, ship_type));
        // Aument the count of ships placed
        self.ships_placed = self.ships_placed + 1;
        // Reduce count of ship type
        match ship_type {
            Ships::Carrier => self.carrier_count = self.carrier_count - 1,
            Ships::Battleship => self.battleship_count = self.battleship_count - 1,
            Ships::Cruiser => self.cruiser_count = self.cruiser_count - 1,
            Ships::Destroyer => self.destroyer_count = self.destroyer_count - 1,
        }
        // Update board
        self.board = string_of(&cells);
        proof {
            broadcast use vstd::array::group_array_axioms;
            assert(self@.ships =~= old_ships.push((position, ship_type)));
            assert(self.slots_wf());
            lemma_placed_push(old_ships, (position, ship_type), Ships::Carrier);
            lemma_placed_push(old_ships, (position, ship_type), Ships::Battleship);
            lemma_placed_push(old_ships, (position, ship_type), Ships::Cruiser);
            lemma_placed_push(old_ships, (position, ship_type), Ships::Destroyer);
            assert(self@.board =~= old(self)@.with_ship(ship_type, position).board);
            assert forall|i: int| 0 <= i < self@.board.len() implies #[trigger] self@.board[i]
                == 'O' || self@.board[i] == 'S' by {
                assert(before[i] == old(self)@.board[i]);
            };
        }
        Ok(())
    }

    /// Get unmutable borrow of the board string.
    pub fn get_board(&self) -> (r: &String)
        ensures
            r@ == self@.board,
    {
        &self.board
    }

    /// The ships placed so far, with where each stands, in the order they
    /// were placed.
    pub fn placed_ships(&self) -> (r: Vec<(Position, Ships)>)
        requires
            self.wf(),
        ensures
            r@ == self@.ships,
    {
        let mut v: Vec<(Position, Ships)> = Vec::new();
        let mut i: usize = 0;
        while i < self.ships_placed
            invariant
                self.wf(),
                i <= self.ships_placed,
                v@ == self@.ships.subrange(0, i as int),
            decreases self.ships_placed - i,
        {
            if let Some(entry) = self.ships_locations[i] {
                v.push(entry);
            }
            assert(v@ =~= self@.ships.subrange(0, i + 1));
            i += 1;
        }
        assert(v@ =~= self@.ships);
        v
    }

    /// Returns whether all ships have been placed.
    pub fn all_ships_placed(&self) -> (r: bool)
        ensures
            r == (self@.ships.len() == SHIP_COUNT),
    {
        self.ships_placed == SHIP_COUNT
    }

    /// Get the ships that still need to be placed, one entry per kind.
    pub fn get_quantities(&self) -> (r: Vec<(Ships, usize)>)
        ensures
            r@ == seq![
                (Ships::Carrier, self@.carriers),
                (Ships::Battleship, self@.battleships),
                (Ships::Cruiser, self@.cruisers),
                (Ships::Destroyer, self@.destroyers),
            ],
    {
        let mut v: Vec<(Ships, usize)> = Vec::new();
        v.push((Ships::Carrier, self.carrier_count));
        v.push((Ships::Battleship, self.battleship_count));
        v.push((Ships::Cruiser, self.cruiser_count));
        v.push((Ships::Destroyer, self.destroyer_count));
        assert(v@ =~= seq![
            (Ships::Carrier, self@.carriers),
            (Ships::Battleship, self@.battleships),
            (Ships::Cruiser, self@.cruisers),
            (Ships::Destroyer, self@.destroyers),
        ]);
        v
    }
}

} // verus!
