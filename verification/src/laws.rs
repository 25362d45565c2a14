//! What holds of the game across its operations: a fleet's bookkeeping, the
//! way a fleet's board reaches the server intact, and how shots wear a
//! player's fleet down until it is sunk.
use vstd::prelude::*;
use vstd::utf8::{encode_utf8, is_ascii_chars, is_ascii_chars_encode_utf8};

use crate::board::{cell_of, covers, ship_len, Orientation, Position, Ships, BOARD_CELLS, N_SHIPS, SHIP_COUNT};
use crate::fleet::{clear_until, lemma_placed_kinds, none_left_text, occupied, placed_of, runs_off, stops_at_ship, stops_off_board, FleetView};
use crate::input::{low_byte, play_panics, play_verdict, trimmed, turn_col, turn_parsable, turn_row};
use crate::player::{board_text, loaded, turn_cell, Cell, PlayerView};
use crate::text::{count_of, lemma_count_update};

verus! {

/// A fleet's bookkeeping: the ships placed and those left add up to the
/// fleet's two ships; all are placed exactly when none of any kind is left;
/// and a fleet with all its ships placed covers `N_SHIPS` cells of its board.
pub proof fn law_fleet_bookkeeping(v: FleetView)
    requires
        v.wf(),
    ensures
        v.ships.len() + v.carriers + v.battleships + v.cruisers + v.destroyers == SHIP_COUNT,
        v.ships.len() == SHIP_COUNT <==> (v.carriers == 0 && v.battleships == 0 && v.cruisers == 0
            && v.destroyers == 0),
        v.ships.len() == SHIP_COUNT ==> count_of(v.board, 'S') == N_SHIPS,
{
    lemma_placed_kinds(v.ships);
}

/// Once all its ships are placed, a fleet refuses any further ship for
/// having none of its kind left.
pub proof fn law_complete_fleet_refuses(v: FleetView, ship: Ships, pos: Position)
    requires
        v.wf(),
        v.ships.len() == SHIP_COUNT,
    ensures
        v.refusal(ship, pos) == Some(none_left_text(ship)),
        !v.add_ship_panics(ship, pos),
{
    law_fleet_bookkeeping(v);
}

/// A ship that is placed stands on water: each of its cells is on the board
/// and held `'O'` before it was placed.
pub proof fn law_placed_ship_on_water(v: FleetView, ship: Ships, pos: Position)
    requires
        v.wf(),
        v.refusal(ship, pos) is None,
        !v.add_ship_panics(ship, pos),
    ensures
        forall|k: int|
            0 <= k < ship_len(ship) ==> 0 <= #[trigger] cell_of(pos, k) < BOARD_CELLS && v.board[cell_of(
                pos,
                k,
            )] == 'O',
{
    let len = ship_len(ship) as int;
    lemma_clear_walk(v.board, pos, len, len);
    assert forall|k: int| 0 <= k < len implies 0 <= #[trigger] cell_of(pos, k) < BOARD_CELLS
        && v.board[cell_of(pos, k)] == 'O' by {
        assert(v.board[cell_of(pos, k)] == 'O' || v.board[cell_of(pos, k)] == 'S');
    };
}

/// When the walk along a ship neither meets a ship nor leaves the board, its
/// first `m` steps are clear, for every `m` up to the ship's length.
proof fn lemma_clear_walk(board: Seq<char>, pos: Position, len: int, m: int)
    requires
        0 <= m <= len,
        !occupied(board, pos, len),
        !runs_off(board, pos, len),
    ensures
        clear_until(board, pos, m),
    decreases m,
{
    if m > 0 {
        lemma_clear_walk(board, pos, len, m - 1);
        let k = m - 1;
        if !(0 <= cell_of(pos, k) < BOARD_CELLS) {
            assert(stops_off_board(board, pos, k));
        } else if board[cell_of(pos, k)] == 'S' {
            assert(stops_at_ship(board, pos, k));
        }
        assert forall|j: int| 0 <= j < m implies 0 <= #[trigger] cell_of(pos, j) < BOARD_CELLS
            && board[cell_of(pos, j)] != 'S' by {
            if j < k {
                assert(clear_until(board, pos, k));
            }
        };
    }
}

/// Two sequences that match element for element, `x` in one where `y` is in
/// the other, hold them equally often.
proof fn lemma_count_matched<A, B>(a: Seq<A>, x: A, b: Seq<B>, y: B)
    requires
        a.len() == b.len(),
        forall|i: int| 0 <= i < a.len() ==> (a[i] == x <==> b[i] == y),
    ensures
        count_of(a, x) == count_of(b, y),
    decreases a.len(),
{
    if a.len() > 0 {
        lemma_count_matched(a.drop_last(), x, b.drop_last(), y);
    }
}

/// The cells of a new player's board.
pub open spec fn free_board() -> Seq<Cell> {
    Seq::new(BOARD_CELLS as nat, |i: int| Cell::Free)
}

/// A fleet's board reaches the server intact: loading, into a new player's
/// board, a template that starts with the UTF-8 bytes of a fleet's board text
/// gives a board whose uncovered text is that board text again, with as many
/// ship cells as the text has `'S'`.
pub proof fn law_board_round_trip(board: Seq<char>, template: Seq<u8>)
    requires
        board.len() == BOARD_CELLS,
        forall|i: int| 0 <= i < board.len() ==> #[trigger] board[i] == 'O' || board[i] == 'S',
        template.len() >= BOARD_CELLS,
        template.subrange(0, BOARD_CELLS as int) == encode_utf8(board),
    ensures
        board_text(loaded(free_board(), template), true) == board,
        count_of(loaded(free_board(), template), Cell::Ship) == count_of(board, 'S'),
{
    assert(is_ascii_chars(board)) by {
        assert forall|i: int| 0 <= i < board.len() implies '\0' <= #[trigger] board[i] <= '\u{7f}' by {
            assert(board[i] == 'O' || board[i] == 'S');
        };
    };
    is_ascii_chars_encode_utf8(board);
    let cells = loaded(free_board(), template);
    assert forall|i: int| 0 <= i < BOARD_CELLS implies (template[i] == 83u8 <==> #[trigger] board[i]
        == 'S') by {
        assert(template[i] == template.subrange(0, BOARD_CELLS as int)[i]);
        assert(board[i] as u8 == encode_utf8(board)[i]);
        assert(board[i] == 'O' || board[i] == 'S');
    };
    assert(board_text(cells, true) =~= board);
    lemma_count_matched(cells, Cell::Ship, board, 'S');
}

/// A count that is positive when the value occurs.
proof fn lemma_count_present<T>(s: Seq<T>, i: int, v: T)
    requires
        0 <= i < s.len(),
        s[i] == v,
    ensures
        count_of(s, v) > 0,
    decreases s.len(),
{
    if i < s.len() - 1 {
        lemma_count_present(s.drop_last(), i, v);
    }
}

/// A player is sunk exactly when no ship cell is left on its board, as long
/// as its count of ship cells afloat agrees with the board.
pub proof fn law_sunk_iff_no_ship_left(p: PlayerView)
    requires
        p.tally_holds(),
    ensures
        p.units_left == 0 <==> forall|i: int| 0 <= i < p.cells.len() ==> p.cells[i] != Cell::Ship,
{
    if p.units_left == 0 {
        assert forall|i: int| 0 <= i < p.cells.len() implies p.cells[i] != Cell::Ship by {
            if p.cells[i] == Cell::Ship {
                lemma_count_present(p.cells, i, Cell::Ship);
            }
        };
    } else {
        if forall|i: int| 0 <= i < p.cells.len() ==> p.cells[i] != Cell::Ship {
            crate::text::lemma_count_absent(p.cells, Cell::Ship);
        }
    }
}

/// A shot keeps a player's count of ship cells afloat in agreement with its
/// board: a hit sinks one ship cell and counts one fewer, a miss changes
/// neither.
pub proof fn law_shot_keeps_tally(p: PlayerView, i: int)
    requires
        p.wf(),
        p.tally_holds(),
        0 <= i < BOARD_CELLS,
    ensures
        p.shot_at(i).wf(),
        p.shot_at(i).tally_holds(),
{
    if p.cells[i] == Cell::Ship {
        lemma_count_present(p.cells, i, Cell::Ship);
    }
    lemma_count_update(p.cells, i, Cell::Shot, Cell::Ship);
}

/// A player loaded from a fleet with all its ships placed starts with its
/// count of ship cells afloat in agreement with its board: the game's count
/// reaches zero exactly when every ship cell of that fleet has been shot.
pub proof fn law_loaded_fleet_tally(fleet: FleetView, template: Seq<u8>)
    requires
        fleet.wf(),
        fleet.ships.len() == SHIP_COUNT,
        template.len() >= BOARD_CELLS,
        template.subrange(0, BOARD_CELLS as int) == encode_utf8(fleet.board),
    ensures
        (PlayerView { cells: loaded(free_board(), template), units_left: N_SHIPS }).tally_holds(),
{
    law_fleet_bookkeeping(fleet);
    law_board_round_trip(fleet.board, template);
}

/// A second shot at the same cell misses and costs nothing.
pub proof fn law_second_shot_misses(p: PlayerView, i: int)
    requires
        p.wf(),
        0 <= i < BOARD_CELLS,
    ensures
        p.shot_at(i).cells[i] != Cell::Ship,
        p.shot_at(i).shot_at(i).units_left == p.shot_at(i).units_left,
        p.shot_at(i).shot_at(i).cells == p.shot_at(i).cells,
{
    assert(p.shot_at(i).shot_at(i).cells =~= p.shot_at(i).cells);
}

/// The board text sent to a player's opponent hides the ships: it shows no
/// `'S'`, and it differs from the uncovered text only where a ship is.
pub proof fn law_covered_text_hides_ships(cells: Seq<Cell>)
    ensures
        forall|i: int| 0 <= i < cells.len() ==> #[trigger] board_text(cells, false)[i] != 'S',
        forall|i: int|
            0 <= i < cells.len() ==> (board_text(cells, false)[i] != board_text(cells, true)[i]
                <==> #[trigger] cells[i] == Cell::Ship),
{
}

/// A play that the check accepts names a cell of the board: reading it as a
/// turn gives a row and a column from 0 to 9, so a player whose count of
/// ship cells afloat agrees with its board can take a shot there.
pub proof fn law_accepted_play_on_board(line: Seq<char>, p: PlayerView)
    requires
        play_verdict(line) is Ok,
        !play_panics(line),
        p.wf(),
        p.tally_holds(),
    ensures
        turn_parsable(trimmed(line)),
        0 <= turn_row(trimmed(line)) < 10,
        0 <= turn_col(trimmed(line)) < 10,
        p.can_take(trimmed(line)),
{
    let t = trimmed(line);
    assert(t[0] as int == low_byte(t[0]));
    assert(t[1] as int == low_byte(t[1]));
    assert(0 <= turn_cell(t) < BOARD_CELLS);
    if p.cells[turn_cell(t)] == Cell::Ship {
        lemma_count_present(p.cells, turn_cell(t), Cell::Ship);
    }
}

/// The board after a sequence of shots, the cells shot in order.
pub open spec fn after_shots(p: PlayerView, shots: Seq<int>) -> PlayerView
    decreases shots.len(),
{
    if shots.len() == 0 {
        p
    } else {
        after_shots(p, shots.drop_last()).shot_at(shots.last())
    }
}

/// Every shot names a cell of the board.
pub open spec fn shots_on_board(shots: Seq<int>) -> bool {
    forall|j: int| 0 <= j < shots.len() ==> 0 <= #[trigger] shots[j] < BOARD_CELLS
}

/// A player whose count afloat is at least its ship cells keeps the margin
/// between the two unchanged through any shots, and every cell shot shows
/// the shot while the others stay as they were.
proof fn lemma_after_shots(p: PlayerView, shots: Seq<int>)
    requires
        p.wf(),
        p.units_left >= count_of(p.cells, Cell::Ship),
        shots_on_board(shots),
    ensures
        after_shots(p, shots).wf(),
        after_shots(p, shots).units_left - count_of(after_shots(p, shots).cells, Cell::Ship)
            == p.units_left - count_of(p.cells, Cell::Ship),
        forall|i: int|
            0 <= i < BOARD_CELLS ==> #[trigger] after_shots(p, shots).cells[i] == if shots.contains(
                i,
            ) {
                Cell::Shot
            } else {
                p.cells[i]
            },
    decreases shots.len(),
{
    if shots.len() > 0 {
        let rest = shots.drop_last();
        assert(shots_on_board(rest)) by {
            assert forall|j: int| 0 <= j < rest.len() implies 0 <= #[trigger] rest[j] < BOARD_CELLS by {
                assert(rest[j] == shots[j]);
            };
        };
        lemma_after_shots(p, rest);
        let q = after_shots(p, rest);
        let c = shots.last();
        assert(0 <= c < BOARD_CELLS) by {
            assert(shots[shots.len() - 1] == c);
        };
        if q.cells[c] == Cell::Ship {
            lemma_count_present(q.cells, c, Cell::Ship);
        }
        lemma_count_update(q.cells, c, Cell::Shot, Cell::Ship);
        assert forall|i: int| 0 <= i < BOARD_CELLS implies #[trigger] after_shots(p, shots).cells[i]
            == if shots.contains(i) {
            Cell::Shot
        } else {
            p.cells[i]
        } by {
            if i == c {
                assert(shots[shots.len() - 1] == i);
            } else if rest.contains(i) {
                let j = choose|j: int| 0 <= j < rest.len() && rest[j] == i;
                assert(shots[j] == i);
            } else if shots.contains(i) {
                let j = choose|j: int| 0 <= j < shots.len() && shots[j] == i;
                assert(j != shots.len() - 1);
                assert(rest[j] == i);
            }
        };
    }
}

/// How many bytes of the template's first 100 are `'S'`.
pub open spec fn template_ships(template: Seq<u8>) -> nat {
    count_of(template.subrange(0, BOARD_CELLS as int), 83u8)
}

/// The board of a new player once a template is loaded.
pub open spec fn loaded_player(template: Seq<u8>) -> PlayerView {
    PlayerView { cells: loaded(free_board(), template), units_left: N_SHIPS }
}

/// A new player loaded from a template has one ship cell per `'S'` byte.
proof fn lemma_loaded_ships(template: Seq<u8>)
    requires
        template.len() >= BOARD_CELLS,
    ensures
        loaded_player(template).wf(),
        count_of(loaded_player(template).cells, Cell::Ship) == template_ships(template),
        forall|i: int|
            0 <= i < BOARD_CELLS ==> (#[trigger] loaded_player(template).cells[i] == Cell::Ship
                <==> template[i] == 83u8),
{
    let cells = loaded_player(template).cells;
    let head = template.subrange(0, BOARD_CELLS as int);
    assert forall|i: int| 0 <= i < cells.len() implies (cells[i] == Cell::Ship <==> head[i]
        == 83u8) by {
        assert(head[i] == template[i]);
    };
    lemma_count_matched(cells, Cell::Ship, head, 83u8);
}

/// However the server's template came, as long as it holds at most
/// `N_SHIPS` `'S'` bytes among its first 100, a player loaded from it can
/// take any shots at cells of the board: before each shot, a ship cell at
/// the target has a ship unit to lose, so `receive_shot` never runs the count
/// below zero.
pub proof fn law_shots_never_run_dry(template: Seq<u8>, shots: Seq<int>)
    requires
        template.len() >= BOARD_CELLS,
        template_ships(template) <= N_SHIPS,
        shots_on_board(shots),
    ensures
        forall|n: int|
            0 <= n < shots.len() ==> {
                let q = #[trigger] after_shots(loaded_player(template), shots.take(n));
                &&& q.wf()
                &&& q.cells[shots[n]] == Cell::Ship ==> q.units_left > 0
            },
{
    lemma_loaded_ships(template);
    let p = loaded_player(template);
    assert forall|n: int| 0 <= n < shots.len() implies {
        let q = #[trigger] after_shots(p, shots.take(n));
        &&& q.wf()
        &&& q.cells[shots[n]] == Cell::Ship ==> q.units_left > 0
    } by {
        let pre = shots.take(n);
        assert(shots_on_board(pre)) by {
            assert forall|j: int| 0 <= j < pre.len() implies 0 <= #[trigger] pre[j] < BOARD_CELLS by {
                assert(pre[j] == shots[j]);
            };
        };
        lemma_after_shots(p, pre);
        let q = after_shots(p, pre);
        let c = shots[n];
        if q.cells[c] == Cell::Ship {
            lemma_count_present(q.cells, c, Cell::Ship);
        }
    };
}

/// A player loaded from a template with exactly `N_SHIPS` `'S'` bytes among
/// its first 100 is sunk, after any shots at cells of the board, exactly when
/// every cell whose byte is `'S'` has been shot at least once.
pub proof fn law_sunk_iff_fleet_shot(template: Seq<u8>, shots: Seq<int>)
    requires
        template.len() >= BOARD_CELLS,
        template_ships(template) == N_SHIPS,
        shots_on_board(shots),
    ensures
        after_shots(loaded_player(template), shots).units_left == 0 <==> forall|i: int|
            0 <= i < BOARD_CELLS && template[i] == 83u8 ==> shots.contains(i),
{
    lemma_loaded_ships(template);
    let p = loaded_player(template);
    lemma_after_shots(p, shots);
    let q = after_shots(p, shots);
    law_sunk_iff_no_ship_left(q);
    if q.units_left == 0 {
        assert forall|i: int| 0 <= i < BOARD_CELLS && template[i] == 83u8 implies shots.contains(
            i,
        ) by {
            assert(q.cells[i] != Cell::Ship);
            assert(p.cells[i] == Cell::Ship);
        };
    } else {
        let i = choose|i: int| 0 <= i < q.cells.len() && q.cells[i] == Cell::Ship;
        assert(q.cells[i] == Cell::Ship);
        assert(!shots.contains(i));
        assert(template[i] == 83u8);
    }
}

/// The `k`-th cell of a ship is counted in row-major order over rows of ten:
/// a vertical ship goes down a column, a horizontal one along a row.
pub proof fn law_ship_cells_are_row_major(pos: Position, k: int)
    ensures
        cell_of(pos, k) == match pos.orientation {
            Orientation::Vertical => (pos.x + k) * 10 + pos.y,
            Orientation::Horizontal => pos.x * 10 + pos.y + k,
        },
{
}

/// How many ships of the given kind a fleet still has to place.
pub open spec fn to_place(v: FleetView, ship: Ships) -> usize {
    match ship {
        Ships::Carrier => v.carriers,
        Ships::Battleship => v.battleships,
        Ships::Cruiser => v.cruisers,
        Ships::Destroyer => v.destroyers,
    }
}

/// A placement is accepted exactly on what the rules ask of the ship's own
/// cells: a ship of its kind is left, its last coordinate along its
/// orientation is at most 10, and each of its `ship_len` cells lies on the
/// board and holds water. Such a placement never stops the program; and an
/// accepted placement that does not stop the program meets all three.
pub proof fn law_placement_accepted_iff_on_water(v: FleetView, ship: Ships, pos: Position)
    requires
        v.wf(),
    ensures
        ({
            &&& to_place(v, ship) > 0
            &&& (match pos.orientation {
                Orientation::Vertical => pos.x as int,
                Orientation::Horizontal => pos.y as int,
            }) + ship_len(ship) - 1 <= 10
            &&& forall|k: int|
                0 <= k < ship_len(ship) ==> 0 <= #[trigger] cell_of(pos, k) < BOARD_CELLS
                    && v.board[cell_of(pos, k)] == 'O'
        }) ==> v.refusal(ship, pos) is None && !v.add_ship_panics(ship, pos),
        v.refusal(ship, pos) is None && !v.add_ship_panics(ship, pos) ==> {
            &&& to_place(v, ship) > 0
            &&& (match pos.orientation {
                Orientation::Vertical => pos.x as int,
                Orientation::Horizontal => pos.y as int,
            }) + ship_len(ship) - 1 <= 10
            &&& forall|k: int|
                0 <= k < ship_len(ship) ==> 0 <= #[trigger] cell_of(pos, k) < BOARD_CELLS
                    && v.board[cell_of(pos, k)] == 'O'
        },
{
    let len = ship_len(ship) as int;
    if v.refusal(ship, pos) is None && !v.add_ship_panics(ship, pos) {
        law_placed_ship_on_water(v, ship, pos);
    }
    if forall|k: int|
        0 <= k < len ==> 0 <= #[trigger] cell_of(pos, k) < BOARD_CELLS && v.board[cell_of(pos, k)]
            == 'O' {
        if occupied(v.board, pos, len) {
            let k = choose|k: int| 0 <= k < len && #[trigger] stops_at_ship(v.board, pos, k);
            assert(v.board[cell_of(pos, k)] == 'O');
        }
        if runs_off(v.board, pos, len) {
            let k = choose|k: int| 0 <= k < len && #[trigger] stops_off_board(v.board, pos, k);
            assert(cell_of(pos, k) < BOARD_CELLS);
        }
    }
}

/// What a placement of a ship whose kind has one left does: each of the ship's own cells becomes a
/// ship cell, every other cell keeps what it held, the ship is recorded last
/// among the placed ships with the very position and orientation given, and
/// one fewer ship of its kind is left while the other kinds keep theirs.
pub proof fn law_placement_effect(v: FleetView, ship: Ships, pos: Position)
    requires
        v.wf(),
        to_place(v, ship) > 0,
    ensures
        ({
            let w = v.with_ship(ship, pos);
            &&& w.board.len() == v.board.len()
            &&& forall|k: int|
                0 <= k < ship_len(ship) && 0 <= cell_of(pos, k) < v.board.len() ==> w.board[#[trigger] cell_of(
                    pos,
                    k,
                )] == 'S'
            &&& forall|i: int|
                0 <= i < v.board.len() && (forall|k: int|
                    0 <= k < ship_len(ship) ==> #[trigger] cell_of(pos, k) != i) ==> #[trigger] w.board[i]
                    == v.board[i]
            &&& w.ships == v.ships.push((pos, ship))
            &&& w.ships.last() == (pos, ship)
            &&& forall|kind: Ships|
                #[trigger] to_place(w, kind) == if kind == ship {
                    to_place(v, kind) - 1
                } else {
                    to_place(v, kind) as int
                }
        }),
{
    let w = v.with_ship(ship, pos);
    let len = ship_len(ship) as int;
    assert forall|k: int| 0 <= k < len && 0 <= cell_of(pos, k) < v.board.len() implies w.board[
        #[trigger] cell_of(pos, k)] == 'S' by {
        assert(covers(pos, len, cell_of(pos, k)));
    };
    assert forall|kind: Ships| #[trigger] to_place(w, kind) == if kind == ship {
        to_place(v, kind) - 1
    } else {
        to_place(v, kind) as int
    } by {};
}

/// A shot taken at a turn string falls on the cell its two characters name,
/// row letter less `'A'` times ten plus column digit less `'0'` (as bytes):
/// that cell shows the shot, every other cell is unchanged, and the count
/// afloat drops by one exactly when that cell held a ship.
pub proof fn law_shot_lands_where_named(p: PlayerView, turn: Seq<char>)
    requires
        p.wf(),
        p.can_take(turn),
    ensures
        turn_cell(turn) == ((turn[0] as int) % 256 - 65) * 10 + ((turn[1] as int) % 256 - 48),
        ({
            let c = ((turn[0] as int) % 256 - 65) * 10 + ((turn[1] as int) % 256 - 48);
            let q = p.shot_at(turn_cell(turn));
            &&& 0 <= c < BOARD_CELLS
            &&& q.cells == p.cells.update(c, Cell::Shot)
            &&& q.units_left == if p.cells[c] == Cell::Ship {
                p.units_left - 1
            } else {
                p.units_left as int
            }
        }),
{
}

} // verus!
