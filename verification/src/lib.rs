//! The rules of a two-player game of battleship on a ten by ten board:
//! building a fleet, loading it into a player's board, taking shots, and
//! reading what the players type.
pub mod board;
pub mod display;
pub mod fleet;
pub mod input;
pub mod laws;
pub mod player;
pub mod text;

pub use board::{size_of, Orientation, Position, Ships, BOARD_CELLS, HEIGHT, N_SHIPS, SHIP_COUNT, WIDTH};
pub use display::{board_margin, cell_shade, Shade};
pub use fleet::{Fleet, FleetView};
pub use input::{
    check_play, check_play_panics, parse_orientation, parse_ship, parse_turn, trim_spaces,
};
pub use player::{turn_continues, Cell, Player, PlayerView, Shot};
