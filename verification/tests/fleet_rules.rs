use terminal_battle_ship::{size_of, Fleet, Orientation, Ships, HEIGHT, N_SHIPS, WIDTH};

fn board_with(ship_cells: &[usize]) -> String {
    (0..WIDTH * HEIGHT)
        .map(|i| if ship_cells.contains(&i) { 'S' } else { 'O' })
        .collect()
}

#[test]
fn new_fleet_is_all_water() {
    let fleet = Fleet::new();
    assert_eq!(fleet.get_board(), &"O".repeat(100));
    assert!(!fleet.all_ships_placed());
    assert!(fleet.placed_ships().is_empty());
}

#[test]
fn quantities_of_a_new_fleet() {
    let fleet = Fleet::new();
    let q = fleet.get_quantities();
    assert_eq!(q.len(), 4);
    assert!(matches!(q[0], (Ships::Carrier, 1)));
    assert!(matches!(q[1], (Ships::Battleship, 1)));
    assert!(matches!(q[2], (Ships::Cruiser, 0)));
    assert!(matches!(q[3], (Ships::Destroyer, 0)));
}

#[test]
fn ship_sizes() {
    assert_eq!(size_of(&Ships::Carrier), 5);
    assert_eq!(size_of(&Ships::Battleship), 4);
    assert_eq!(size_of(&Ships::Cruiser), 3);
    assert_eq!(size_of(&Ships::Destroyer), 2);
}

#[test]
fn placing_marks_exactly_the_ship_cells() {
    let mut fleet = Fleet::new();
    fleet.add_ship(Ships::Carrier, (1, 1), Orientation::Vertical).unwrap();
    assert_eq!(fleet.get_board(), &board_with(&[11, 21, 31, 41, 51]));
    fleet.add_ship(Ships::Battleship, (8, 3), Orientation::Horizontal).unwrap();
    assert_eq!(fleet.get_board(), &board_with(&[11, 21, 31, 41, 51, 83, 84, 85, 86]));
    assert!(fleet.all_ships_placed());
    let q = fleet.get_quantities();
    assert!(matches!(q[0], (Ships::Carrier, 0)));
    assert!(matches!(q[1], (Ships::Battleship, 0)));
    assert_eq!(fleet.get_board().chars().filter(|c| *c == 'S').count(), N_SHIPS);
    let placed = fleet.placed_ships();
    assert_eq!(placed.len(), 2);
    assert!(matches!(placed[0].1, Ships::Carrier));
    assert_eq!((placed[0].0.x, placed[0].0.y), (1, 1));
    assert!(matches!(placed[1].1, Ships::Battleship));
    assert_eq!((placed[1].0.x, placed[1].0.y), (8, 3));
}

#[test]
fn a_column_past_the_last_runs_into_the_next_row() {
    let mut fleet = Fleet::new();
    // Column 15 of row 0 is cell 15, that is row 1, column 5.
    fleet.add_ship(Ships::Battleship, (0, 15), Orientation::Vertical).unwrap();
    assert_eq!(fleet.get_board(), &board_with(&[15, 25, 35, 45]));
}

#[test]
fn the_room_test_allows_reaching_ten() {
    let mut fleet = Fleet::new();
    // A horizontal battleship from column 6 reaches 6 + 4 - 1 = 9.
    fleet.add_ship(Ships::Battleship, (2, 6), Orientation::Horizontal).unwrap();
    assert_eq!(fleet.get_board(), &board_with(&[26, 27, 28, 29]));
    // From column 7 it would reach 10, which the rule still lets through:
    // the last cell runs into the next row.
    let mut other = Fleet::new();
    other.add_ship(Ships::Battleship, (2, 7), Orientation::Horizontal).unwrap();
    assert_eq!(other.get_board(), &board_with(&[27, 28, 29, 30]));
    // From column 8 it reaches 11: refused.
    let mut third = Fleet::new();
    let e = third.add_ship(Ships::Battleship, (2, 8), Orientation::Horizontal).unwrap_err();
    assert_eq!(e, "There is no enough space to place ship");
}

#[test]
fn each_refusal_leaves_the_fleet_unchanged() {
    let mut fleet = Fleet::new();
    fleet.add_ship(Ships::Battleship, (1, 5), Orientation::Vertical).unwrap();
    let before = fleet.get_board().clone();
    assert_eq!(
        fleet.add_ship(Ships::Battleship, (5, 5), Orientation::Vertical).unwrap_err(),
        "No Battleships left"
    );
    assert_eq!(
        fleet.add_ship(Ships::Cruiser, (5, 5), Orientation::Vertical).unwrap_err(),
        "No Cruisers left"
    );
    assert_eq!(
        fleet.add_ship(Ships::Destroyer, (5, 5), Orientation::Vertical).unwrap_err(),
        "No Destroyers left"
    );
    assert_eq!(
        fleet.add_ship(Ships::Carrier, (9, 0), Orientation::Vertical).unwrap_err(),
        "There is no enough space to place ship"
    );
    assert_eq!(
        fleet.add_ship(Ships::Carrier, (4, 3), Orientation::Horizontal).unwrap_err(),
        "One of the cells has been already occupied"
    );
    assert_eq!(fleet.get_board(), &before);
    assert_eq!(fleet.placed_ships().len(), 1);
    assert!(matches!(fleet.get_quantities()[0], (Ships::Carrier, 1)));
}

#[test]
fn count_is_checked_before_room() {
    let mut fleet = Fleet::new();
    fleet.add_ship(Ships::Carrier, (0, 0), Orientation::Horizontal).unwrap();
    assert_eq!(
        fleet.add_ship(Ships::Carrier, (usize::MAX, 0), Orientation::Vertical).unwrap_err(),
        "No Carriers left"
    );
}

#[test]
fn inputs_that_would_stop_the_program_are_detected() {
    let fleet = Fleet::new();
    // Rows 6 to 10: row 10 is past the board.
    assert!(fleet.add_ship_panics(Ships::Carrier, (6, 0), Orientation::Vertical));
    // Cells 97 to 100: cell 100 is past the board.
    assert!(fleet.add_ship_panics(Ships::Battleship, (9, 7), Orientation::Horizontal));
    // The room test itself overflows.
    assert!(fleet.add_ship_panics(Ships::Carrier, (usize::MAX, 0), Orientation::Vertical));
    // Ordinary placements and plain refusals do not.
    assert!(!fleet.add_ship_panics(Ships::Carrier, (5, 0), Orientation::Vertical));
    assert!(!fleet.add_ship_panics(Ships::Carrier, (7, 0), Orientation::Vertical));
    assert!(!fleet.add_ship_panics(Ships::Cruiser, (6, 0), Orientation::Vertical));
}

#[test]
fn a_ship_met_before_the_edge_is_a_refusal() {
    let mut fleet = Fleet::new();
    fleet.add_ship(Ships::Battleship, (7, 0), Orientation::Horizontal).unwrap();
    // A vertical carrier from row 6, column 0 meets the battleship at row 7
    // before it would leave the board at row 10.
    assert!(!fleet.add_ship_panics(Ships::Carrier, (6, 0), Orientation::Vertical));
    assert_eq!(
        fleet.add_ship(Ships::Carrier, (6, 0), Orientation::Vertical).unwrap_err(),
        "One of the cells has been already occupied"
    );
}

#[test]
fn a_complete_fleet_refuses_every_further_ship() {
    let mut fleet = Fleet::new();
    fleet.add_ship(Ships::Carrier, (0, 0), Orientation::Horizontal).unwrap();
    fleet.add_ship(Ships::Battleship, (9, 0), Orientation::Horizontal).unwrap();
    assert!(fleet.all_ships_placed());
    let total: usize = fleet.get_quantities().iter().map(|q| q.1).sum();
    assert_eq!(total + fleet.placed_ships().len(), 2);
    assert_eq!(
        fleet.add_ship(Ships::Carrier, (5, 5), Orientation::Vertical).unwrap_err(),
        "No Carriers left"
    );
    // Even where the room test would overflow, the count comes first.
    assert!(!fleet.add_ship_panics(Ships::Battleship, (usize::MAX, 0), Orientation::Vertical));
    assert_eq!(
        fleet.add_ship(Ships::Battleship, (usize::MAX, 0), Orientation::Vertical).unwrap_err(),
        "No Battleships left"
    );
}

#[test]
fn the_room_test_overflows_exactly_when_start_plus_length_does() {
    let fleet = Fleet::new();
    // usize::MAX - 4 + 5 overflows.
    assert!(fleet.add_ship_panics(Ships::Carrier, (usize::MAX - 4, 0), Orientation::Vertical));
    assert!(fleet.add_ship_panics(Ships::Carrier, (0, usize::MAX - 4), Orientation::Horizontal));
    // usize::MAX - 5 + 5 does not; the ship is then refused for want of room.
    assert!(!fleet.add_ship_panics(Ships::Carrier, (usize::MAX - 5, 0), Orientation::Vertical));
    let mut other = Fleet::new();
    assert_eq!(
        other.add_ship(Ships::Carrier, (usize::MAX - 5, 0), Orientation::Vertical).unwrap_err(),
        "There is no enough space to place ship"
    );
}

#[test]
fn debug_text_lists_the_ten_slots() {
    let mut fleet = Fleet::new();
    let text = format!("{:?}", fleet);
    assert!(text.contains("ships_locations: [None, None, None, None, None, None, None, None, None, None]"));
    assert!(text.contains("ships_placed: 0"));
    fleet.add_ship(Ships::Carrier, (1, 1), Orientation::Vertical).unwrap();
    let text = format!("{:?}", fleet);
    assert!(text.contains("ships_locations: [Some((Position { x: 1, y: 1, orientation: Vertical }, Carrier)), None,"));
    assert!(text.contains("ships_placed: 1"));
    assert!(text.contains("carrier_count: 0"));
}
