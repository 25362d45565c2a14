use terminal_battle_ship::{
    turn_continues, Cell, Fleet, Orientation, Player, Ships, Shot, N_SHIPS,
};

fn full_fleet() -> Fleet {
    let mut fleet = Fleet::new();
    fleet.add_ship(Ships::Carrier, (1, 1), Orientation::Vertical).unwrap();
    fleet.add_ship(Ships::Battleship, (8, 3), Orientation::Horizontal).unwrap();
    fleet
}

fn loaded_player() -> Player {
    let mut player = Player::new();
    let mut template = full_fleet().get_board().clone().into_bytes();
    template.resize(1024, 0);
    player.build_fleet(template);
    player
}

#[test]
fn new_player_shows_water() {
    let player = Player::new();
    assert_eq!(player.board_str(true), "O".repeat(100));
    assert_eq!(player.board_str(false), "O".repeat(100));
    assert!(!player.is_sunk());
}

#[test]
fn fleet_board_survives_the_trip() {
    let fleet = full_fleet();
    let player = loaded_player();
    assert_eq!(&player.board_str(true), fleet.get_board());
    assert_eq!(player.board_str(false), "O".repeat(100));
}

#[test]
fn only_s_bytes_become_ships() {
    let mut player = Player::new();
    let mut template = vec![b'O'; 100];
    template[0] = b'S';
    template[1] = b's';
    template[2] = b'X';
    template[99] = b'S';
    player.build_fleet(template);
    let text = player.board_str(true);
    let expected: String = (0..100)
        .map(|i| if i == 0 || i == 99 { 'S' } else { 'O' })
        .collect();
    assert_eq!(text, expected);
}

#[test]
fn hits_and_misses() {
    let mut player = loaded_player();
    // B1 is row 1, column 1: a carrier cell.
    assert_eq!(player.receive_shot(String::from("B1")), Shot::Hit);
    // A0 is water.
    assert_eq!(player.receive_shot(String::from("A0")), Shot::Miss);
    let text = player.board_str(false);
    assert_eq!(&text[0..1], "X");
    assert_eq!(&text[11..12], "X");
    assert_eq!(text.chars().filter(|c| *c == 'S').count(), 0);
    let shown = player.board_str(true);
    assert_eq!(shown.chars().filter(|c| *c == 'S').count(), N_SHIPS - 1);
}

#[test]
fn a_second_shot_at_a_cell_misses() {
    let mut player = loaded_player();
    assert_eq!(player.receive_shot(String::from("C1")), Shot::Hit);
    assert_eq!(player.receive_shot(String::from("C1")), Shot::Miss);
    assert_eq!(
        player.board_str(true).chars().filter(|c| *c == 'S').count(),
        N_SHIPS - 1
    );
}

#[test]
fn the_turn_string_may_carry_padding() {
    let mut player = loaded_player();
    let mut turn = String::from("I3");
    turn.push_str(&"\0".repeat(1022));
    assert_eq!(player.receive_shot(turn), Shot::Hit);
}

#[test]
fn sunk_after_every_ship_cell_is_shot() {
    let mut player = loaded_player();
    let turns = ["B1", "C1", "D1", "E1", "F1", "I3", "I4", "I5", "I6"];
    for (n, turn) in turns.iter().enumerate() {
        assert!(!player.is_sunk());
        assert_eq!(player.receive_shot(String::from(*turn)), Shot::Hit);
        let last = n == turns.len() - 1;
        assert_eq!(turn_continues(&Shot::Hit, player.is_sunk()), !last);
    }
    assert!(player.is_sunk());
    assert!(!player.board_str(true).contains('S'));
}

#[test]
fn a_miss_ends_the_turn() {
    assert!(!turn_continues(&Shot::Miss, false));
    assert!(!turn_continues(&Shot::Miss, true));
    assert!(turn_continues(&Shot::Hit, false));
    assert!(!turn_continues(&Shot::Hit, true));
}

#[test]
fn cells_compare() {
    assert_eq!(Cell::Ship, Cell::Ship);
    assert_ne!(Cell::Free, Cell::Shot);
}

fn turn_for(cell: usize) -> String {
    let row = (b'A' + (cell / 10) as u8) as char;
    let col = (b'0' + (cell % 10) as u8) as char;
    format!("{}{}", row, col)
}

#[test]
fn a_template_with_few_ships_never_runs_the_count_dry() {
    let mut player = Player::new();
    let mut template = vec![b'O'; 100];
    template[5] = b'S';
    template[50] = b'S';
    template[99] = b'S';
    player.build_fleet(template);
    for cell in 0..100 {
        assert!(player.can_take(&turn_for(cell)));
        player.receive_shot(turn_for(cell));
    }
    // Three hits out of the nine units the count starts at.
    assert!(!player.is_sunk());
}

#[test]
fn nine_ship_bytes_anywhere_sink_when_all_are_shot() {
    let ships = [0usize, 9, 13, 27, 44, 58, 71, 86, 99];
    let mut player = Player::new();
    let mut template = vec![b'O'; 100];
    for c in ships {
        template[c] = b'S';
    }
    player.build_fleet(template);
    // Shots at water and repeated shots do not count.
    player.receive_shot(turn_for(1));
    player.receive_shot(turn_for(0));
    player.receive_shot(turn_for(0));
    for (n, c) in ships.iter().enumerate().skip(1) {
        assert!(!player.is_sunk());
        assert_eq!(player.receive_shot(turn_for(*c)), Shot::Hit);
        assert_eq!(player.is_sunk(), n == ships.len() - 1);
    }
    assert!(player.is_sunk());
}
