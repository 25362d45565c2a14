use terminal_battle_ship::{board_margin, cell_shade, Shade};

#[test]
fn margin_centres_the_drawing() {
    assert_eq!(board_margin(66), 0);
    assert_eq!(board_margin(67), 0);
    assert_eq!(board_margin(80), 7);
    assert_eq!(board_margin(200), 67);
}

#[test]
fn cells_are_shaded_by_what_they_show() {
    assert_eq!(cell_shade('X'), Shade::Red);
    assert_eq!(cell_shade('S'), Shade::Yellow);
    assert_eq!(cell_shade('O'), Shade::LightBlue);
    assert_eq!(cell_shade('?'), Shade::LightBlue);
}
