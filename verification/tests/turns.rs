use tetris::{GridCellType, Tetris, COL_COUNT, ROW_COUNT};

/// The board, one string for each row: `.` void, `#` fixed, `@` the moving
/// piece, `+` its shadow.
fn picture(game: &Tetris) -> Vec<String> {
    (0..ROW_COUNT as i32)
        .map(|row| {
            (0..COL_COUNT as i32)
                .map(|col| match game.get_grid_cell(col, row).cell_type {
                    GridCellType::Void => '.',
                    GridCellType::Fixed => '#',
                    GridCellType::Shape => '@',
                    GridCellType::Shadow => '+',
                })
                .collect()
        })
        .collect()
}

/// Rows `from` to `to` of the board.
fn rows(game: &Tetris, from: usize, to: usize) -> Vec<String> {
    picture(game)[from..=to].to_vec()
}

#[test]
fn the_square_is_never_turned() {
    let mut game = Tetris::new();
    game.start_game_with(1, 0);
    for (col, row) in [(5, 0), (1, 0), (9, 3), (4, 12), (6, 21)] {
        assert!(game.set_col(col));
        assert!(game.set_row(row));
        let cells: Vec<_> = (0..10)
            .flat_map(|c| (0..22).map(move |r| (c, r)))
            .map(|(c, r)| game.get_grid_cell(c, r))
            .collect();
        for clockwise in [true, false] {
            assert!(!game.rotate(clockwise));
            let after: Vec<_> = (0..10)
                .flat_map(|c| (0..22).map(move |r| (c, r)))
                .map(|(c, r)| game.get_grid_cell(c, r))
                .collect();
            assert_eq!(after, cells);
            assert_eq!((game.get_col(), game.get_row()), (col, row));
        }
    }
}

#[test]
fn a_piece_turns_about_its_anchor() {
    let mut game = Tetris::new();
    game.start_game_with(0, 0);
    assert!(game.set_row(5));
    assert_eq!(rows(&game, 4, 6), [".....@....", "....@@@...", ".........."]);
    assert!(game.rotate(true));
    assert_eq!(rows(&game, 4, 6), [".....@....", ".....@@...", ".....@...."]);
    assert!(game.rotate(true));
    assert_eq!(rows(&game, 4, 6), ["..........", "....@@@...", ".....@...."]);
    assert!(game.rotate(true));
    assert_eq!(rows(&game, 4, 6), [".....@....", "....@@....", ".....@...."]);
    assert!(game.rotate(true));
    assert_eq!(rows(&game, 4, 6), [".....@....", "....@@@...", ".........."]);
    assert!(game.rotate(false));
    assert_eq!(rows(&game, 4, 6), [".....@....", "....@@....", ".....@...."]);
    assert!(game.rotate(false));
    assert_eq!(rows(&game, 4, 6), ["..........", "....@@@...", ".....@...."]);
    assert!(game.rotate(false));
    assert_eq!(rows(&game, 4, 6), [".....@....", ".....@@...", ".....@...."]);
    assert!(game.rotate(false));
    assert_eq!(rows(&game, 4, 6), [".....@....", "....@@@...", ".........."]);
    assert_eq!((game.get_col(), game.get_row()), (5, 5));
    // The shadow turns with the piece.
    assert_eq!(rows(&game, 20, 21), [".....+....", "....+++..."]);
    assert!(game.rotate(true));
    assert_eq!(rows(&game, 19, 21), [".....+....", ".....++...", ".....+...."]);
}

#[test]
fn a_turn_at_a_wall_kicks_the_piece_away_from_it() {
    let mut game = Tetris::new();
    game.start_game_with(6, 1);
    assert!(game.rotate(true));
    assert!(game.set_col(0));
    assert!(game.rotate(true));
    assert_eq!(game.get_col(), 1);
    assert_eq!(picture(&game)[0], "@@@@......");
    assert_eq!(picture(&game)[21], "++++......");

    let mut game = Tetris::new();
    game.start_game_with(6, 1);
    assert!(game.rotate(true));
    assert!(game.set_col(9));
    assert!(game.rotate(false));
    assert_eq!(game.get_col(), 8);
    assert_eq!(picture(&game)[0], "......@@@@");
    assert_eq!(picture(&game)[21], "......++++");
}

#[test]
fn kicks_on_an_empty_board() {
    // (piece, quarter turns before, column, clockwise) and the column after,
    // wherever the turn moves the piece.
    let kicks = [
        ((0, 1, 0, true), 1),
        ((0, 1, 0, false), 1),
        ((0, 3, 9, true), 8),
        ((0, 3, 9, false), 8),
        ((2, 1, 0, true), 1),
        ((2, 1, 0, false), 1),
        ((2, 3, 9, true), 8),
        ((2, 3, 9, false), 8),
        ((3, 1, 0, true), 1),
        ((3, 1, 0, false), 1),
        ((3, 3, 9, true), 8),
        ((3, 3, 9, false), 8),
        ((4, 1, 0, true), 1),
        ((4, 1, 0, false), 1),
        ((4, 3, 9, true), 8),
        ((4, 3, 9, false), 8),
        ((5, 1, 0, true), 1),
        ((5, 1, 0, false), 1),
        ((5, 3, 9, true), 8),
        ((5, 3, 9, false), 8),
        ((6, 1, 0, true), 1),
        ((6, 1, 0, false), 2),
        ((6, 1, 1, false), 2),
        ((6, 1, 8, true), 7),
        ((6, 1, 9, true), 7),
        ((6, 1, 9, false), 8),
        ((6, 3, 0, true), 2),
        ((6, 3, 0, false), 1),
        ((6, 3, 1, true), 2),
        ((6, 3, 8, false), 7),
        ((6, 3, 9, true), 8),
        ((6, 3, 9, false), 7),
    ];
    let mut turns_tried = 0;
    for piece in [0, 2, 3, 4, 5, 6] {
        for turns in 0..4 {
            for col in 0..10 {
                for clockwise in [true, false] {
                    let mut game = Tetris::new();
                    game.start_game_with(piece, 0);
                    for _ in 0..turns {
                        assert!(game.rotate(true));
                    }
                    if !game.set_col(col) {
                        continue;
                    }
                    assert!(game.set_row(5));
                    let expected = kicks
                        .iter()
                        .find(|(from, _)| *from == (piece, turns, col, clockwise))
                        .map_or(col, |(_, to)| *to);
                    assert!(game.rotate(clockwise));
                    assert_eq!(
                        game.get_col(),
                        expected,
                        "{:?}",
                        (piece, turns, col, clockwise)
                    );
                    assert_eq!(game.get_row(), 5);
                    turns_tried += 1;
                }
            }
        }
    }
    assert_eq!(turns_tried, 408);
}

#[test]
fn a_piece_is_not_turned_into_the_floor() {
    let mut game = Tetris::new();
    game.start_game_with(6, 0);
    assert!(game.hard_drop());
    assert_eq!(game.get_row(), 21);
    let before = picture(&game);
    assert!(!game.rotate(true));
    assert!(!game.rotate(false));
    assert_eq!(picture(&game), before);
    assert!(game.set_row(20));
    assert!(game.rotate(true));
    assert_eq!((game.get_col(), game.get_row()), (5, 20));
    assert_eq!(rows(&game, 17, 21), ["..........", ".....@....", ".....@....", ".....@....", ".....@...."]);
}

#[test]
fn a_kick_into_fixed_cells_is_refused() {
    let mut game = Tetris::new();
    game.start_game_with(1, 6);
    assert!(game.set_col(3));
    assert!(game.hard_drop());
    game.tick_with(0);
    assert!(game.rotate(true));
    assert!(game.set_col(0));
    assert!(game.set_row(20));
    assert_eq!(rows(&game, 17, 21), ["..........", "@.........", "@.........", "@.##......", "@.##......"]);
    let before = picture(&game);
    assert!(!game.rotate(true));
    assert!(!game.rotate(false));
    assert_eq!(picture(&game), before);
    assert_eq!((game.get_col(), game.get_row()), (0, 20));
    // One row up there is room.
    assert!(game.set_row(19));
    assert!(game.rotate(true));
    assert_eq!(game.get_col(), 1);
    assert_eq!(rows(&game, 17, 21), ["..........", "..........", "@@@@......", "..##......", "..##......"]);
}

#[test]
fn a_turn_onto_fixed_cells_is_refused() {
    let mut game = Tetris::new();
    game.start_game_with(1, 6);
    assert!(game.hard_drop());
    game.tick_with(0);
    assert!(game.rotate(true));
    assert!(game.set_col(6));
    assert!(game.set_row(20));
    assert_eq!(rows(&game, 17, 21), ["..........", "......@...", "......@...", "....##@...", "....##@..."]);
    let before = picture(&game);
    assert!(!game.rotate(true));
    assert!(!game.rotate(false));
    assert_eq!(picture(&game), before);
    assert_eq!((game.get_col(), game.get_row()), (6, 20));
}
