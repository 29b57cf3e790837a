use tetris::{GridCellType, Tetris, COL_COUNT, ROW_COUNT};

/// The board, one string for each row: `.` void, `#` fixed, `@` the moving
/// piece, `+` its shadow.
fn picture(game: &Tetris) -> Vec<String> {
    (0..ROW_COUNT as i32)
        .map(|row| {
            (0..COL_COUNT as i32)
                .map(|col| match game.get_grid_cell(col, row).cell_type {
                    GridCellType::Void => '.',
                    GridCellType::Fixed => '#',
                    GridCellType::Shape => '@',
                    GridCellType::Shadow => '+',
                })
                .collect()
        })
        .collect()
}

#[test]
fn the_game_is_over_when_the_next_piece_does_not_fit() {
    let mut game = Tetris::new();
    game.start_game_with(1, 1);
    for piece in 1..=10 {
        assert!(game.hard_drop());
        game.tick_with(1);
        assert!(!game.get_game_over(), "piece {}", piece);
    }
    // Ten squares stand on each other; the eleventh fills the top rows.
    assert_eq!(picture(&game)[0], "....@@....");
    assert_eq!(picture(&game)[1], "....++....");
    assert_eq!(picture(&game)[2], "....##....");
    assert!(game.hard_drop());
    assert_eq!(game.get_row(), 1);
    game.tick_with(4);
    assert!(game.get_game_over());
    assert_eq!(picture(&game), vec!["....##....".to_string(); 22]);
    assert_eq!(game.get_score(), 0);
    assert_eq!(game.get_next_shape_index(), 4);

    // Nothing moves any more.
    let before = picture(&game);
    assert!(!game.set_col(2));
    assert!(!game.set_col(5));
    assert!(!game.set_row(0));
    assert!(!game.set_row(1));
    assert!(!game.try_move(0, 0));
    assert!(!game.try_move(1, 0));
    assert!(!game.try_move(0, 1));
    assert!(!game.rotate(true));
    assert!(!game.rotate(false));
    assert!(!game.hard_drop());
    game.tick_with(2);
    game.tick();
    assert!(game.get_game_over());
    assert_eq!(picture(&game), before);
    assert_eq!(game.get_next_shape_index(), 4);
    assert_eq!((game.get_col(), game.get_row()), (5, 0));
}

#[test]
fn a_piece_that_settles_under_the_entrance_ends_the_game() {
    let mut game = Tetris::new();
    game.start_game_with(6, 6);
    // Upright bars in the column where pieces enter.
    for _ in 0..5 {
        assert!(game.rotate(true));
        assert!(game.hard_drop());
        game.tick_with(6);
    }
    assert!(!game.get_game_over());
    assert_eq!(picture(&game)[0], "...@@@@...");
    assert_eq!(picture(&game)[1], "...++++...");
    assert_eq!(picture(&game)[2], ".....#....");
    // Two rows are room enough for the sixth bar to stand upright: the rest
    // of it is above the board.
    assert!(game.rotate(true));
    assert_eq!(picture(&game)[0], ".....@....");
    assert_eq!(picture(&game)[1], ".....@....");
    assert!(game.hard_drop());
    assert_eq!(game.get_row(), 0);
    game.tick_with(6);
    assert!(game.get_game_over());
    assert_eq!(picture(&game), vec![".....#....".to_string(); 22]);
}
