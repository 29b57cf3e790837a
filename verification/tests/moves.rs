use tetris::{GridCell, GridCellType, Tetris, COL_COUNT, ROW_COUNT};

/// The board, one string for each row: `.` void, `#` fixed, `@` the moving
/// piece, `+` its shadow.
fn picture(game: &Tetris) -> Vec<String> {
    (0..ROW_COUNT as i32)
        .map(|row| {
            (0..COL_COUNT as i32)
                .map(|col| match game.get_grid_cell(col, row).cell_type {
                    GridCellType::Void => '.',
                    GridCellType::Fixed => '#',
                    GridCellType::Shape => '@',
                    GridCellType::Shadow => '+',
                })
                .collect()
        })
        .collect()
}

/// The rows of the board from `from` down to the floor.
fn bottom(game: &Tetris, from: usize) -> Vec<String> {
    picture(game).split_off(from)
}

#[test]
fn a_piece_goes_down_to_the_floor_and_no_further() {
    let mut game = Tetris::new();
    game.start_game_with(0, 3);
    assert_eq!((game.get_col(), game.get_row()), (5, 0));
    // The floor is under the last of the 22 rows: 21 steps down, and no more.
    for step in 1..ROW_COUNT as i32 {
        assert!(game.try_move(0, 1), "step {}", step);
        assert_eq!(game.get_row(), step);
    }
    assert_eq!(game.get_row(), 21);
    assert!(!game.try_move(0, 1));
    assert!(!game.set_row(22));
    assert_eq!((game.get_col(), game.get_row()), (5, 21));
    assert_eq!(bottom(&game, 19), ["..........", ".....@....", "....@@@..."]);

    // The next tick fixes the piece where it is.
    assert!(game.has_headroom());
    game.tick_with(2);
    let fixed = |col: i32, row: i32| {
        game.get_grid_cell(col, row) == GridCell { cell_type: GridCellType::Fixed, shape_index: 0 }
    };
    assert!(fixed(4, 21) && fixed(5, 21) && fixed(6, 21) && fixed(5, 20));
    assert_eq!(
        bottom(&game, 18),
        [".....++...", "....++....", ".....#....", "....###..."]
    );
    assert_eq!(picture(&game)[0], "....@@....");
    assert_eq!((game.get_col(), game.get_row()), (5, 0));
    assert_eq!(game.get_next_shape_index(), 2);
    assert_eq!(game.get_score(), 0);
    assert!(!game.get_game_over());
}

#[test]
fn a_piece_at_the_left_wall_does_not_go_left() {
    let mut game = Tetris::new();
    game.start_game_with(6, 1);
    // Only the bar, upright, can stand in column 0.
    assert!(game.rotate(true));
    assert!(game.set_col(0));
    assert_eq!(game.get_col(), 0);
    let before = picture(&game);
    assert!(!game.set_col(-1));
    assert!(!game.try_move(-1, 0));
    assert_eq!((game.get_col(), game.get_row()), (0, 0));
    assert_eq!(picture(&game), before);
    assert_eq!(before[0], "@.........");
    assert_eq!(before[1], "@.........");
    assert_eq!(bottom(&game, 18), ["+.........", "+.........", "+.........", "+........."]);
}

#[test]
fn a_piece_stops_at_either_wall() {
    let mut game = Tetris::new();
    game.start_game_with(0, 1);
    let mut steps = 0;
    while game.try_move(-1, 0) {
        steps += 1;
    }
    assert_eq!((steps, game.get_col()), (4, 1));
    assert_eq!(picture(&game)[0], "@@@.......");
    assert!(!game.set_col(0));
    steps = 0;
    while game.try_move(1, 0) {
        steps += 1;
    }
    assert_eq!((steps, game.get_col()), (7, 8));
    assert_eq!(picture(&game)[0], ".......@@@");
    assert!(!game.set_col(9));
    assert!(!game.set_col(10));
    assert!(!game.set_col(i32::MAX));
    assert!(!game.set_col(i32::MIN));
    assert_eq!(game.get_col(), 8);
}

#[test]
fn a_piece_can_be_taken_to_any_place_where_it_fits() {
    let mut game = Tetris::new();
    game.start_game_with(6, 1);
    assert!(game.set_col(2));
    assert!(game.set_row(13));
    assert_eq!((game.get_col(), game.get_row()), (2, 13));
    assert_eq!(picture(&game)[13], "@@@@......");
    assert_eq!(picture(&game)[21], "++++......");
    assert!(game.set_row(4));
    assert!(game.try_move(6, 10));
    assert_eq!((game.get_col(), game.get_row()), (8, 14));
    assert_eq!(picture(&game)[14], "......@@@@");
    assert_eq!(picture(&game)[4], "..........");
    assert_eq!(picture(&game)[21], "......++++");
    // Where it does not fit, it stays.
    assert!(!game.try_move(1, 0));
    assert!(!game.try_move(0, 8));
    assert!(!game.try_move(0, -15));
    assert!(!game.set_row(-1));
    assert!(!game.try_move(i32::MAX, i32::MAX));
    assert!(!game.try_move(i32::MIN, i32::MIN));
    assert_eq!((game.get_col(), game.get_row()), (8, 14));
    assert!(game.try_move(0, 0));
    assert_eq!((game.get_col(), game.get_row()), (8, 14));
}

#[test]
fn the_shadow_lies_where_the_piece_would_land() {
    let mut game = Tetris::new();
    game.start_game_with(1, 6);
    assert!(game.set_col(3));
    assert!(game.hard_drop());
    game.tick_with(0);
    // A bar over the square that has settled.
    assert_eq!(picture(&game)[0], "...@@@@...");
    assert_eq!(bottom(&game, 18), ["..........", "...++++...", "..##......", "..##......"]);
    assert!(game.set_col(6));
    assert_eq!(bottom(&game, 18), ["..........", "..........", "..##......", "..##++++.."]);
    assert!(game.set_col(2));
    assert_eq!(bottom(&game, 18), ["..........", "++++......", "..##......", "..##......"]);
    // The piece meets its shadow.
    assert!(game.set_row(19));
    assert_eq!(bottom(&game, 18), ["..........", "@@@@......", "..##......", "..##......"]);
    assert!(!game.try_move(0, 1));
}

#[test]
fn a_hard_drop_takes_the_piece_to_its_shadow() {
    let mut game = Tetris::new();
    game.start_game_with(4, 2);
    assert!(game.set_col(7));
    assert_eq!(picture(&game)[0], "......@@@.");
    assert_eq!(bottom(&game, 20), ["........+.", "......+++."]);
    assert!(game.hard_drop());
    assert_eq!((game.get_col(), game.get_row()), (7, 21));
    assert_eq!(picture(&game)[0], "..........");
    assert_eq!(bottom(&game, 20), ["........@.", "......@@@."]);
    // The piece has not settled: it can still be moved.
    assert!(game.set_col(1));
    assert_eq!(bottom(&game, 20), ["..@.......", "@@@......."]);
    // A second drop leaves it where it is.
    assert!(game.hard_drop());
    assert_eq!((game.get_col(), game.get_row()), (1, 21));
    assert_eq!(game.get_score(), 0);
    assert!(!game.get_game_over());
}

#[test]
fn a_tick_takes_the_piece_down_one_row() {
    let mut game = Tetris::new();
    game.start_game_with(5, 2);
    for row in 1..=21 {
        game.tick_with(4);
        assert_eq!((game.get_col(), game.get_row()), (5, row));
        assert_eq!(game.get_next_shape_index(), 2);
    }
    assert_eq!(bottom(&game, 20), ["....@.....", "....@@@..."]);
    game.tick();
    assert_eq!((game.get_col(), game.get_row()), (5, 0));
    assert_eq!(bottom(&game, 19), ["....++....", "....#++...", "....###..."]);
    assert!((0..7).contains(&game.get_next_shape_index()));
}
