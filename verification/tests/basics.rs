use tetris::{
    shape_points, GridCell, GridCellType, OutOfRange, Point, Tetris, COL_COUNT, POINT_COUNT,
    ROWS_PER_LEVEL, ROW_COUNT, SHAPE_COUNT, SQUARE_SHAPE_INDEX,
};

const VOID: GridCell = GridCell { cell_type: GridCellType::Void, shape_index: -1 };

/// The board, one string for each row: `.` void, `#` fixed, `@` the moving
/// piece, `+` its shadow.
fn picture(game: &Tetris) -> Vec<String> {
    (0..ROW_COUNT as i32)
        .map(|row| {
            (0..COL_COUNT as i32)
                .map(|col| match game.get_grid_cell(col, row).cell_type {
                    GridCellType::Void => '.',
                    GridCellType::Fixed => '#',
                    GridCellType::Shape => '@',
                    GridCellType::Shadow => '+',
                })
                .collect()
        })
        .collect()
}

#[test]
fn the_board_is_ten_by_twenty_two() {
    assert_eq!(COL_COUNT, 10);
    assert_eq!(ROW_COUNT, 22);
    assert_eq!(SHAPE_COUNT, 7);
    assert_eq!(POINT_COUNT, 4);
    assert_eq!(ROWS_PER_LEVEL, 10);
    assert_eq!(SQUARE_SHAPE_INDEX, 1);
}

#[test]
fn the_default_cell_is_void() {
    assert_eq!(GridCell::default(), VOID);
}

#[test]
fn the_catalog_holds_the_seven_pieces() {
    let p = |x: i16, y: i16| Point { x, y };
    assert_eq!(shape_points(0), [p(0, 0), p(-1, 0), p(0, -1), p(1, 0)]);
    assert_eq!(shape_points(1), [p(0, 0), p(-1, 0), p(-1, -1), p(0, -1)]);
    assert_eq!(shape_points(2), [p(0, 0), p(0, -1), p(-1, -1), p(1, 0)]);
    assert_eq!(shape_points(3), [p(0, 0), p(0, -1), p(1, -1), p(-1, 0)]);
    assert_eq!(shape_points(4), [p(0, 0), p(1, 0), p(1, -1), p(-1, 0)]);
    assert_eq!(shape_points(5), [p(0, 0), p(-1, 0), p(-1, -1), p(1, 0)]);
    assert_eq!(shape_points(6), [p(0, 0), p(-1, 0), p(-2, 0), p(1, 0)]);
}

#[test]
fn a_new_game_is_over_and_empty() {
    let game = Tetris::new();
    assert!(game.get_game_over());
    assert_eq!(game.get_score(), 0);
    assert_eq!(game.get_level(), 0);
    assert_eq!(game.get_rows_completed(), 0);
    assert_eq!((game.get_col(), game.get_row()), (0, 0));
    assert_eq!(game.get_next_shape_index(), 0);
    assert_eq!(game.get_next_shape(), shape_points(0));
    for col in 0..COL_COUNT as i32 {
        for row in 0..ROW_COUNT as i32 {
            assert_eq!(game.get_grid_cell(col, row), VOID);
        }
    }
}

#[test]
fn every_cell_of_the_board_can_be_read() {
    let mut game = Tetris::new();
    game.start_game_with(2, 4);
    for col in 0..COL_COUNT as i32 {
        for row in 0..ROW_COUNT as i32 {
            assert_eq!(game.cell_at(col, row), Ok(game.get_grid_cell(col, row)));
        }
    }
}

#[test]
fn a_cell_off_the_board_is_an_error() {
    let mut game = Tetris::new();
    game.start_game_with(2, 4);
    for (col, row) in [
        (-1, 0),
        (0, -1),
        (-1, -1),
        (10, 0),
        (0, 22),
        (10, 22),
        (9, 22),
        (10, 21),
        (5, 100),
        (-7, 3),
        (i32::MIN, i32::MIN),
        (i32::MAX, i32::MAX),
        (i32::MAX, 0),
        (0, i32::MIN),
    ] {
        assert_eq!(game.cell_at(col, row), Err(OutOfRange { col, row }));
    }
    for col in -3..13 {
        for row in -3..25 {
            let on_board = (0..10).contains(&col) && (0..22).contains(&row);
            assert_eq!(game.cell_at(col, row).is_ok(), on_board);
        }
    }
}

#[test]
fn a_started_game_shows_the_piece_and_its_shadow_and_nothing_else() {
    let mut game = Tetris::new();
    game.start_game_with(0, 3);
    assert!(!game.get_game_over());
    assert_eq!(game.get_score(), 0);
    assert_eq!(game.get_level(), 0);
    assert_eq!(game.get_rows_completed(), 0);
    assert_eq!((game.get_col(), game.get_row()), (5, 0));
    assert_eq!(game.get_next_shape_index(), 3);
    assert_eq!(game.get_next_shape(), shape_points(3));
    let mut expected = vec!["..........".to_string(); 22];
    expected[0] = "....@@@...".to_string();
    expected[20] = ".....+....".to_string();
    expected[21] = "....+++...".to_string();
    assert_eq!(picture(&game), expected);
    for col in 0..10 {
        for row in 0..22 {
            let cell = game.get_grid_cell(col, row);
            match cell.cell_type {
                GridCellType::Shape => assert_eq!(cell.shape_index, 0),
                _ => assert_eq!(cell.shape_index, -1),
            }
        }
    }
}

#[test]
fn a_game_started_after_a_game_is_over_starts_afresh() {
    let mut game = Tetris::new();
    game.start_game_with(1, 1);
    // Squares, left where they enter, pile up to the top.
    let mut pieces = 0;
    while !game.get_game_over() {
        assert!(game.has_headroom());
        game.hard_drop();
        game.tick_with(1);
        pieces += 1;
    }
    assert_eq!(pieces, 11);
    assert_eq!(picture(&game), vec!["....##....".to_string(); 22]);

    game.start_game_with(6, 2);
    assert!(!game.get_game_over());
    assert_eq!(game.get_score(), 0);
    assert_eq!(game.get_level(), 0);
    assert_eq!(game.get_rows_completed(), 0);
    assert_eq!(game.get_next_shape_index(), 2);
    let mut expected = vec!["..........".to_string(); 22];
    expected[0] = "...@@@@...".to_string();
    expected[21] = "...++++...".to_string();
    assert_eq!(picture(&game), expected);
}

#[test]
fn starting_a_game_that_is_in_play_changes_nothing() {
    let mut game = Tetris::new();
    game.start_game_with(4, 5);
    assert!(game.set_col(2));
    assert!(game.set_row(7));
    let before = picture(&game);
    game.start_game_with(0, 0);
    assert_eq!(picture(&game), before);
    assert_eq!((game.get_col(), game.get_row()), (2, 7));
    assert_eq!(game.get_next_shape_index(), 5);
    game.start_game();
    assert_eq!(picture(&game), before);
    assert_eq!(game.get_next_shape_index(), 5);
}

#[test]
fn ending_a_game_keeps_the_board() {
    let mut game = Tetris::new();
    game.start_game_with(4, 5);
    assert!(game.set_col(2));
    let before = picture(&game);
    game.end_game();
    assert!(game.get_game_over());
    assert_eq!(picture(&game), before);
    assert!(!game.set_col(3));
    assert!(!game.set_row(1));
    assert!(!game.try_move(1, 0));
    assert!(!game.rotate(true));
    assert!(!game.hard_drop());
    game.tick_with(0);
    game.tick();
    assert_eq!(picture(&game), before);
    assert_eq!((game.get_col(), game.get_row()), (2, 0));
}

#[test]
fn pieces_drawn_at_random_are_pieces_of_the_catalog() {
    let mut seen = [false; 7];
    let mut game = Tetris::new();
    for _ in 0..40 {
        game.start_game();
        assert!(!game.get_game_over());
        while !game.get_game_over() {
            let index = game.get_next_shape_index();
            assert!((0..7).contains(&index));
            assert_eq!(game.get_next_shape(), shape_points(index));
            seen[index as usize] = true;
            assert!(game.has_headroom());
            game.hard_drop();
            game.tick();
        }
    }
    // Some hundreds of draws that all gave the same piece would not be chance.
    assert!(seen.iter().filter(|&&s| s).count() > 1);
}

#[test]
fn at_level_zero_a_tick_takes_a_second() {
    let mut game = Tetris::new();
    assert_eq!(game.get_tick_millis(), 1000);
    game.start_game_with(3, 3);
    assert_eq!(game.get_level(), 0);
    assert_eq!(game.get_tick_millis(), 1000);
}
