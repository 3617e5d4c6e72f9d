use tetris::board::{
    clear_previous_tetromino_from_board, collapse_full_row, copy_tetromino_positions,
    display_board, drop_tetromino, find_full_row, game_over, get_tetromino_positions,
    init_board, init_tetromino_to_board, is_full_row, is_row_full,
    is_tetromino_position_overlapping_with_block, is_tetromino_positions_out_of_bounds,
    move_tetromino_back_in_bounds, move_tetromino_sideways, write_tetromino_to_board, Board,
    Coordinate, MoveDirection, OutOfBounds, Positions, BOARD_HEIGHT, BOARD_WIDTH,
};
use tetris::cell::Cell;
use tetris::tetromino::{Tetromino, LBAR1, LINE, SBAR2, SQUARE, TBAR};

fn places(cells: [(isize, isize); 4]) -> Positions {
    [
        Coordinate::new(cells[0].0, cells[0].1),
        Coordinate::new(cells[1].0, cells[1].1),
        Coordinate::new(cells[2].0, cells[2].1),
        Coordinate::new(cells[3].0, cells[3].1),
    ]
}

fn fill_row(board: &mut Board, row: usize) {
    for col in 1..BOARD_WIDTH - 1 {
        board[row][col] = Cell::Block;
    }
}

fn count_full_rows(board: &Board) -> usize {
    (1..BOARD_HEIGHT - 1).filter(|row| is_row_full(board, *row)).count()
}

fn assert_border(board: &Board) {
    for row in 0..BOARD_HEIGHT {
        assert_eq!(board[row][0], Cell::Block);
        assert_eq!(board[row][BOARD_WIDTH - 1], Cell::Block);
    }
    for col in 0..BOARD_WIDTH {
        assert_eq!(board[BOARD_HEIGHT - 1][col], Cell::Block);
    }
}

#[test]
fn board_has_twelve_columns_and_twenty_two_rows() {
    assert_eq!(BOARD_WIDTH, 12);
    assert_eq!(BOARD_HEIGHT, 22);
}

#[test]
fn new_board_has_a_border_of_blocks_and_an_empty_well() {
    let board = init_board();
    for row in 0..BOARD_HEIGHT {
        for col in 0..BOARD_WIDTH {
            let border = row == BOARD_HEIGHT - 1 || col == 0 || col == BOARD_WIDTH - 1;
            let expected = if border { Cell::Block } else { Cell::Empty };
            assert_eq!(board[row][col], expected, "row {} column {}", row, col);
        }
    }
}

#[test]
fn new_board_has_an_open_top_row() {
    let board = init_board();
    assert_eq!(board[0][0], Cell::Block);
    assert_eq!(board[0][1], Cell::Empty);
    assert_eq!(board[0][10], Cell::Empty);
    assert_eq!(board[0][11], Cell::Block);
}

#[test]
fn coordinate_keeps_row_and_column_apart() {
    let coordinate = Coordinate::new(3, 7);
    assert_eq!(coordinate.get_y(), 3);
    assert_eq!(coordinate.get_x(), 7);
    assert_eq!(coordinate, Coordinate { y: 3, x: 7 });
}

#[test]
fn placing_the_line_stamps_four_cells_of_the_top_row() {
    let mut board = init_board();
    let positions = init_tetromino_to_board(&mut board, &LINE, 4, 0);
    assert_eq!(positions, places([(0, 4), (0, 5), (0, 6), (0, 7)]));
    let mut expected = init_board();
    for col in 4..8 {
        expected[0][col] = Cell::Block;
    }
    assert_eq!(board, expected);
}

#[test]
fn placing_lists_the_cells_row_by_row() {
    let mut board = init_board();
    let positions = init_tetromino_to_board(&mut board, &SBAR2, 2, 5);
    assert_eq!(positions, places([(5, 3), (6, 2), (6, 3), (7, 2)]));
    assert_eq!(board[5][3], Cell::Block);
    assert_eq!(board[6][2], Cell::Block);
    assert_eq!(board[6][3], Cell::Block);
    assert_eq!(board[7][2], Cell::Block);
    assert_eq!(board[5][2], Cell::Empty);
}

#[test]
fn placing_the_square_skips_its_empty_left_column() {
    let mut board = init_board();
    let positions = init_tetromino_to_board(&mut board, &SQUARE, 4, 0);
    assert_eq!(positions, places([(0, 5), (0, 6), (1, 5), (1, 6)]));
}

#[test]
fn placing_above_the_board_stamps_nothing() {
    let mut board = init_board();
    let positions = init_tetromino_to_board(&mut board, &LINE, 4, -1);
    assert_eq!(positions, places([(0, 0), (0, 0), (0, 0), (0, 0)]));
    assert_eq!(board, init_board());
}

#[test]
fn placing_beyond_the_third_last_column_stamps_nothing() {
    let mut board = init_board();
    let positions = init_tetromino_to_board(&mut board, &LBAR1, 10, 0);
    assert_eq!(positions, places([(0, 0), (0, 0), (0, 0), (0, 0)]));
    assert_eq!(board, init_board());
}

#[test]
fn placing_at_the_last_accepted_column_stamps_the_piece() {
    let mut board = init_board();
    let positions = init_tetromino_to_board(&mut board, &LBAR1, 9, 0);
    assert_eq!(positions, places([(0, 9), (1, 9), (2, 9), (2, 10)]));
}

#[test]
fn new_board_is_drawn_with_a_space_after_every_cell() {
    let text = display_board(&init_board());
    let mut expected = String::new();
    for _ in 0..21 {
        expected.push_str(&format!("# {}# \r\n", "  ".repeat(10)));
    }
    expected.push_str(&format!("{}\r\n", "# ".repeat(12)));
    assert_eq!(text, expected);
}

#[test]
fn drawing_shows_a_stamped_piece() {
    let mut board = init_board();
    init_tetromino_to_board(&mut board, &LINE, 4, 0);
    let text = display_board(&board);
    let first_line: &str = text.split("\r\n").next().unwrap();
    assert_eq!(first_line, format!("# {}{}{}# ", "  ".repeat(3), "# ".repeat(4), "  ".repeat(3)));
    assert_eq!(text.len(), 22 * 26);
}

#[test]
fn piece_falls_by_one_row_when_nothing_is_below() {
    let board = init_board();
    let mut positions = places([(0, 4), (0, 5), (0, 6), (0, 7)]);
    assert!(drop_tetromino(&mut positions, &board));
    assert_eq!(positions, places([(1, 4), (1, 5), (1, 6), (1, 7)]));
}

#[test]
fn flat_line_on_blocks_does_not_fall() {
    let mut board = init_board();
    for col in 4..8 {
        board[2][col] = Cell::Block;
    }
    let mut positions = places([(1, 4), (1, 5), (1, 6), (1, 7)]);
    assert!(!drop_tetromino(&mut positions, &board));
    assert_eq!(positions, places([(1, 4), (1, 5), (1, 6), (1, 7)]));
}

#[test]
fn one_block_below_keeps_the_whole_piece_up() {
    let mut board = init_board();
    board[2][6] = Cell::Block;
    let mut positions = places([(1, 4), (1, 5), (1, 6), (1, 7)]);
    assert!(!drop_tetromino(&mut positions, &board));
    assert_eq!(positions, places([(1, 4), (1, 5), (1, 6), (1, 7)]));
}

#[test]
fn piece_on_the_floor_does_not_fall() {
    let board = init_board();
    let mut positions = places([(20, 1), (20, 2), (20, 3), (20, 4)]);
    assert!(!drop_tetromino(&mut positions, &board));
    assert_eq!(positions, places([(20, 1), (20, 2), (20, 3), (20, 4)]));
}

#[test]
fn piece_drawn_on_the_board_is_not_in_its_own_way() {
    let mut board = init_board();
    let mut positions = places([(3, 5), (4, 5), (5, 5), (6, 5)]);
    write_tetromino_to_board(&positions, &mut board);
    assert!(drop_tetromino(&mut positions, &board));
    assert_eq!(positions, places([(4, 5), (5, 5), (6, 5), (7, 5)]));
}

#[test]
fn drawn_piece_is_still_stopped_by_a_foreign_block() {
    let mut board = init_board();
    let mut positions = places([(3, 5), (3, 6), (4, 5), (4, 6)]);
    write_tetromino_to_board(&positions, &mut board);
    board[5][6] = Cell::Block;
    assert!(!drop_tetromino(&mut positions, &board));
    assert_eq!(positions, places([(3, 5), (3, 6), (4, 5), (4, 6)]));
}

#[test]
fn drop_moves_all_four_places_or_none() {
    let mut board = init_board();
    board[9][3] = Cell::Block;
    for row in 0..10isize {
        for col in 1..8isize {
            let before = places(
                [(row, col), (row, col + 1), (row + 1, col + 1), (row + 1, col + 2)],
            );
            let mut after = before;
            let dropped = drop_tetromino(&mut after, &board);
            for i in 0..4 {
                let step = if dropped { 1 } else { 0 };
                assert_eq!(after[i].get_y(), before[i].get_y() + step);
                assert_eq!(after[i].get_x(), before[i].get_x());
            }
        }
    }
}

#[test]
fn piece_moves_left_and_right_in_the_open() {
    let board = init_board();
    let mut positions = places([(0, 4), (0, 5), (0, 6), (0, 7)]);
    assert!(move_tetromino_sideways(&mut positions, &board, &MoveDirection::Left));
    assert_eq!(positions, places([(0, 3), (0, 4), (0, 5), (0, 6)]));
    assert!(move_tetromino_sideways(&mut positions, &board, &MoveDirection::Right));
    assert!(move_tetromino_sideways(&mut positions, &board, &MoveDirection::Right));
    assert_eq!(positions, places([(0, 5), (0, 6), (0, 7), (0, 8)]));
}

#[test]
fn walls_stop_the_piece() {
    let board = init_board();
    let mut left = places([(3, 1), (3, 2), (3, 3), (3, 4)]);
    assert!(!move_tetromino_sideways(&mut left, &board, &MoveDirection::Left));
    assert_eq!(left, places([(3, 1), (3, 2), (3, 3), (3, 4)]));
    let mut right = places([(3, 7), (3, 8), (3, 9), (3, 10)]);
    assert!(!move_tetromino_sideways(&mut right, &board, &MoveDirection::Right));
    assert_eq!(right, places([(3, 7), (3, 8), (3, 9), (3, 10)]));
}

#[test]
fn one_block_beside_keeps_the_whole_piece_in_place() {
    let mut board = init_board();
    board[6][4] = Cell::Block;
    let mut positions = places([(5, 5), (5, 6), (6, 5), (6, 6)]);
    assert!(!move_tetromino_sideways(&mut positions, &board, &MoveDirection::Left));
    assert_eq!(positions, places([(5, 5), (5, 6), (6, 5), (6, 6)]));
    assert!(move_tetromino_sideways(&mut positions, &board, &MoveDirection::Right));
    assert_eq!(positions, places([(5, 6), (5, 7), (6, 6), (6, 7)]));
}

#[test]
fn drawn_piece_moves_sideways_past_its_own_cells() {
    let mut board = init_board();
    let mut positions = places([(5, 4), (5, 5), (5, 6), (5, 7)]);
    write_tetromino_to_board(&positions, &mut board);
    assert!(move_tetromino_sideways(&mut positions, &board, &MoveDirection::Left));
    assert_eq!(positions, places([(5, 3), (5, 4), (5, 5), (5, 6)]));
}

#[test]
fn sideways_move_knows_no_other_direction() {
    let board = init_board();
    for direction in [MoveDirection::Down, MoveDirection::Up, MoveDirection::Nowhere].iter() {
        let mut positions = places([(0, 4), (0, 5), (0, 6), (0, 7)]);
        assert!(!move_tetromino_sideways(&mut positions, &board, direction));
        assert_eq!(positions, places([(0, 4), (0, 5), (0, 6), (0, 7)]));
    }
}

#[test]
fn sideways_move_shifts_all_four_places_or_none() {
    let mut board = init_board();
    board[4][6] = Cell::Block;
    for row in 0..8isize {
        for col in 2..8isize {
            for direction in [MoveDirection::Left, MoveDirection::Right].iter() {
                let before = places(
                    [(row, col), (row + 1, col), (row + 2, col), (row + 2, col + 1)],
                );
                let mut after = before;
                let moved = move_tetromino_sideways(&mut after, &board, direction);
                let step = match (moved, direction) {
                    (false, _) => 0,
                    (true, MoveDirection::Left) => -1,
                    _ => 1,
                };
                for i in 0..4 {
                    assert_eq!(after[i].get_x(), before[i].get_x() + step);
                    assert_eq!(after[i].get_y(), before[i].get_y());
                }
            }
        }
    }
}

#[test]
fn clearing_empties_the_four_places_only() {
    let mut board = init_board();
    let positions = places([(5, 4), (5, 5), (6, 5), (6, 6)]);
    write_tetromino_to_board(&positions, &mut board);
    board[5][6] = Cell::Block;
    clear_previous_tetromino_from_board(&positions, &mut board);
    let mut expected = init_board();
    expected[5][6] = Cell::Block;
    assert_eq!(board, expected);
}

#[test]
fn writing_fills_the_four_places_only() {
    let mut board = init_board();
    let positions = places([(5, 4), (5, 5), (6, 5), (6, 6)]);
    write_tetromino_to_board(&positions, &mut board);
    let mut expected = init_board();
    expected[5][4] = Cell::Block;
    expected[5][5] = Cell::Block;
    expected[6][5] = Cell::Block;
    expected[6][6] = Cell::Block;
    assert_eq!(board, expected);
}

#[test]
fn copy_holds_the_same_places() {
    let positions = places([(5, 4), (-5, 5), (6, 500), (6, 6)]);
    assert_eq!(copy_tetromino_positions(&positions), positions);
}

#[test]
fn positions_are_laid_out_from_the_first_place() {
    let current = places([(7, 3), (0, 0), (19, 19), (-4, 2)]);
    let positions = get_tetromino_positions(&TBAR, &current);
    assert_eq!(positions, places([(7, 3), (7, 4), (7, 5), (8, 4)]));
}

#[test]
fn positions_of_the_square_start_beside_the_anchor() {
    let current = places([(2, 5), (2, 6), (3, 5), (3, 6)]);
    let positions = get_tetromino_positions(&SQUARE, &current);
    assert_eq!(positions, places([(2, 6), (2, 7), (3, 6), (3, 7)]));
}

#[test]
fn positions_may_leave_the_board() {
    let current = places([(20, 10), (0, 0), (0, 0), (0, 0)]);
    let column: Tetromino = [
        [Cell::Block, Cell::Empty, Cell::Empty, Cell::Empty],
        [Cell::Block, Cell::Empty, Cell::Empty, Cell::Empty],
        [Cell::Block, Cell::Empty, Cell::Empty, Cell::Empty],
        [Cell::Block, Cell::Empty, Cell::Empty, Cell::Empty],
    ];
    let positions = get_tetromino_positions(&column, &current);
    assert_eq!(positions, places([(20, 10), (21, 10), (22, 10), (23, 10)]));
}

#[test]
fn piece_on_the_board_is_not_out_of_bounds() {
    let out = is_tetromino_positions_out_of_bounds(&places([(0, 0), (21, 11), (0, 11), (21, 0)]));
    assert_eq!(out.get_difference(), 0);
    assert_eq!(out.direction, MoveDirection::Nowhere);
}

#[test]
fn out_of_bounds_to_each_side_is_measured_from_the_edge() {
    let right = is_tetromino_positions_out_of_bounds(&places([(5, 10), (5, 11), (5, 12), (5, 13)]));
    assert_eq!(right, OutOfBounds { difference: 2, direction: MoveDirection::Right });
    let left = is_tetromino_positions_out_of_bounds(&places([(5, 1), (5, 0), (5, -1), (5, -2)]));
    assert_eq!(left, OutOfBounds { difference: 2, direction: MoveDirection::Left });
    let down = is_tetromino_positions_out_of_bounds(&places([(20, 4), (21, 4), (22, 4), (23, 4)]));
    assert_eq!(down, OutOfBounds { difference: 2, direction: MoveDirection::Down });
    let up = is_tetromino_positions_out_of_bounds(&places([(2, 4), (1, 4), (0, 4), (-1, 4)]));
    assert_eq!(up, OutOfBounds { difference: 1, direction: MoveDirection::Up });
}

#[test]
fn out_of_bounds_goes_by_the_last_place_off_the_board() {
    let out = is_tetromino_positions_out_of_bounds(&places([(0, 13), (0, 12), (0, 5), (0, 6)]));
    assert_eq!(out, OutOfBounds { difference: 1, direction: MoveDirection::Right });
    let mixed = is_tetromino_positions_out_of_bounds(&places([(0, 13), (24, 3), (0, 5), (0, 6)]));
    assert_eq!(mixed, OutOfBounds { difference: 3, direction: MoveDirection::Down });
}

#[test]
fn out_of_bounds_looks_at_the_column_first() {
    let out = is_tetromino_positions_out_of_bounds(&places([(0, 1), (0, 2), (0, 3), (25, 14)]));
    assert_eq!(out, OutOfBounds { difference: 3, direction: MoveDirection::Right });
    let corner = is_tetromino_positions_out_of_bounds(&places([(0, 1), (0, 2), (0, 3), (-7, -1)]));
    assert_eq!(corner, OutOfBounds { difference: 1, direction: MoveDirection::Left });
}

#[test]
fn out_of_bounds_measures_the_farthest_places() {
    let far_right = is_tetromino_positions_out_of_bounds(
        &places([(0, 1), (0, 2), (0, 3), (isize::MIN, isize::MAX)]),
    );
    assert_eq!(
        far_right,
        OutOfBounds { difference: isize::MAX - 11, direction: MoveDirection::Right },
    );
    let far_left = is_tetromino_positions_out_of_bounds(
        &places([(0, 1), (0, 2), (0, 3), (isize::MIN, isize::MIN + 1)]),
    );
    assert_eq!(far_left, OutOfBounds { difference: isize::MAX, direction: MoveDirection::Left });
    let far_down = is_tetromino_positions_out_of_bounds(
        &places([(0, 1), (0, 2), (0, 3), (isize::MAX, 11)]),
    );
    assert_eq!(
        far_down,
        OutOfBounds { difference: isize::MAX - 21, direction: MoveDirection::Down },
    );
    let far_up = is_tetromino_positions_out_of_bounds(
        &places([(0, 1), (0, 2), (0, 3), (isize::MIN + 1, 0)]),
    );
    assert_eq!(far_up, OutOfBounds { difference: isize::MAX, direction: MoveDirection::Up });
}

#[test]
fn piece_one_column_left_of_the_wall_moves_two_columns_right() {
    let mut positions = places([(5, -1), (6, -1), (7, -1), (7, 0)]);
    let out = is_tetromino_positions_out_of_bounds(&positions);
    assert_eq!(out, OutOfBounds { difference: 1, direction: MoveDirection::Left });
    move_tetromino_back_in_bounds(&out, &mut positions);
    assert_eq!(positions, places([(5, 1), (6, 1), (7, 1), (7, 2)]));
    assert_eq!(is_tetromino_positions_out_of_bounds(&positions).get_difference(), 0);
}

#[test]
fn moving_back_goes_one_further_than_the_difference() {
    let start = places([(5, 4), (5, 5), (6, 4), (6, 5)]);
    let mut positions = start;
    move_tetromino_back_in_bounds(
        &OutOfBounds { difference: 2, direction: MoveDirection::Up },
        &mut positions,
    );
    assert_eq!(positions, places([(8, 4), (8, 5), (9, 4), (9, 5)]));
    positions = start;
    move_tetromino_back_in_bounds(
        &OutOfBounds { difference: 2, direction: MoveDirection::Down },
        &mut positions,
    );
    assert_eq!(positions, places([(2, 4), (2, 5), (3, 4), (3, 5)]));
    positions = start;
    move_tetromino_back_in_bounds(
        &OutOfBounds { difference: 1, direction: MoveDirection::Left },
        &mut positions,
    );
    assert_eq!(positions, places([(5, 6), (5, 7), (6, 6), (6, 7)]));
    positions = start;
    move_tetromino_back_in_bounds(
        &OutOfBounds { difference: 3, direction: MoveDirection::Right },
        &mut positions,
    );
    assert_eq!(positions, places([(5, 0), (5, 1), (6, 0), (6, 1)]));
}

#[test]
fn moving_back_without_a_direction_moves_nothing() {
    let start = places([(5, 4), (5, 5), (6, 4), (6, 5)]);
    let mut positions = start;
    move_tetromino_back_in_bounds(
        &OutOfBounds { difference: 0, direction: MoveDirection::Nowhere },
        &mut positions,
    );
    assert_eq!(positions, start);
    move_tetromino_back_in_bounds(
        &OutOfBounds { difference: 7, direction: MoveDirection::Nowhere },
        &mut positions,
    );
    assert_eq!(positions, start);
}

#[test]
fn overlap_is_found_at_any_of_the_four_places() {
    let mut board = init_board();
    let positions = places([(5, 4), (5, 5), (6, 4), (6, 5)]);
    assert!(!is_tetromino_position_overlapping_with_block(&positions, &board));
    board[6][5] = Cell::Block;
    assert!(is_tetromino_position_overlapping_with_block(&positions, &board));
    board[6][5] = Cell::Empty;
    board[5][4] = Cell::Block;
    assert!(is_tetromino_position_overlapping_with_block(&positions, &board));
}

#[test]
fn walls_and_floor_count_as_overlap() {
    let board = init_board();
    assert!(
        is_tetromino_position_overlapping_with_block(&places([(5, 8), (5, 9), (5, 10), (5, 11)]), &board),
    );
    assert!(
        is_tetromino_position_overlapping_with_block(&places([(18, 4), (19, 4), (20, 4), (21, 4)]), &board),
    );
}

#[test]
fn row_is_full_with_ten_blocks_between_the_walls() {
    let mut board = init_board();
    assert!(!is_row_full(&board, 7));
    fill_row(&mut board, 7);
    assert!(is_row_full(&board, 7));
    board[7][10] = Cell::Empty;
    assert!(!is_row_full(&board, 7));
    assert!(is_row_full(&board, 21));
}

#[test]
fn board_without_a_full_row_reports_none() {
    let mut board = init_board();
    assert_eq!(is_full_row(&board), 0);
    assert_eq!(find_full_row(&board), None);
    for col in 1..10 {
        board[20][col] = Cell::Block;
    }
    assert_eq!(is_full_row(&board), 0);
    assert_eq!(find_full_row(&board), None);
}

#[test]
fn full_row_nineteen_is_found_and_removed() {
    let mut board = init_board();
    fill_row(&mut board, 19);
    assert_eq!(is_full_row(&board), 19);
    assert_eq!(find_full_row(&board), Some(19));
    collapse_full_row(&mut board, &19);
    for col in 1..BOARD_WIDTH - 1 {
        assert_eq!(board[19][col], Cell::Empty);
    }
    assert_eq!(is_full_row(&board), 0);
    assert_eq!(find_full_row(&board), None);
    assert_eq!(board, init_board());
}

#[test]
fn lowest_of_several_full_rows_is_found() {
    let mut board = init_board();
    fill_row(&mut board, 5);
    fill_row(&mut board, 12);
    fill_row(&mut board, 19);
    assert_eq!(is_full_row(&board), 19);
    fill_row(&mut board, 20);
    assert_eq!(is_full_row(&board), 20);
    assert_eq!(find_full_row(&board), Some(20));
}

#[test]
fn topmost_searched_row_is_row_one() {
    let mut board = init_board();
    fill_row(&mut board, 0);
    assert_eq!(is_full_row(&board), 0);
    fill_row(&mut board, 1);
    assert_eq!(is_full_row(&board), 1);
}

#[test]
fn collapse_moves_the_rows_above_down_by_one() {
    let mut board = init_board();
    board[0][2] = Cell::Block;
    board[17][4] = Cell::Block;
    board[18][1] = Cell::Block;
    board[18][3] = Cell::Block;
    fill_row(&mut board, 19);
    board[20][7] = Cell::Block;
    collapse_full_row(&mut board, &19);
    let mut expected = init_board();
    expected[0][2] = Cell::Block;
    expected[1][2] = Cell::Block;
    expected[18][4] = Cell::Block;
    expected[19][1] = Cell::Block;
    expected[19][3] = Cell::Block;
    expected[20][7] = Cell::Block;
    assert_eq!(board, expected);
}

#[test]
fn collapse_of_row_zero_changes_nothing() {
    let mut board = init_board();
    board[0][2] = Cell::Block;
    board[1][5] = Cell::Block;
    let before = board;
    collapse_full_row(&mut board, &0);
    assert_eq!(board, before);
}

#[test]
fn collapse_leaves_walls_and_floor_alone() {
    for row in 0..BOARD_HEIGHT - 1 {
        let mut board = init_board();
        for other in 0..BOARD_HEIGHT - 1 {
            for col in 1..BOARD_WIDTH - 1 {
                if (other + col) % 3 != 0 {
                    board[other][col] = Cell::Block;
                }
            }
        }
        collapse_full_row(&mut board, &row);
        assert_border(&board);
    }
}

#[test]
fn collapse_of_the_floor_row_overwrites_the_floor() {
    let mut board = init_board();
    collapse_full_row(&mut board, &21);
    for col in 1..BOARD_WIDTH - 1 {
        assert_eq!(board[21][col], Cell::Empty);
    }
    assert_eq!(board[21][0], Cell::Block);
    assert_eq!(board[21][11], Cell::Block);
}

#[test]
fn each_collapse_leaves_one_full_row_fewer() {
    let mut board = init_board();
    fill_row(&mut board, 20);
    fill_row(&mut board, 18);
    fill_row(&mut board, 17);
    fill_row(&mut board, 3);
    board[19][4] = Cell::Block;
    board[0][6] = Cell::Block;
    let mut expected_count = 4;
    let mut rounds = 0;
    loop {
        assert_eq!(count_full_rows(&board), expected_count);
        let row = is_full_row(&board);
        if row == 0 {
            break;
        }
        collapse_full_row(&mut board, &row);
        expected_count -= 1;
        rounds += 1;
        assert!(rounds <= 20);
    }
    assert_eq!(rounds, 4);
    assert_eq!(expected_count, 0);
    assert_eq!(board[20][4], Cell::Block);
    assert_eq!(board[20][5], Cell::Empty);
}

#[test]
fn game_is_over_when_a_place_reaches_the_top_row() {
    assert!(game_over(&places([(0, 4), (1, 4), (2, 4), (3, 4)])));
    assert!(game_over(&places([(3, 4), (2, 4), (1, 4), (0, 4)])));
    assert!(game_over(&places([(5, 4), (-1, 4), (2, 4), (3, 4)])));
    assert!(!game_over(&places([(1, 4), (1, 5), (1, 6), (1, 7)])));
    assert!(!game_over(&places([(20, 4), (19, 4), (18, 4), (17, 4)])));
}
