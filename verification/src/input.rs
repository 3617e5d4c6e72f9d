//! The commands of the player, and what each of them does to the falling piece.

use vstd::prelude::*;
use crate::board::{
    Board, MoveDirection, Positions, all_in_grid, anchored, board_view, can_move,
    clear_previous_tetromino_from_board, copy_tetromino_positions, get_tetromino_positions,
    in_grid, is_tetromino_position_overlapping_with_block, is_tetromino_positions_out_of_bounds,
    lemma_anchored_stays_near, lemma_excess_is_small, lemma_overflow_tells_in_grid,
    move_tetromino_back_in_bounds, move_tetromino_sideways, moved, moved_back, overflow_of,
    overlaps,
    painted, positions_view, way_back,
};
use crate::cell::{Cell, Grid, Point};
use crate::tetromino::{
    Tetromino, TETROMINO_SIZE, is_tetromino, lemma_packing_keeps_tetromino,
    lemma_rotation_keeps_block_count, move_tetromino_to_corner, packed, rotate_tetromino,
    rotated, shape_view,
};

verus! {

/// What the player asks for.
#[derive(Debug, Clone, Copy, PartialEq, Eq, Structural)]
pub enum InputCommand {
    Left,
    Right,
    Down,
    Rotate,
    Exit,
    Nothing,
}

/// What the terminal reported: one of the keys that the game knows, a character, or
/// anything else.
#[derive(Debug, Clone, Copy, PartialEq, Eq, Structural)]
pub enum Key {
    Down,
    Left,
    Right,
    Char(char),
    Esc,
    Other,
}

/// The command that a key stands for: the arrow keys move, `r` rotates, escape ends the
/// game, and everything else asks for nothing.
pub open spec fn command_for(key: Key) -> InputCommand {
    match key {
        Key::Down => InputCommand::Down,
        Key::Left => InputCommand::Left,
        Key::Right => InputCommand::Right,
        Key::Char(character) => if character == 'r' {
            InputCommand::Rotate
        } else {
            InputCommand::Nothing
        },
        Key::Esc => InputCommand::Exit,
        Key::Other => InputCommand::Nothing,
    }
}

/// Reads what the terminal reported as a command.
pub fn read_user_input(key: Key) -> (command: InputCommand)
    ensures
        command == command_for(key),
{
    match key {
        Key::Down => InputCommand::Down,
        Key::Left => InputCommand::Left,
        Key::Right => InputCommand::Right,
        Key::Char(character) => {
            if character == 'r' {
                return InputCommand::Rotate;
            }
            InputCommand::Nothing
        },
        Key::Esc => InputCommand::Exit,
        _ => InputCommand::Nothing,
    }
}

/// Where a quarter turn takes the piece: the turned shape, moved into its corner, is laid
/// out from the first of the four `points`; if that lies off the board, it is moved back
/// once, as far as the last point off the board asks.
pub open spec fn rotation_target(points: Seq<Point>, shape: Grid) -> Seq<Point> {
    let laid_out = anchored(packed(rotated(shape)), points[0]);
    let overflow = overflow_of(laid_out);
    if overflow.difference > 0 {
        moved_back(overflow, laid_out)
    } else {
        laid_out
    }
}

/// The quarter turn is taken: where it leads lies on the board and meets no block of `g`
/// once the piece has left its old places.
pub open spec fn rotation_fits(points: Seq<Point>, shape: Grid, g: Grid) -> bool {
    let target = rotation_target(points, shape);
    all_in_grid(target) && !overlaps(target, painted(g, points, Cell::Empty))
}

/// The state of the falling piece and the board after a command, and whether the game
/// goes on.
pub struct Outcome {
    pub points: Seq<Point>,
    pub shape: Grid,
    pub board: Grid,
    pub go_on: bool,
}

/// What a command does to the piece at `points` with the given shape on board `g`.
///
/// A move to the side is taken if the piece can move there; its old places are then
/// emptied on the board. A quarter turn always empties the old places; it is taken if it
/// fits, and otherwise piece and shape stay as they were. `Exit` changes nothing and ends
/// the game. The other commands change nothing.
pub open spec fn committed(
    input: InputCommand,
    points: Seq<Point>,
    shape: Grid,
    g: Grid,
) -> Outcome {
    match input {
        InputCommand::Left => if can_move(points, g, MoveDirection::Left) {
            Outcome {
                points: moved(points, MoveDirection::Left),
                shape,
                board: painted(g, points, Cell::Empty),
                go_on: true,
            }
        } else {
            Outcome { points, shape, board: g, go_on: true }
        },
        InputCommand::Right => if can_move(points, g, MoveDirection::Right) {
            Outcome {
                points: moved(points, MoveDirection::Right),
                shape,
                board: painted(g, points, Cell::Empty),
                go_on: true,
            }
        } else {
            Outcome { points, shape, board: g, go_on: true }
        },
        InputCommand::Rotate => if rotation_fits(points, shape, g) {
            Outcome {
                points: rotation_target(points, shape),
                shape: packed(rotated(shape)),
                board: painted(g, points, Cell::Empty),
                go_on: true,
            }
        } else {
            Outcome { points, shape, board: painted(g, points, Cell::Empty), go_on: true }
        },
        InputCommand::Exit => Outcome { points, shape, board: g, go_on: false },
        _ => Outcome { points, shape, board: g, go_on: true },
    }
}

/// What a command needs of the piece it acts on: to move left or right, the piece and the
/// places beside it lie on the board; to turn, the piece lies on the board and its shape is
/// a tetromino.
pub open spec fn can_commit(input: InputCommand, points: Seq<Point>, shape: Grid) -> bool {
    match input {
        InputCommand::Left => all_in_grid(points) && all_in_grid(
            moved(points, MoveDirection::Left),
        ),
        InputCommand::Right => all_in_grid(points) && all_in_grid(
            moved(points, MoveDirection::Right),
        ),
        InputCommand::Rotate => all_in_grid(points) && is_tetromino(shape),
        _ => true,
    }
}

/// Carries out a command on the falling piece, and tells whether the game goes on.
pub fn commit_action(
    input: &InputCommand,
    tetromino_positions: &mut Positions,
    tetromino: &mut Tetromino,
    board: &mut Board,
) -> (go_on: bool)
    requires
        can_commit(*input, positions_view(*old(tetromino_positions)), shape_view(*old(tetromino))),
    ensures
        ({
            let outcome = committed(
                *input,
                positions_view(*old(tetromino_positions)),
                shape_view(*old(tetromino)),
                board_view(*old(board)),
            );
            &&& positions_view(*final(tetromino_positions)) == outcome.points
            &&& shape_view(*final(tetromino)) == outcome.shape
            &&& board_view(*final(board)) == outcome.board
            &&& go_on == outcome.go_on
            &&& forall|i: int|
                0 <= i < 4 ==> (#[trigger] final(tetromino_positions)[i])@ == outcome.points[i]
            &&& forall|row: int, col: int|
                0 <= row < 4 && 0 <= col < 4 ==> #[trigger] final(tetromino)[row][col]
                    == outcome.shape[row][col]
            &&& forall|row: int, col: int|
                in_grid(Point { row, col }) ==> #[trigger] final(board)[row][col]
                    == outcome.board[row][col]
        }),
{
    match input {
        InputCommand::Left => {
            let previous_tetromino_positions = copy_tetromino_positions(tetromino_positions);
            if move_tetromino_sideways(tetromino_positions, board, &MoveDirection::Left) {
                clear_previous_tetromino_from_board(&previous_tetromino_positions, board);
            }
        },
        InputCommand::Right => {
            let previous_tetromino_positions = copy_tetromino_positions(tetromino_positions);
            if move_tetromino_sideways(tetromino_positions, board, &MoveDirection::Right) {
                clear_previous_tetromino_from_board(&previous_tetromino_positions, board);
            }
        },
        InputCommand::Exit => {
            return false;
        },
        InputCommand::Down => {},
        InputCommand::Rotate => {
            let previous_tetromino_positions = copy_tetromino_positions(tetromino_positions);
            let previous_tetromino: Tetromino = *tetromino;
            let ghost points = positions_view(*tetromino_positions);
            let ghost shape = shape_view(*tetromino);
            rotate_tetromino(tetromino);
            proof {
                lemma_rotation_keeps_block_count(shape);
            }
            move_tetromino_to_corner(tetromino);
            clear_previous_tetromino_from_board(&previous_tetromino_positions, board);
            proof {
                let laid_out = anchored(packed(rotated(shape)), points[0]);
                lemma_anchored_stays_near(packed(rotated(shape)), points[0]);
                assert(in_grid(points[0]));
                assert(points[0] == tetromino_positions[0]@);
                assert forall|i: int| 0 <= i < laid_out.len() implies isize::MIN <= (
                #[trigger] laid_out[i]).row <= isize::MAX && isize::MIN <= laid_out[i].col
                    <= isize::MAX by {}
            }
            let mut updated_tetromino_positions = get_tetromino_positions(
                tetromino,
                tetromino_positions,
            );
            let ghost laid_out = positions_view(updated_tetromino_positions);
            let out_of_bounds = is_tetromino_positions_out_of_bounds(&updated_tetromino_positions);
            if out_of_bounds.get_difference() > 0 {
                proof {
                    lemma_excess_is_small(laid_out, points[0]);
                    let target = moved_back(out_of_bounds@, laid_out);
                    assert forall|i: int| 0 <= i < target.len() implies isize::MIN <= (
                    #[trigger] target[i]).row <= isize::MAX && isize::MIN <= target[i].col
                        <= isize::MAX by {
                        assert(target[i] == laid_out[i].shifted(
                            way_back(out_of_bounds@).row,
                            way_back(out_of_bounds@).col,
                        ));
                    }
                }
                move_tetromino_back_in_bounds(&out_of_bounds, &mut updated_tetromino_positions);
            }
            let ghost target = positions_view(updated_tetromino_positions);
            assert(target == rotation_target(points, shape));
            let mut i: usize = 0;
            while i < TETROMINO_SIZE
                invariant
                    i <= TETROMINO_SIZE,
                    forall|k: int|
                        0 <= k < i ==> #[trigger] tetromino_positions[k]
                            == updated_tetromino_positions[k],
                decreases TETROMINO_SIZE - i,
            {
                tetromino_positions[i] = updated_tetromino_positions[i];
                i += 1;
            }
            assert(positions_view(*tetromino_positions) =~= target);
            proof {
                lemma_rotation_target_is_near(points, shape);
                lemma_overflow_tells_in_grid(target);
            }
            // Check if the new places lie off the board or on a block.
            if is_tetromino_positions_out_of_bounds(tetromino_positions).get_difference() > 0
                || is_tetromino_position_overlapping_with_block(tetromino_positions, board) {
                let mut i: usize = 0;
                while i < TETROMINO_SIZE
                    invariant
                        i <= TETROMINO_SIZE,
                        forall|k: int|
                            0 <= k < i ==> #[trigger] tetromino_positions[k]
                                == previous_tetromino_positions[k],
                    decreases TETROMINO_SIZE - i,
                {
                    tetromino_positions[i] = previous_tetromino_positions[i];
                    i += 1;
                }
                *tetromino = previous_tetromino;
                assert(positions_view(*tetromino_positions) =~= points);
            }
        },
        InputCommand::Nothing => {},
    }
    true
}

/// Where a quarter turn takes a piece that lies on the board is never far from the board.
pub proof fn lemma_rotation_target_is_near(points: Seq<Point>, shape: Grid)
    requires
        is_tetromino(shape),
        in_grid(points[0]),
    ensures
        rotation_target(points, shape).len() == 4,
        forall|k: int|
            0 <= k < 4 ==> {
                let p = #[trigger] rotation_target(points, shape)[k];
                &&& -4 <= p.row <= 24
                &&& -4 <= p.col <= 14
            },
{
    lemma_rotation_keeps_block_count(shape);
    lemma_packing_keeps_tetromino(rotated(shape));
    let turned = packed(rotated(shape));
    let laid_out = anchored(turned, points[0]);
    lemma_anchored_stays_near(turned, points[0]);
    lemma_excess_is_small(laid_out, points[0]);
    let target = rotation_target(points, shape);
    assert forall|k: int| 0 <= k < 4 implies {
        let p = #[trigger] target[k];
        &&& -4 <= p.row <= 24
        &&& -4 <= p.col <= 14
    } by {
        let q = laid_out[k];
        assert(points[0].row <= q.row <= points[0].row + 3);
    }
}

} // verus!
