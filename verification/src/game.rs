//! The game as a state machine: a new piece, its turns, its coming to rest, full rows, speed
//! and score, and the end.

use vstd::prelude::*;
use crate::board::{
    Board, Coordinate, MoveDirection, Positions, all_in_grid, anchored, board_view, can_move,
    clear_previous_tetromino_from_board, collapse_full_row, copy_tetromino_positions, covers,
    drop_tetromino, full_row_count, game_over, has_border, in_grid, in_well, init_board,
    init_tetromino_to_board, initial_grid, is_board, is_free, is_full_row,
    lemma_anchored_stays_near, lemma_collapse_keeps_border, lemma_collapse_removes_one_full_row,
    lemma_full_row_count_is_small, lemma_lowest_full_row_upto, lemma_no_full_row,
    lemma_settled_has_no_full_row, lowest_full_row, neighbour, on_border, overflow_of, painted,
    moved, positions_view, reaches_top, row_full, settled, settled_in, way_back,
    write_tetromino_to_board,
};
use crate::cell::{Cell, Grid, Point};
use crate::input::{
    InputCommand, Outcome, commit_action, committed, rotation_fits, rotation_target,
};
use crate::tetromino::{
    SBAR1, SBAR2, Tetromino, block_offsets, catalog, chosen_index, get_random_tetromino,
    is_same_tetromino, is_tetromino, lemma_catalog_fills_top_row,
    lemma_catalog_holds_tetrominoes, lemma_first_offset_in_top_row,
    lemma_packing_keeps_tetromino, lemma_rotation_keeps_block_count, packed, rotated,
    row_is_empty, shape_view,
};

verus! {

/// The fall interval at the start of a game, in milliseconds.
pub const START_INTERVAL: u64 = 1000;

/// The amount by which the fall interval shrinks, and the value below which it does not:
/// both in milliseconds.
pub const INTERVAL_STEP: u64 = 100;

/// The column at which the top left cell of a new piece's shape is placed.
pub const SPAWN_COLUMN: isize = 4;

/// Where a game stands between two steps.
#[derive(Debug, Clone, Copy, PartialEq, Eq, Structural)]
pub enum Phase {
    /// No piece is falling: the game waits for the clock reading that picks the next one.
    Spawning,
    /// A piece is falling: the game waits for a command or for the fall interval to pass.
    Falling,
    /// A piece has come to rest and is stamped on the board: the game waits for the board
    /// to be drawn before it removes full rows.
    Locking,
    /// The game has ended, by the player's wish or because the well is full.
    Over,
}

/// What happened outside the game since its last step.
#[derive(Debug, Clone, Copy)]
pub enum Event {
    /// The clock was read: seconds since the epoch, and the process identifier.
    Clock { seconds: u64, process_id: u32 },
    /// The player gave a command before the fall interval had passed.
    Input(InputCommand),
    /// The fall interval passed without a command.
    Timeout,
    /// The board was drawn with the piece at rest.
    Drawn,
}

/// What is to be done outside the game before its next step.
#[derive(Debug, Clone, Copy, PartialEq, Eq, Structural)]
pub enum Action {
    /// Read the clock and hand in the reading.
    ReadClock,
    /// Wait for a command, for `timeout` milliseconds at most: the fall interval.
    Poll { timeout: u64 },
    /// The piece fell: draw the board, clear the screen below it, then wait for a command,
    /// for `timeout` milliseconds at most: the fall interval.
    Redraw { timeout: u64 },
    /// The piece came to rest: draw the board and report that it was drawn.
    DrawLocked,
    /// Full rows, if any, were removed. With `speed_up`, there were some: the music plays a
    /// step faster. With `game_over`, announce the end and the score; otherwise read the
    /// clock for the next piece.
    Settled { speed_up: bool, game_over: bool },
    /// Stop: the game has ended.
    Quit,
}

/// The mathematical model of a game.
pub struct SessionView {
    pub board: Grid,
    pub points: Seq<Point>,
    pub shape: Grid,
    pub score: int,
    pub fall_interval: int,
    pub speed_steps: int,
    pub pieces_dropped: int,
    pub phase: Phase,
}

/// A game: the board, the falling piece and the counters. A game is made by `start_game`
/// and changed by `step` alone, so it is sound at all times.
pub struct Session {
    board: Board,
    tetromino_positions: Positions,
    tetromino: Tetromino,
    points: u64,
    time_in_milliseconds: u64,
    speed_steps: u64,
    tetrominos_dropped: i32,
    phase: Phase,
}

impl View for Session {
    type V = SessionView;

    closed spec fn view(&self) -> SessionView {
        SessionView {
            board: board_view(self.board),
            points: positions_view(self.tetromino_positions),
            shape: shape_view(self.tetromino),
            score: self.points as int,
            fall_interval: self.time_in_milliseconds as int,
            speed_steps: self.speed_steps as int,
            pieces_dropped: self.tetrominos_dropped as int,
            phase: self.phase,
        }
    }
}

/// All four `points` lie in the well.
pub open spec fn all_in_well(points: Seq<Point>) -> bool {
    in_well(points[0]) && in_well(points[1]) && in_well(points[2]) && in_well(points[3])
}

/// None of the four `points` lies above the first one or more than three rows below it.
pub open spec fn rows_follow_first(points: Seq<Point>) -> bool {
    &&& points[0].row <= points[1].row <= points[0].row + 3
    &&& points[0].row <= points[2].row <= points[0].row + 3
    &&& points[0].row <= points[3].row <= points[0].row + 3
}

/// Every block in the first `rows` rows of the well lies at one of the four `points`.
pub open spec fn blocks_are_own(g: Grid, points: Seq<Point>, rows: int) -> bool {
    forall|row: int, col: int|
        0 <= row < rows && 1 <= col < 11 && (#[trigger] g[row][col]) == Cell::Block ==> covers(
            points,
            Point { row, col },
        )
}

/// The first `rows` rows of the well hold no block.
pub open spec fn is_clear(g: Grid, rows: int) -> bool {
    forall|row: int, col: int|
        0 <= row < rows && 1 <= col < 11 ==> (#[trigger] g[row][col]) == Cell::Empty
}

/// The number of rows that have to be free of foreign blocks: the whole well before the
/// first piece has come to rest, and its top row after that.
pub open spec fn guarded_rows(pieces_dropped: int) -> int {
    if pieces_dropped == 0 {
        21
    } else {
        1
    }
}

/// What holds of a game between any two steps.
///
/// The board has its walls and floor. The counters are in step with each other, and the
/// fall interval is a number of whole steps between its floor and its starting value.
/// While a piece falls, it is a tetromino that lies in the well, and the top row of the
/// well holds no block but the piece's own; before the first piece has come to rest, the
/// same holds of the whole well. A piece at rest is still such a piece, and the first piece
/// of a game rests below the top row. While the game waits for a piece, those rows are
/// empty.
pub open spec fn valid(s: SessionView) -> bool {
    &&& is_board(s.board)
    &&& has_border(s.board)
    &&& 0 <= s.pieces_dropped
    &&& 0 <= s.score <= 20 * s.pieces_dropped
    &&& 0 <= s.speed_steps <= s.pieces_dropped
    &&& INTERVAL_STEP <= s.fall_interval <= START_INTERVAL
    &&& s.fall_interval % (INTERVAL_STEP as int) == 0
    &&& s.phase is Falling || s.phase is Locking ==> {
        &&& s.points.len() == 4
        &&& is_tetromino(s.shape)
        &&& all_in_well(s.points)
        &&& rows_follow_first(s.points)
        &&& blocks_are_own(s.board, s.points, guarded_rows(s.pieces_dropped))
    }
    &&& s.phase is Locking && s.pieces_dropped == 0 ==> !reaches_top(s.points)
    &&& s.phase is Spawning ==> is_clear(s.board, guarded_rows(s.pieces_dropped))
}

/// The game before its first step: an empty well, no score, and the first piece still to
/// be picked.
pub open spec fn initial_session() -> SessionView {
    SessionView {
        board: initial_grid(),
        points: Seq::new(4, |i: int| Point { row: 0, col: 0 }),
        shape: Seq::new(4, |row: int| Seq::new(4, |col: int| Cell::Empty)),
        score: 0,
        fall_interval: START_INTERVAL as int,
        speed_steps: 0,
        pieces_dropped: 0,
        phase: Phase::Spawning,
    }
}

/// The game after a clock reading while it waited for a piece.
///
/// The reading picks a shape of the catalog. As the first piece of a game, neither of the
/// two mirrored S shapes is taken: the game asks for the clock again and stays as it is.
/// Any other pick is stamped at the top of the well, and falls from there.
pub open spec fn spawned(s: SessionView, seconds: int, process_id: int) -> (SessionView, Action) {
    let shape = shape_view(catalog(chosen_index(seconds, process_id)));
    let points = anchored(shape, Point { row: 0, col: SPAWN_COLUMN as int });
    if (shape == shape_view(SBAR1) || shape == shape_view(SBAR2)) && s.pieces_dropped == 0 {
        (s, Action::ReadClock)
    } else {
        (
            SessionView {
                board: painted(s.board, points, Cell::Block),
                points,
                shape,
                phase: Phase::Falling,
                ..s
            },
            Action::Poll { timeout: s.fall_interval as u64 },
        )
    }
}

/// The piece, its shape and the board after the command, if there was one.
pub open spec fn after_input(s: SessionView, input: Option<InputCommand>) -> Outcome {
    match input {
        Some(command) => committed(command, s.points, s.shape, s.board),
        None => Outcome { points: s.points, shape: s.shape, board: s.board, go_on: true },
    }
}

/// The game after the board was drawn with the piece at rest.
///
/// Full rows are removed, lowest first, and each adds one to the score. If any was removed,
/// the music gains a step of speed and the fall interval loses a step, down to its floor:
/// once for the piece, however many rows it removed. The game is over if the piece reaches
/// the top row, unless it is the first piece of the game.
pub open spec fn settled_down(s: SessionView) -> (SessionView, Action) {
    let removed = full_row_count(s.board);
    let speed_up = removed > 0;
    let game_over = reaches_top(s.points) && s.pieces_dropped > 0;
    (
        SessionView {
            board: settled(s.board),
            points: s.points,
            shape: s.shape,
            score: s.score + removed,
            fall_interval: if speed_up && s.fall_interval > INTERVAL_STEP {
                s.fall_interval - INTERVAL_STEP
            } else {
                s.fall_interval
            },
            speed_steps: if speed_up {
                s.speed_steps + 1
            } else {
                s.speed_steps
            },
            pieces_dropped: s.pieces_dropped + 1,
            phase: if game_over {
                Phase::Over
            } else {
                Phase::Spawning
            },
        },
        Action::Settled { speed_up, game_over },
    )
}

/// The game after one turn of a falling piece: the command, if any, then one row of fall.
///
/// `Exit` ends the game at once. Otherwise the piece falls by one row if it can, and is
/// stamped at its new places. If it cannot, it is stamped where it is and comes to rest.
pub open spec fn ticked(s: SessionView, input: Option<InputCommand>) -> (SessionView, Action) {
    let outcome = after_input(s, input);
    if !outcome.go_on {
        (SessionView { phase: Phase::Over, ..s }, Action::Quit)
    } else if can_move(outcome.points, outcome.board, MoveDirection::Down) {
        let fallen = moved(outcome.points, MoveDirection::Down);
        (
            SessionView {
                board: painted(
                    painted(outcome.board, outcome.points, Cell::Empty),
                    fallen,
                    Cell::Block,
                ),
                points: fallen,
                shape: outcome.shape,
                ..s
            },
            Action::Redraw { timeout: s.fall_interval as u64 },
        )
    } else {
        (
            SessionView {
                board: painted(outcome.board, outcome.points, Cell::Block),
                points: outcome.points,
                shape: outcome.shape,
                phase: Phase::Locking,
                ..s
            },
            Action::DrawLocked,
        )
    }
}

/// The game after one step, and what is to be done before the next.
///
/// An event that the phase does not wait for changes nothing: the game asks again for
/// what it waits for. A game that is over stays over.
pub open spec fn stepped(s: SessionView, event: Event) -> (SessionView, Action) {
    match s.phase {
        Phase::Over => (s, Action::Quit),
        Phase::Spawning => match event {
            Event::Clock { seconds, process_id } => spawned(s, seconds as int, process_id as int),
            _ => (s, Action::ReadClock),
        },
        Phase::Falling => match event {
            Event::Input(command) => ticked(s, Some(command)),
            Event::Timeout => ticked(s, None),
            _ => (s, Action::Poll { timeout: s.fall_interval as u64 }),
        },
        Phase::Locking => match event {
            Event::Drawn => settled_down(s),
            _ => (s, Action::DrawLocked),
        },
    }
}

/// Painting places of the well keeps the size of the board, and its walls and floor.
proof fn lemma_paint_keeps_border(g: Grid, points: Seq<Point>, cell: Cell)
    requires
        is_board(g),
    ensures
        is_board(painted(g, points, cell)),
        has_border(g) && all_in_well(points) ==> has_border(painted(g, points, cell)),
{
    let after = painted(g, points, cell);
    if has_border(g) && all_in_well(points) {
        assert forall|row: int, col: int| on_border(Point { row, col }) implies (
        #[trigger] after[row][col]) == Cell::Block by {
            assert(g[row][col] == Cell::Block);
        }
    }
}

/// Emptying the piece's places leaves no block in rows that held none but the piece's.
proof fn lemma_clearing_own_blocks(g: Grid, points: Seq<Point>, rows: int)
    requires
        is_board(g),
        rows <= 22,
        blocks_are_own(g, points, rows),
    ensures
        is_clear(painted(g, points, Cell::Empty), rows),
{
    let after = painted(g, points, Cell::Empty);
    assert forall|row: int, col: int| 0 <= row < rows && 1 <= col < 11 implies (
    #[trigger] after[row][col]) == Cell::Empty by {
        if !covers(points, Point { row, col }) {
            assert(after[row][col] == g[row][col]);
        }
    }
}

/// Rows without a block hold none but the piece's, wherever the piece is.
proof fn lemma_clear_rows_are_own(g: Grid, points: Seq<Point>, rows: int)
    requires
        is_clear(g, rows),
    ensures
        blocks_are_own(g, points, rows),
{
}

/// Stamping the piece adds no block but the piece's own.
proof fn lemma_stamping_own_blocks(g: Grid, points: Seq<Point>, rows: int)
    requires
        is_board(g),
        rows <= 22,
        blocks_are_own(g, points, rows),
    ensures
        blocks_are_own(painted(g, points, Cell::Block), points, rows),
{
    let after = painted(g, points, Cell::Block);
    assert forall|row: int, col: int|
        0 <= row < rows && 1 <= col < 11 && (#[trigger] after[row][col])
            == Cell::Block implies covers(points, Point { row, col }) by {
        if !covers(points, Point { row, col }) {
            assert(after[row][col] == g[row][col]);
        }
    }
}

/// Around a piece in the well, the places one to the left, one to the right and one below
/// lie on the board.
proof fn lemma_well_has_room_beside(points: Seq<Point>)
    requires
        points.len() == 4,
        all_in_well(points),
    ensures
        all_in_grid(points),
        all_in_grid(moved(points, MoveDirection::Left)),
        all_in_grid(moved(points, MoveDirection::Right)),
        all_in_grid(moved(points, MoveDirection::Down)),
{
    assert forall|d: MoveDirection, i: int| 0 <= i < 4 implies (#[trigger] moved(points, d)[i])
        == neighbour(points[i], d) by {}
}

/// A piece in the well that can move by one to the left, to the right or down is still in
/// the well after the move: walls and floor stop it.
proof fn lemma_move_stays_in_well(g: Grid, points: Seq<Point>, direction: MoveDirection)
    requires
        is_board(g),
        has_border(g),
        points.len() == 4,
        all_in_well(points),
        direction is Left || direction is Right || direction is Down,
        can_move(points, g, direction),
    ensures
        all_in_well(moved(points, direction)),
{
    let after = moved(points, direction);
    assert forall|i: int| 0 <= i < 4 implies in_well(#[trigger] after[i]) by {
        let next = neighbour(points[i], direction);
        assert(after[i] == next);
        assert(is_free(points, g, i, direction));
        if on_border(next) {
            assert(g[next.row][next.col] == Cell::Block);
            assert(covers(points, next));
        }
    }
}

/// Four points cannot fill a row of the well.
proof fn lemma_own_blocks_fill_no_row(g: Grid, points: Seq<Point>, rows: int, row: int)
    requires
        blocks_are_own(g, points, rows),
        0 <= row < rows,
    ensures
        !row_full(g, row),
{
    if row_full(g, row) {
        assert(g[row][1] == Cell::Block && covers(points, Point { row, col: 1 }));
        assert(g[row][2] == Cell::Block && covers(points, Point { row, col: 2 }));
        assert(g[row][3] == Cell::Block && covers(points, Point { row, col: 3 }));
        assert(g[row][4] == Cell::Block && covers(points, Point { row, col: 4 }));
        assert(g[row][5] == Cell::Block && covers(points, Point { row, col: 5 }));
    }
}

/// In a well that holds no block but the piece's, only the floor stops the piece: when it
/// comes to rest, it is far below the top row.
proof fn lemma_first_piece_rests_on_floor(g: Grid, points: Seq<Point>)
    requires
        is_board(g),
        points.len() == 4,
        all_in_well(points),
        rows_follow_first(points),
        blocks_are_own(g, points, 21),
        !can_move(points, g, MoveDirection::Down),
    ensures
        !reaches_top(points),
{
    let i = if !is_free(points, g, 0, MoveDirection::Down) {
        0int
    } else if !is_free(points, g, 1, MoveDirection::Down) {
        1int
    } else if !is_free(points, g, 2, MoveDirection::Down) {
        2int
    } else {
        3int
    };
    let next = neighbour(points[i], MoveDirection::Down);
    assert(!is_free(points, g, i, MoveDirection::Down));
    assert(g[next.row][next.col] == Cell::Block);
    if next.row < 21 {
        assert(covers(points, Point { row: next.row, col: next.col }));
    }
    assert(points[i].row == 20);
}

/// A shape laid out from an anchor, whose top row holds a block, has its first point in
/// the anchor's row and no point above it or more than three rows below.
proof fn lemma_anchored_rows_follow_first(shape: Grid, anchor: Point)
    requires
        is_tetromino(shape),
        !row_is_empty(shape, 0),
    ensures
        rows_follow_first(anchored(shape, anchor)),
        anchored(shape, anchor)[0].row == anchor.row,
{
    lemma_first_offset_in_top_row(shape);
    lemma_anchored_stays_near(shape, anchor);
    let points = anchored(shape, anchor);
    assert(points[0] == block_offsets(shape)[0].shifted(anchor.row, anchor.col));
    assert(anchor.row <= points[1].row <= anchor.row + 3);
    assert(anchor.row <= points[2].row <= anchor.row + 3);
    assert(anchor.row <= points[3].row <= anchor.row + 3);
}

/// What holds of the piece and the board after a command, before the piece falls.
spec fn piece_is_sound(outcome: Outcome, rows: int) -> bool {
    &&& outcome.points.len() == 4
    &&& is_tetromino(outcome.shape)
    &&& all_in_well(outcome.points)
    &&& rows_follow_first(outcome.points)
    &&& is_board(outcome.board)
    &&& has_border(outcome.board)
    &&& blocks_are_own(outcome.board, outcome.points, rows)
}

/// A quarter turn that fits leaves the piece in the well.
proof fn lemma_rotation_stays_in_well(s: SessionView)
    requires
        valid(s),
        s.phase is Falling,
        rotation_fits(s.points, s.shape, s.board),
    ensures
        rotation_target(s.points, s.shape).len() == 4,
        all_in_well(rotation_target(s.points, s.shape)),
        rows_follow_first(rotation_target(s.points, s.shape)),
        is_tetromino(packed(rotated(s.shape))),
{
    let turned = packed(rotated(s.shape));
    lemma_rotation_keeps_block_count(s.shape);
    lemma_packing_keeps_tetromino(rotated(s.shape));
    let laid_out = anchored(turned, s.points[0]);
    lemma_anchored_rows_follow_first(turned, s.points[0]);
    let target = rotation_target(s.points, s.shape);
    let cleared = painted(s.board, s.points, Cell::Empty);
    lemma_paint_keeps_border(s.board, s.points, Cell::Empty);
    assert(target.len() == 4);
    assert forall|i: int| 0 <= i < 4 implies in_well(#[trigger] target[i]) by {
        assert(in_grid(target[i]));
        if on_border(target[i]) {
            assert(cleared[target[i].row][target[i].col] == Cell::Block);
        }
    }
    let overflow = overflow_of(laid_out);
    if overflow.difference > 0 {
        assert(target[0] == laid_out[0].shifted(way_back(overflow).row, way_back(overflow).col));
        assert(target[1] == laid_out[1].shifted(way_back(overflow).row, way_back(overflow).col));
        assert(target[2] == laid_out[2].shifted(way_back(overflow).row, way_back(overflow).col));
        assert(target[3] == laid_out[3].shifted(way_back(overflow).row, way_back(overflow).col));
    }
}

/// A command leaves a falling piece in the well, with its shape a tetromino, and the
/// guarded rows free of foreign blocks.
proof fn lemma_input_keeps_piece_in_well(s: SessionView, input: Option<InputCommand>)
    requires
        valid(s),
        s.phase is Falling,
    ensures
        piece_is_sound(after_input(s, input), guarded_rows(s.pieces_dropped)),
{
    let rows = guarded_rows(s.pieces_dropped);
    let outcome = after_input(s, input);
    let cleared = painted(s.board, s.points, Cell::Empty);
    lemma_paint_keeps_border(s.board, s.points, Cell::Empty);
    lemma_clearing_own_blocks(s.board, s.points, rows);
    lemma_clear_rows_are_own(cleared, outcome.points, rows);
    match input {
        Some(InputCommand::Left) => {
            if can_move(s.points, s.board, MoveDirection::Left) {
                lemma_move_stays_in_well(s.board, s.points, MoveDirection::Left);
                assert(outcome.points[0] == s.points[0].shifted(0, -1));
                assert(outcome.points[1] == s.points[1].shifted(0, -1));
                assert(outcome.points[2] == s.points[2].shifted(0, -1));
                assert(outcome.points[3] == s.points[3].shifted(0, -1));
            }
        },
        Some(InputCommand::Right) => {
            if can_move(s.points, s.board, MoveDirection::Right) {
                lemma_move_stays_in_well(s.board, s.points, MoveDirection::Right);
                assert(outcome.points[0] == s.points[0].shifted(0, 1));
                assert(outcome.points[1] == s.points[1].shifted(0, 1));
                assert(outcome.points[2] == s.points[2].shifted(0, 1));
                assert(outcome.points[3] == s.points[3].shifted(0, 1));
            }
        },
        Some(InputCommand::Rotate) => {
            if rotation_fits(s.points, s.shape, s.board) {
                lemma_rotation_stays_in_well(s);
            }
        },
        _ => {},
    }
}

/// A falling piece stays in the well when it falls by one row, and the board drawn with
/// the piece at its new places holds no foreign block in the guarded rows.
proof fn lemma_fall_keeps_valid(s: SessionView, input: Option<InputCommand>)
    requires
        valid(s),
        s.phase is Falling,
        after_input(s, input).go_on,
        can_move(after_input(s, input).points, after_input(s, input).board, MoveDirection::Down),
    ensures
        valid(ticked(s, input).0),
{
    let rows = guarded_rows(s.pieces_dropped);
    let outcome = after_input(s, input);
    lemma_input_keeps_piece_in_well(s, input);
    lemma_move_stays_in_well(outcome.board, outcome.points, MoveDirection::Down);
    let fallen = moved(outcome.points, MoveDirection::Down);
    let cleared = painted(outcome.board, outcome.points, Cell::Empty);
    lemma_paint_keeps_border(outcome.board, outcome.points, Cell::Empty);
    lemma_clearing_own_blocks(outcome.board, outcome.points, rows);
    lemma_clear_rows_are_own(cleared, fallen, rows);
    lemma_paint_keeps_border(cleared, fallen, Cell::Block);
    lemma_stamping_own_blocks(cleared, fallen, rows);
    assert(fallen[0] == outcome.points[0].shifted(1, 0));
    assert(fallen[1] == outcome.points[1].shifted(1, 0));
    assert(fallen[2] == outcome.points[2].shifted(1, 0));
    assert(fallen[3] == outcome.points[3].shifted(1, 0));
}

/// A piece that comes to rest is stamped where it lay, and the first piece of a game rests
/// below the top row.
proof fn lemma_rest_keeps_valid(s: SessionView, input: Option<InputCommand>)
    requires
        valid(s),
        s.phase is Falling,
        after_input(s, input).go_on,
        !can_move(after_input(s, input).points, after_input(s, input).board, MoveDirection::Down),
    ensures
        valid(ticked(s, input).0),
{
    let rows = guarded_rows(s.pieces_dropped);
    let outcome = after_input(s, input);
    lemma_input_keeps_piece_in_well(s, input);
    lemma_paint_keeps_border(outcome.board, outcome.points, Cell::Block);
    lemma_stamping_own_blocks(outcome.board, outcome.points, rows);
    if s.pieces_dropped == 0 {
        lemma_first_piece_rests_on_floor(outcome.board, outcome.points);
    }
}

/// Removing the full rows under a piece at rest leaves a game that waits for the next
/// piece, or is over. The top row of the well is not full then, so the removing ends.
proof fn lemma_settling_keeps_valid(s: SessionView)
    requires
        valid(s),
        s.phase is Locking,
    ensures
        valid(settled_down(s).0),
        !row_full(s.board, 0),
{
    let rows = guarded_rows(s.pieces_dropped);
    lemma_own_blocks_fill_no_row(s.board, s.points, rows, 0);
    lemma_full_row_count_is_small(s.board);
    lemma_settled_has_no_full_row(s.board, 20);
    let after = settled_down(s).0;
    if after.phase is Spawning {
        assert(!reaches_top(s.points));
        assert forall|row: int, col: int| 0 <= row < 1 && 1 <= col < 11 implies (
        #[trigger] after.board[row][col]) == Cell::Empty by {
            assert(after.board[0] == s.board[0]);
            if s.board[0][col] == Cell::Block {
                assert(covers(s.points, Point { row: 0, col }));
            }
        }
    }
}

/// A new piece is a tetromino in the well, stamped on rows that held no block.
proof fn lemma_spawn_keeps_valid(s: SessionView, seconds: int, process_id: int)
    requires
        valid(s),
        s.phase is Spawning,
    ensures
        valid(spawned(s, seconds, process_id).0),
        all_in_grid(
            anchored(
                shape_view(catalog(chosen_index(seconds, process_id))),
                Point { row: 0, col: SPAWN_COLUMN as int },
            ),
        ),
{
    let rows = guarded_rows(s.pieces_dropped);
    let index = chosen_index(seconds, process_id);
    let shape = shape_view(catalog(index));
    let anchor = Point { row: 0, col: SPAWN_COLUMN as int };
    let points = anchored(shape, anchor);
    lemma_catalog_holds_tetrominoes(index);
    lemma_catalog_fills_top_row(index);
    lemma_anchored_stays_near(shape, anchor);
    lemma_anchored_rows_follow_first(shape, anchor);
    assert(in_well(points[0]) && in_well(points[1]) && in_well(points[2]) && in_well(points[3]));
    lemma_paint_keeps_border(s.board, points, Cell::Block);
    lemma_clear_rows_are_own(s.board, points, rows);
    lemma_stamping_own_blocks(s.board, points, rows);
}

/// Every step leaves a game as sound as it found it.
pub proof fn lemma_step_keeps_valid(s: SessionView, event: Event)
    requires
        valid(s),
    ensures
        valid(stepped(s, event).0),
{
    match s.phase {
        Phase::Over => {},
        Phase::Spawning => match event {
            Event::Clock { seconds, process_id } => {
                lemma_spawn_keeps_valid(s, seconds as int, process_id as int);
            },
            _ => {},
        },
        Phase::Falling => {
            let input = match event {
                Event::Input(command) => Some(command),
                _ => None,
            };
            if event is Input || event is Timeout {
                let outcome = after_input(s, input);
                if !outcome.go_on {
                } else if can_move(outcome.points, outcome.board, MoveDirection::Down) {
                    lemma_fall_keeps_valid(s, input);
                } else {
                    lemma_rest_keeps_valid(s, input);
                }
            }
        },
        Phase::Locking => {
            if event is Drawn {
                lemma_settling_keeps_valid(s);
            }
        },
    }
}

/// No step takes from the score, slows the music down or lengthens the fall interval.
pub proof fn lemma_step_never_turns_back(s: SessionView, event: Event)
    ensures
        stepped(s, event).0.score >= s.score,
        stepped(s, event).0.speed_steps >= s.speed_steps,
        stepped(s, event).0.fall_interval <= s.fall_interval,
        stepped(s, event).0.pieces_dropped >= s.pieces_dropped,
{
    lemma_full_row_count_is_small(s.board);
}

/// Removes the lowest full row of the well, again and again, until no row is full, and
/// returns the number of rows removed. The top row of the well must not be full: it would
/// fill the row below it again after every removal.
pub fn clear_full_rows(board: &mut Board) -> (removed: u64)
    requires
        !row_full(board_view(*old(board)), 0),
    ensures
        board_view(*final(board)) == settled(board_view(*old(board))),
        removed == full_row_count(board_view(*old(board))),
        lowest_full_row(board_view(*final(board))) == 0,
{
    let ghost start = board_view(*board);
    let mut removed: u64 = 0;
    let mut column: usize = is_full_row(board);
    proof {
        lemma_full_row_count_is_small(start);
        lemma_no_full_row(start);
    }
    while column != 0
        invariant
            start == board_view(*old(board)),
            is_board(board_view(*board)),
            !row_full(board_view(*board), 0),
            column == lowest_full_row(board_view(*board)),
            0 <= removed <= 20,
            removed + full_row_count(board_view(*board)) == full_row_count(start),
            full_row_count(start) <= 20,
            settled_in(board_view(*board), (20 - removed) as nat) == settled(start),
        decreases full_row_count(board_view(*board)),
    {
        proof {
            let current = board_view(*board);
            lemma_lowest_full_row_upto(current, 21);
            lemma_collapse_removes_one_full_row(current, column as int);
            lemma_collapse_keeps_border(current, column as int);
        }
        collapse_full_row(board, &column);
        column = is_full_row(board);
        removed += 1;
    }
    proof {
        lemma_no_full_row(board_view(*board));
    }
    removed
}

/// Starts a game: an empty well, no score, and the first piece still to be picked.
pub fn start_game() -> (session: Session)
    ensures
        session@ == initial_session(),
        valid(session@),
{
    let board = init_board();
    let tetromino: Tetromino = [[Cell::Empty; 4]; 4];
    let tetromino_positions: Positions = [
        Coordinate { y: 0, x: 0 },
        Coordinate { y: 0, x: 0 },
        Coordinate { y: 0, x: 0 },
        Coordinate { y: 0, x: 0 },
    ];
    let session = Session {
        board,
        tetromino_positions,
        tetromino,
        points: 0,
        time_in_milliseconds: START_INTERVAL,
        speed_steps: 0,
        tetrominos_dropped: 0,
        phase: Phase::Spawning,
    };
    proof {
        assert(session@.points =~= initial_session().points);
        assert(session@.shape =~~= initial_session().shape);
        let g = initial_grid();
        assert(is_board(g));
        assert forall|row: int, col: int| on_border(Point { row, col }) implies (
        #[trigger] g[row][col]) == Cell::Block by {}
        assert forall|row: int, col: int| 0 <= row < 21 && 1 <= col < 11 implies (
        #[trigger] g[row][col]) == Cell::Empty by {}
    }
    session
}

impl Session {
    /// The board, with the falling piece drawn on it as far as the last step drew it.
    pub fn board(&self) -> (board: &Board)
        ensures
            board_view(*board) == self@.board,
    {
        &self.board
    }

    /// The four places of the piece that fell last.
    pub fn tetromino_positions(&self) -> (positions: &Positions)
        ensures
            positions_view(*positions) == self@.points,
    {
        &self.tetromino_positions
    }

    /// The shape of the piece that fell last, as it is turned now.
    pub fn tetromino(&self) -> (tetromino: &Tetromino)
        ensures
            shape_view(*tetromino) == self@.shape,
    {
        &self.tetromino
    }

    /// The score: the number of rows removed so far.
    pub fn points(&self) -> (points: u64)
        ensures
            points == self@.score,
    {
        self.points
    }

    /// The fall interval: the time to wait for a command, in milliseconds.
    pub fn time_in_milliseconds(&self) -> (time: u64)
        ensures
            time == self@.fall_interval,
    {
        self.time_in_milliseconds
    }

    /// The number of steps by which the music has gained speed.
    pub fn speed_steps(&self) -> (steps: u64)
        ensures
            steps == self@.speed_steps,
    {
        self.speed_steps
    }

    /// The number of pieces that have come to rest.
    pub fn tetrominos_dropped(&self) -> (dropped: i32)
        ensures
            dropped == self@.pieces_dropped,
    {
        self.tetrominos_dropped
    }

    /// Where the game stands.
    pub fn phase(&self) -> (phase: Phase)
        ensures
            phase == self@.phase,
    {
        self.phase
    }

    /// Tells whether the game has ended.
    pub fn exit(&self) -> (exit: bool)
        ensures
            exit == (self@.phase is Over),
    {
        match self.phase {
            Phase::Over => true,
            _ => false,
        }
    }

    /// Picks the next piece from a clock reading and stamps it at the top of the well.
    fn spawn(&mut self, seconds: u64, process_id: u32) -> (action: Action)
        requires
            valid(old(self)@),
            old(self)@.phase is Spawning,
        ensures
            (final(self)@, action) == spawned(old(self)@, seconds as int, process_id as int),
    {
        let tetromino: Tetromino = get_random_tetromino(seconds, process_id);
        if (is_same_tetromino(&tetromino, &SBAR1) || is_same_tetromino(&tetromino, &SBAR2))
            && self.tetrominos_dropped == 0 {
            return Action::ReadClock;
        }
        proof {
            lemma_spawn_keeps_valid(self@, seconds as int, process_id as int);
            lemma_catalog_holds_tetrominoes(chosen_index(seconds as int, process_id as int));
        }
        let mut board: Board = self.board;
        let tetromino_positions = init_tetromino_to_board(&mut board, &tetromino, SPAWN_COLUMN, 0);
        self.board = board;
        self.tetromino_positions = tetromino_positions;
        self.tetromino = tetromino;
        self.phase = Phase::Falling;
        Action::Poll { timeout: self.time_in_milliseconds }
    }

    /// Removes the full rows under the piece at rest, counts them and the piece, and tells
    /// whether the game is over.
    fn settle(&mut self) -> (action: Action)
        requires
            valid(old(self)@),
            old(self)@.phase is Locking,
            old(self)@.pieces_dropped < i32::MAX,
        ensures
            (final(self)@, action) == settled_down(old(self)@),
    {
        proof {
            lemma_settling_keeps_valid(self@);
            lemma_full_row_count_is_small(self@.board);
        }
        let mut board: Board = self.board;
        let removed: u64 = clear_full_rows(&mut board);
        self.board = board;
        if removed != 0 {
            self.speed_steps += 1;
            if self.time_in_milliseconds > INTERVAL_STEP {
                self.time_in_milliseconds -= INTERVAL_STEP;
            }
        }
        self.points += removed;
        let over: bool = game_over(&self.tetromino_positions) && self.tetrominos_dropped > 0;
        self.tetrominos_dropped += 1;
        if over {
            self.phase = Phase::Over;
        } else {
            self.phase = Phase::Spawning;
        }
        Action::Settled { speed_up: removed != 0, game_over: over }
    }

    /// Carries out the command, if any, and lets the piece fall by one row or come to rest.
    fn tick(&mut self, input: Option<InputCommand>) -> (action: Action)
        requires
            valid(old(self)@),
            old(self)@.phase is Falling,
        ensures
            (final(self)@, action) == ticked(old(self)@, input),
    {
        let mut board: Board = self.board;
        let mut tetromino_positions: Positions = self.tetromino_positions;
        let mut tetromino: Tetromino = self.tetromino;
        proof {
            lemma_input_keeps_piece_in_well(self@, input);
            let points = self@.points;
            lemma_well_has_room_beside(points);
        }
        if let Some(command) = input {
            if !commit_action(&command, &mut tetromino_positions, &mut tetromino, &mut board) {
                self.phase = Phase::Over;
                return Action::Quit;
            }
        }
        let ghost outcome = after_input(old(self)@, input);
        proof {
            lemma_well_has_room_beside(outcome.points);
        }
        let prev_tetromino_positions = copy_tetromino_positions(&tetromino_positions);
        if !drop_tetromino(&mut tetromino_positions, &board) {
            write_tetromino_to_board(&tetromino_positions, &mut board);
            self.board = board;
            self.tetromino_positions = tetromino_positions;
            self.tetromino = tetromino;
            self.phase = Phase::Locking;
            return Action::DrawLocked;
        }
        proof {
            lemma_move_stays_in_well(outcome.board, outcome.points, MoveDirection::Down);
        }
        clear_previous_tetromino_from_board(&prev_tetromino_positions, &mut board);
        write_tetromino_to_board(&tetromino_positions, &mut board);
        self.board = board;
        self.tetromino_positions = tetromino_positions;
        self.tetromino = tetromino;
        Action::Redraw { timeout: self.time_in_milliseconds }
    }

    /// Takes the game one step further, and tells what is to be done before the next step.
    ///
    /// A program plays a game by doing what the action says and handing in what came of
    /// it: a clock reading for `ReadClock`, a command or a timeout for `Poll` and `Redraw`,
    /// `Drawn` for `DrawLocked`. After `Settled`, it reads the clock for the next piece,
    /// unless the game is over. The count of pieces is a signed 32-bit number: a piece at
    /// rest can only be counted while the count is below its largest value.
    pub fn step(&mut self, event: Event) -> (action: Action)
        requires
            valid(old(self)@),
            old(self)@.phase is Locking && event is Drawn ==> old(self)@.pieces_dropped < i32::MAX,
        ensures
            (final(self)@, action) == stepped(old(self)@, event),
            valid(final(self)@),
            final(self)@.fall_interval <= old(self)@.fall_interval,
            final(self)@.speed_steps >= old(self)@.speed_steps,
            final(self)@.score >= old(self)@.score,
    {
        proof {
            lemma_step_keeps_valid(self@, event);
            lemma_step_never_turns_back(self@, event);
        }
        match self.phase {
            Phase::Over => Action::Quit,
            Phase::Spawning => match event {
                Event::Clock { seconds, process_id } => self.spawn(seconds, process_id),
                _ => Action::ReadClock,
            },
            Phase::Falling => match event {
                Event::Input(command) => self.tick(Some(command)),
                Event::Timeout => self.tick(None),
                _ => Action::Poll { timeout: self.time_in_milliseconds },
            },
            Phase::Locking => match event {
                Event::Drawn => self.settle(),
                _ => Action::DrawLocked,
            },
        }
    }
}

} // verus!
