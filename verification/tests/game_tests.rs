use tetris::board::{init_board, Coordinate, Positions, BOARD_WIDTH};
use tetris::cell::Cell;
use tetris::game::{clear_full_rows, start_game, Action, Event, Phase, Session};
use tetris::input::InputCommand;
use tetris::tetromino::{Tetromino, LBAR1, LINE, SQUARE, TBAR};

const B: Cell = Cell::Block;
const E: Cell = Cell::Empty;

fn places(cells: [(isize, isize); 4]) -> Positions {
    [
        Coordinate::new(cells[0].0, cells[0].1),
        Coordinate::new(cells[1].0, cells[1].1),
        Coordinate::new(cells[2].0, cells[2].1),
        Coordinate::new(cells[3].0, cells[3].1),
    ]
}

/// The clock reading that picks the catalog entry at `index`.
fn pick(index: u64) -> Event {
    Event::Clock { seconds: index, process_id: 0 }
}

/// Hands in the commands, one per turn, then lets the piece fall until it rests, and
/// returns what the game asks for once the full rows are removed.
fn play_piece(session: &mut Session, index: u64, commands: &[InputCommand]) -> Action {
    let timeout = session.time_in_milliseconds();
    assert_eq!(session.step(pick(index)), Action::Poll { timeout });
    for command in commands.iter() {
        assert_eq!(session.step(Event::Input(*command)), Action::Redraw { timeout });
    }
    for _ in 0..30 {
        let action = session.step(Event::Timeout);
        if !matches!(action, Action::Redraw { .. }) {
            assert_eq!(action, Action::DrawLocked);
            assert_eq!(session.phase(), Phase::Locking);
            return session.step(Event::Drawn);
        }
    }
    panic!("the piece did not come to rest");
}

const AT_REST: Action = Action::Settled { speed_up: false, game_over: false };

const ROWS_REMOVED: Action = Action::Settled { speed_up: true, game_over: false };

#[test]
fn new_game_waits_for_its_first_piece() {
    let session = start_game();
    assert_eq!(session.phase(), Phase::Spawning);
    assert!(!session.exit());
    assert_eq!(session.points(), 0);
    assert_eq!(session.time_in_milliseconds(), 1000);
    assert_eq!(session.speed_steps(), 0);
    assert_eq!(session.tetrominos_dropped(), 0);
    assert_eq!(*session.board(), init_board());
}

#[test]
fn first_piece_is_never_one_of_the_two_s_shapes() {
    for index in 0..2u64 {
        let mut session = start_game();
        assert_eq!(session.step(pick(index)), Action::ReadClock);
        assert_eq!(session.phase(), Phase::Spawning);
        assert_eq!(session.tetrominos_dropped(), 0);
        assert_eq!(*session.board(), init_board());
    }
}

#[test]
fn first_piece_may_be_any_other_shape() {
    let shapes: [Tetromino; 5] = [LBAR1, tetris::tetromino::LBAR2, TBAR, LINE, SQUARE];
    for index in 2..7u64 {
        let mut session = start_game();
        assert_eq!(session.step(pick(index)), Action::Poll { timeout: 1000 });
        assert_eq!(session.phase(), Phase::Falling);
        assert_eq!(*session.tetromino(), shapes[(index - 2) as usize]);
    }
}

#[test]
fn later_pieces_may_be_s_shapes() {
    let mut session = start_game();
    assert_eq!(play_piece(&mut session, 5, &[]), AT_REST);
    assert_eq!(session.tetrominos_dropped(), 1);
    assert_eq!(session.step(pick(0)), Action::Poll { timeout: 1000 });
    assert_eq!(*session.tetromino(), tetris::tetromino::SBAR1);
    assert_eq!(*session.tetromino_positions(), places([(0, 4), (1, 4), (1, 5), (2, 5)]));
}

#[test]
fn refused_first_piece_is_picked_again() {
    let mut session = start_game();
    assert_eq!(session.step(pick(1)), Action::ReadClock);
    assert_eq!(session.step(pick(0)), Action::ReadClock);
    assert_eq!(session.step(pick(4)), Action::Poll { timeout: 1000 });
    assert_eq!(*session.tetromino(), TBAR);
}

#[test]
fn new_piece_is_stamped_at_the_top_of_the_well() {
    let mut session = start_game();
    assert_eq!(session.step(pick(5)), Action::Poll { timeout: 1000 });
    assert_eq!(*session.tetromino_positions(), places([(0, 4), (0, 5), (0, 6), (0, 7)]));
    let mut expected = init_board();
    for col in 4..8 {
        expected[0][col] = B;
    }
    assert_eq!(*session.board(), expected);
}

#[test]
fn events_out_of_turn_change_nothing() {
    let mut session = start_game();
    assert_eq!(session.step(Event::Timeout), Action::ReadClock);
    assert_eq!(session.step(Event::Drawn), Action::ReadClock);
    assert_eq!(session.step(Event::Input(InputCommand::Exit)), Action::ReadClock);
    assert_eq!(session.phase(), Phase::Spawning);
    assert_eq!(session.step(pick(5)), Action::Poll { timeout: 1000 });
    let board = *session.board();
    assert_eq!(session.step(pick(6)), Action::Poll { timeout: 1000 });
    assert_eq!(session.step(Event::Drawn), Action::Poll { timeout: 1000 });
    assert_eq!(session.phase(), Phase::Falling);
    assert_eq!(*session.tetromino(), LINE);
    assert_eq!(*session.board(), board);
}

#[test]
fn piece_falls_one_row_per_turn() {
    let mut session = start_game();
    session.step(pick(5));
    assert_eq!(session.step(Event::Timeout), Action::Redraw { timeout: 1000 });
    assert_eq!(*session.tetromino_positions(), places([(1, 4), (1, 5), (1, 6), (1, 7)]));
    let mut expected = init_board();
    for col in 4..8 {
        expected[1][col] = B;
    }
    assert_eq!(*session.board(), expected);
}

#[test]
fn command_is_carried_out_before_the_fall() {
    let mut session = start_game();
    session.step(pick(5));
    assert_eq!(session.step(Event::Input(InputCommand::Left)), Action::Redraw { timeout: 1000 });
    assert_eq!(*session.tetromino_positions(), places([(1, 3), (1, 4), (1, 5), (1, 6)]));
    assert_eq!(session.step(Event::Input(InputCommand::Rotate)), Action::Redraw { timeout: 1000 });
    assert_eq!(*session.tetromino_positions(), places([(2, 3), (3, 3), (4, 3), (5, 3)]));
    let mut expected = init_board();
    for row in 2..6 {
        expected[row][3] = B;
    }
    assert_eq!(*session.board(), expected);
}

#[test]
fn exit_ends_the_game_at_once() {
    let mut session = start_game();
    session.step(pick(5));
    session.step(Event::Timeout);
    let board = *session.board();
    assert_eq!(session.step(Event::Input(InputCommand::Exit)), Action::Quit);
    assert_eq!(session.phase(), Phase::Over);
    assert!(session.exit());
    assert_eq!(*session.board(), board);
    assert_eq!(session.tetrominos_dropped(), 0);
    assert_eq!(session.step(Event::Timeout), Action::Quit);
    assert_eq!(session.step(pick(5)), Action::Quit);
    assert_eq!(session.phase(), Phase::Over);
}

#[test]
fn piece_comes_to_rest_on_the_floor() {
    let mut session = start_game();
    session.step(pick(5));
    for _ in 0..20 {
        assert_eq!(session.step(Event::Timeout), Action::Redraw { timeout: 1000 });
    }
    assert_eq!(*session.tetromino_positions(), places([(20, 4), (20, 5), (20, 6), (20, 7)]));
    assert_eq!(session.step(Event::Timeout), Action::DrawLocked);
    assert_eq!(session.phase(), Phase::Locking);
    assert_eq!(session.tetrominos_dropped(), 0);
    let mut expected = init_board();
    for col in 4..8 {
        expected[20][col] = B;
    }
    assert_eq!(*session.board(), expected);
    assert_eq!(session.step(Event::Drawn), AT_REST);
    assert_eq!(session.phase(), Phase::Spawning);
    assert_eq!(session.tetrominos_dropped(), 1);
    assert_eq!(session.points(), 0);
    assert_eq!(session.time_in_milliseconds(), 1000);
    assert_eq!(*session.board(), expected);
}

#[test]
fn full_row_is_drawn_before_it_is_removed() {
    let mut session = start_game();
    let left = [InputCommand::Left; 3];
    let right = [InputCommand::Right; 4];
    play_piece(&mut session, 5, &left);
    play_piece(&mut session, 5, &right[..1]);
    assert_eq!(session.step(pick(6)), Action::Poll { timeout: 1000 });
    for command in right.iter() {
        assert_eq!(session.step(Event::Input(*command)), Action::Redraw { timeout: 1000 });
    }
    let mut action = Action::Redraw { timeout: 1000 };
    while action == (Action::Redraw { timeout: 1000 }) {
        action = session.step(Event::Timeout);
    }
    assert_eq!(action, Action::DrawLocked);
    let mut expected = init_board();
    for col in 1..BOARD_WIDTH - 1 {
        expected[20][col] = B;
    }
    expected[19][9] = B;
    expected[19][10] = B;
    assert_eq!(*session.board(), expected);
    assert_eq!(session.points(), 0);
    assert_eq!(session.step(Event::Timeout), Action::DrawLocked);
    assert_eq!(session.step(pick(3)), Action::DrawLocked);
    assert_eq!(*session.board(), expected);
    assert_eq!(session.step(Event::Drawn), ROWS_REMOVED);
    assert_eq!(session.points(), 1);
}

#[test]
fn full_row_is_removed_and_the_game_speeds_up() {
    let mut session = start_game();
    let left = [InputCommand::Left; 3];
    let right = [InputCommand::Right; 4];
    assert_eq!(play_piece(&mut session, 5, &left), AT_REST);
    assert_eq!(play_piece(&mut session, 5, &right[..1]), AT_REST);
    assert_eq!(play_piece(&mut session, 6, &right), ROWS_REMOVED);
    assert_eq!(session.points(), 1);
    assert_eq!(session.time_in_milliseconds(), 900);
    assert_eq!(session.speed_steps(), 1);
    assert_eq!(session.tetrominos_dropped(), 3);
    assert_eq!(session.phase(), Phase::Spawning);
    let mut expected = init_board();
    expected[20][9] = B;
    expected[20][10] = B;
    assert_eq!(*session.board(), expected);
    assert_eq!(session.step(pick(5)), Action::Poll { timeout: 900 });
    assert_eq!(session.step(Event::Timeout), Action::Redraw { timeout: 900 });
}

#[test]
fn two_rows_at_once_count_twice_and_speed_up_once() {
    let mut session = start_game();
    let left = [InputCommand::Left; 3];
    let right = [InputCommand::Right; 4];
    for _ in 0..2 {
        assert_eq!(play_piece(&mut session, 5, &left), AT_REST);
        assert_eq!(play_piece(&mut session, 5, &right[..1]), AT_REST);
    }
    assert_eq!(play_piece(&mut session, 6, &right), ROWS_REMOVED);
    assert_eq!(session.points(), 2);
    assert_eq!(session.time_in_milliseconds(), 900);
    assert_eq!(session.speed_steps(), 1);
    assert_eq!(*session.board(), init_board());
}

#[test]
fn fall_interval_stops_at_its_floor() {
    let mut session = start_game();
    let left = [InputCommand::Left; 3];
    let right = [InputCommand::Right; 4];
    for round in 1..=12u64 {
        for _ in 0..2 {
            assert_eq!(play_piece(&mut session, 5, &left), AT_REST);
            assert_eq!(play_piece(&mut session, 5, &right[..1]), AT_REST);
        }
        assert_eq!(play_piece(&mut session, 6, &right), ROWS_REMOVED);
        assert_eq!(session.points(), 2 * round);
        assert_eq!(session.speed_steps(), round);
        let expected = if round < 9 { 1000 - 100 * round } else { 100 };
        assert_eq!(session.time_in_milliseconds(), expected);
        assert_eq!(*session.board(), init_board());
    }
    assert_eq!(session.tetrominos_dropped(), 60);
}

#[test]
fn counters_never_turn_back() {
    let mut session = start_game();
    let commands = [InputCommand::Left, InputCommand::Rotate, InputCommand::Right, InputCommand::Down];
    for turn in 0..400usize {
        let before = (session.points(), session.speed_steps(), session.time_in_milliseconds());
        let event = match session.phase() {
            Phase::Spawning => pick((turn % 5 + 2) as u64),
            Phase::Falling => Event::Input(commands[turn % 4]),
            Phase::Locking => Event::Drawn,
            Phase::Over => break,
        };
        session.step(event);
        assert!(session.points() >= before.0);
        assert!(session.speed_steps() >= before.1);
        assert!(session.time_in_milliseconds() <= before.2);
        for row in 0..22 {
            assert_eq!(session.board()[row][0], B);
            assert_eq!(session.board()[row][BOARD_WIDTH - 1], B);
        }
        for col in 0..BOARD_WIDTH {
            assert_eq!(session.board()[21][col], B);
        }
    }
}

#[test]
fn game_is_over_when_the_well_is_full() {
    let mut session = start_game();
    for piece in 1..=20 {
        assert_eq!(play_piece(&mut session, 5, &[]), AT_REST);
        assert_eq!(session.tetrominos_dropped(), piece);
    }
    assert_eq!(session.board()[1][4], B);
    assert_eq!(session.board()[0][4], E);
    assert_eq!(session.step(pick(5)), Action::Poll { timeout: 1000 });
    assert_eq!(session.step(Event::Timeout), Action::DrawLocked);
    assert_eq!(session.step(Event::Drawn), Action::Settled { speed_up: false, game_over: true });
    assert_eq!(session.phase(), Phase::Over);
    assert!(session.exit());
    assert_eq!(session.tetrominos_dropped(), 21);
    assert_eq!(session.points(), 0);
    assert_eq!(*session.tetromino_positions(), places([(0, 4), (0, 5), (0, 6), (0, 7)]));
    assert_eq!(session.step(Event::Timeout), Action::Quit);
}

#[test]
fn clearing_removes_every_full_row() {
    let mut board = init_board();
    for row in [20usize, 18, 17, 3].iter() {
        for col in 1..BOARD_WIDTH - 1 {
            board[*row][col] = B;
        }
    }
    board[19][4] = B;
    board[2][6] = B;
    assert_eq!(clear_full_rows(&mut board), 4);
    let mut expected = init_board();
    expected[20][4] = B;
    expected[6][6] = B;
    assert_eq!(board, expected);
}

#[test]
fn clearing_a_board_without_full_rows_changes_nothing() {
    let mut board = init_board();
    board[20][4] = B;
    board[0][6] = B;
    let before = board;
    assert_eq!(clear_full_rows(&mut board), 0);
    assert_eq!(board, before);
}
