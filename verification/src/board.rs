//! The board and the places of the falling piece on it: stamping and erasing, moving and
//! falling, lying off the board and coming back, finding and removing full rows.

use vstd::prelude::*;
use crate::cell::{Cell, Grid, Point, has_size, translated};
use crate::tetromino::{
    Tetromino, TETROMINO_SIZE, block_offsets, block_offsets_upto, is_tetromino,
    lemma_block_offsets_grow, lemma_block_offsets_name_blocks, shape_view,
};

verus! {

/// The number of columns of the board, walls included.
pub const BOARD_WIDTH: usize = 12;

/// The number of rows of the board, floor included.
pub const BOARD_HEIGHT: usize = 22;

/// The playing field: a well of ten columns and twenty-one rows, closed by a wall on
/// either side and a floor below.
pub type Board = [[Cell; BOARD_WIDTH]; BOARD_HEIGHT];

/// The grid that a board stands for.
pub open spec fn board_view(board: Board) -> Grid {
    Seq::new(22, |row: int| Seq::new(12, |col: int| board[row][col]))
}

/// `g` has the size of a board.
pub open spec fn is_board(g: Grid) -> bool {
    has_size(g, 22, 12)
}

/// `p` lies on the board.
pub open spec fn in_grid(p: Point) -> bool {
    0 <= p.row < 22 && 0 <= p.col < 12
}

/// `p` lies on the floor or in one of the two walls.
pub open spec fn on_border(p: Point) -> bool {
    in_grid(p) && (p.row == 21 || p.col == 0 || p.col == 11)
}

/// `p` lies in the well: on the board, off the floor and the walls.
pub open spec fn in_well(p: Point) -> bool {
    0 <= p.row < 21 && 1 <= p.col < 11
}

/// The board before the first piece: floor and walls are blocks, the well is empty.
pub open spec fn initial_grid() -> Grid {
    Seq::new(
        22,
        |row: int|
            Seq::new(
                12,
                |col: int|
                    if on_border(Point { row, col }) {
                        Cell::Block
                    } else {
                        Cell::Empty
                    },
            ),
    )
}

/// Floor and walls of `g` are blocks.
pub open spec fn has_border(g: Grid) -> bool {
    forall|row: int, col: int|
        on_border(Point { row, col }) ==> (#[trigger] g[row][col]) == Cell::Block
}

/// Builds the board before the first piece: floor and walls are blocks, and every cell of
/// the well is empty.
pub fn init_board() -> (board: Board)
    ensures
        board_view(board) == initial_grid(),
        forall|row: int, col: int|
            in_grid(Point { row, col }) ==> #[trigger] board[row][col] == (if on_border(
                Point { row, col },
            ) {
                Cell::Block
            } else {
                Cell::Empty
            }),
{
    let mut board: Board = [[Cell::Empty; BOARD_WIDTH]; BOARD_HEIGHT];
    let mut i: usize = 0;
    while i < BOARD_HEIGHT
        invariant
            i <= BOARD_HEIGHT,
            forall|row: int, col: int|
                0 <= row < i && 0 <= col < 12 ==> #[trigger] board[row][col] == (if on_border(
                    Point { row, col },
                ) {
                    Cell::Block
                } else {
                    Cell::Empty
                }),
            forall|row: int, col: int|
                i <= row < 22 && 0 <= col < 12 ==> (#[trigger] board[row][col]) == Cell::Empty,
        decreases BOARD_HEIGHT - i,
    {
        let mut j: usize = 0;
        while j < BOARD_WIDTH
            invariant
                i < BOARD_HEIGHT,
                j <= BOARD_WIDTH,
                forall|row: int, col: int|
                    0 <= row < i && 0 <= col < 12 ==> #[trigger] board[row][col] == (if on_border(
                        Point { row, col },
                    ) {
                        Cell::Block
                    } else {
                        Cell::Empty
                    }),
                forall|col: int|
                    0 <= col < j ==> #[trigger] board[i as int][col] == (if on_border(
                        Point { row: i as int, col },
                    ) {
                        Cell::Block
                    } else {
                        Cell::Empty
                    }),
                forall|col: int|
                    j <= col < 12 ==> (#[trigger] board[i as int][col]) == Cell::Empty,
                forall|row: int, col: int|
                    i < row < 22 && 0 <= col < 12 ==> (#[trigger] board[row][col]) == Cell::Empty,
            decreases BOARD_WIDTH - j,
        {
            if i == BOARD_HEIGHT - 1 {
                board[i][j] = Cell::Block;
            }
            if j == 0 || j == BOARD_WIDTH - 1 {
                board[i][j] = Cell::Block;
            }
            j += 1;
        }
        i += 1;
    }
    assert(board_view(board) =~~= initial_grid());
    board
}

/// A place on the board, as the row `y` and the column `x`.
#[derive(Debug, Clone, Copy, PartialEq, Eq, Structural)]
pub struct Coordinate {
    pub y: isize,
    pub x: isize,
}

impl View for Coordinate {
    type V = Point;

    open spec fn view(&self) -> Point {
        Point { row: self.y as int, col: self.x as int }
    }
}

impl Coordinate {
    /// The place in row `y` and column `x`.
    pub fn new(y: isize, x: isize) -> (coordinate: Coordinate)
        ensures
            coordinate@ == (Point { row: y as int, col: x as int }),
    {
        Coordinate { y, x }
    }

    /// The column.
    pub fn get_x(&self) -> (x: isize)
        ensures
            x == self@.col,
    {
        self.x
    }

    /// The row.
    pub fn get_y(&self) -> (y: isize)
        ensures
            y == self@.row,
    {
        self.y
    }
}

/// A direction on the board: the way a piece moves, or the side on which it lies off the
/// board.
#[derive(Debug, Clone, Copy, PartialEq, Eq, Structural)]
pub enum MoveDirection {
    Left,
    Right,
    Down,
    Up,
    Nowhere,
}

/// The four places that the falling piece fills.
pub type Positions = [Coordinate; TETROMINO_SIZE];

/// The points that the four places stand for.
pub open spec fn positions_view(positions: Positions) -> Seq<Point> {
    Seq::new(4, |i: int| positions[i]@)
}

/// `p` is one of the first `n` of the four `points`.
pub open spec fn covers_upto(points: Seq<Point>, n: int, p: Point) -> bool {
    ||| n > 0 && points[0] == p
    ||| n > 1 && points[1] == p
    ||| n > 2 && points[2] == p
    ||| n > 3 && points[3] == p
}

/// `p` is one of the four `points`.
pub open spec fn covers(points: Seq<Point>, p: Point) -> bool {
    covers_upto(points, 4, p)
}

/// All four `points` lie on the board.
pub open spec fn all_in_grid(points: Seq<Point>) -> bool {
    in_grid(points[0]) && in_grid(points[1]) && in_grid(points[2]) && in_grid(points[3])
}

/// `g` with `cell` at each of the four `points`.
pub open spec fn painted(g: Grid, points: Seq<Point>, cell: Cell) -> Grid {
    Seq::new(
        g.len(),
        |row: int|
            Seq::new(
                g[row].len(),
                |col: int|
                    if covers(points, Point { row, col }) {
                        cell
                    } else {
                        g[row][col]
                    },
            ),
    )
}

/// Sets the four places of the board to `cell`.
fn paint(positions: &Positions, board: &mut Board, cell: Cell)
    requires
        all_in_grid(positions_view(*positions)),
    ensures
        board_view(*final(board)) == painted(
            board_view(*old(board)),
            positions_view(*positions),
            cell,
        ),
        forall|row: int, col: int|
            in_grid(Point { row, col }) ==> #[trigger] final(board)[row][col] == (if covers(
                positions_view(*positions),
                Point { row, col },
            ) {
                cell
            } else {
                old(board)[row][col]
            }),
{
    let ghost points = positions_view(*positions);
    let mut i: usize = 0;
    while i < TETROMINO_SIZE
        invariant
            i <= TETROMINO_SIZE,
            points == positions_view(*positions),
            all_in_grid(points),
            forall|row: int, col: int|
                in_grid(Point { row, col }) ==> #[trigger] board[row][col] == (if covers_upto(
                    points,
                    i as int,
                    Point { row, col },
                ) {
                    cell
                } else {
                    old(board)[row][col]
                }),
        decreases TETROMINO_SIZE - i,
    {
        board[positions[i].y as usize][positions[i].x as usize] = cell;
        i += 1;
    }
    assert(board_view(*board) =~~= painted(board_view(*old(board)), points, cell));
}

/// Empties the four places of the board.
pub fn clear_previous_tetromino_from_board(tetromino_positions: &Positions, board: &mut Board)
    requires
        all_in_grid(positions_view(*tetromino_positions)),
    ensures
        board_view(*final(board)) == painted(
            board_view(*old(board)),
            positions_view(*tetromino_positions),
            Cell::Empty,
        ),
        forall|row: int, col: int|
            in_grid(Point { row, col }) ==> #[trigger] final(board)[row][col] == (if covers(
                positions_view(*tetromino_positions),
                Point { row, col },
            ) {
                Cell::Empty
            } else {
                old(board)[row][col]
            }),
{
    paint(tetromino_positions, board, Cell::Empty);
}

/// Fills the four places of the board with blocks.
pub fn write_tetromino_to_board(tetromino_positions: &Positions, board: &mut Board)
    requires
        all_in_grid(positions_view(*tetromino_positions)),
    ensures
        board_view(*final(board)) == painted(
            board_view(*old(board)),
            positions_view(*tetromino_positions),
            Cell::Block,
        ),
        forall|row: int, col: int|
            in_grid(Point { row, col }) ==> #[trigger] final(board)[row][col] == (if covers(
                positions_view(*tetromino_positions),
                Point { row, col },
            ) {
                Cell::Block
            } else {
                old(board)[row][col]
            }),
{
    paint(tetromino_positions, board, Cell::Block);
}

/// Returns the four places unchanged, as a value of its own.
pub fn copy_tetromino_positions(tetromino_positions: &Positions) -> (copy: Positions)
    ensures
        copy == *tetromino_positions,
        positions_view(copy) == positions_view(*tetromino_positions),
{
    let mut new_tetromino_positions: Positions = [
        Coordinate { x: 0, y: 0 },
        Coordinate { x: 0, y: 0 },
        Coordinate { x: 0, y: 0 },
        Coordinate { x: 0, y: 0 },
    ];
    let mut i: usize = 0;
    while i < TETROMINO_SIZE
        invariant
            i <= TETROMINO_SIZE,
            forall|k: int|
                0 <= k < i ==> #[trigger] new_tetromino_positions[k] == tetromino_positions[k],
        decreases TETROMINO_SIZE - i,
    {
        new_tetromino_positions[i] = tetromino_positions[i];
        i += 1;
    }
    assert(new_tetromino_positions =~= *tetromino_positions);
    new_tetromino_positions
}

/// Every coordinate of the `points` fits the machine's signed word.
pub open spec fn representable(points: Seq<Point>) -> bool {
    forall|i: int|
        0 <= i < points.len() ==> isize::MIN <= (#[trigger] points[i]).row <= isize::MAX
            && isize::MIN <= points[i].col <= isize::MAX
}

/// The places of the blocks of shape `g` when the shape's top left cell lies at `anchor`:
/// row by row from the top, each row from the left.
pub open spec fn anchored(g: Grid, anchor: Point) -> Seq<Point> {
    translated(block_offsets(g), anchor.row, anchor.col)
}

/// A shape laid out from a place on the board stays within three rows and three columns
/// of that place.
pub proof fn lemma_anchored_stays_near(shape: Grid, anchor: Point)
    requires
        is_tetromino(shape),
    ensures
        anchored(shape, anchor).len() == 4,
        forall|k: int|
            0 <= k < 4 ==> {
                let p = #[trigger] anchored(shape, anchor)[k];
                &&& anchor.row <= p.row <= anchor.row + 3
                &&& anchor.col <= p.col <= anchor.col + 3
            },
{
    lemma_block_offsets_name_blocks(shape, 16);
    assert forall|k: int| 0 <= k < 4 implies {
        let p = #[trigger] anchored(shape, anchor)[k];
        &&& anchor.row <= p.row <= anchor.row + 3
        &&& anchor.col <= p.col <= anchor.col + 3
    } by {
        let offset = block_offsets(shape)[k];
        assert(0 <= offset.row < 4 && 0 <= offset.col < 4);
    }
}

/// Lays the shape out from a new anchor: the first of the four places it filled so far.
pub fn get_tetromino_positions(
    tetromino: &Tetromino,
    tetromino_positions: &Positions,
) -> (updated: Positions)
    requires
        is_tetromino(shape_view(*tetromino)),
        representable(anchored(shape_view(*tetromino), tetromino_positions[0]@)),
    ensures
        positions_view(updated) == anchored(shape_view(*tetromino), tetromino_positions[0]@),
        forall|i: int|
            0 <= i < 4 ==> (#[trigger] updated[i])@ == anchored(
                shape_view(*tetromino),
                tetromino_positions[0]@,
            )[i],
{
    let start_x: isize = tetromino_positions[0].get_x();
    let start_y: isize = tetromino_positions[0].get_y();
    let mut updated_tetromino_positions: Positions = [
        Coordinate { x: 0, y: 0 },
        Coordinate { x: 0, y: 0 },
        Coordinate { x: 0, y: 0 },
        Coordinate { x: 0, y: 0 },
    ];
    let ghost g = shape_view(*tetromino);
    let ghost target = anchored(g, tetromino_positions[0]@);
    let mut index: usize = 0;
    let mut i: usize = 0;
    while i < TETROMINO_SIZE
        invariant
            i <= TETROMINO_SIZE,
            g == shape_view(*tetromino),
            is_tetromino(g),
            target == translated(block_offsets(g), start_y as int, start_x as int),
            representable(target),
            index == block_offsets_upto(g, 4 * i).len(),
            forall|k: int|
                0 <= k < index ==> (#[trigger] updated_tetromino_positions[k])@ == target[k],
        decreases TETROMINO_SIZE - i,
    {
        let mut j: usize = 0;
        while j < TETROMINO_SIZE
            invariant
                i < TETROMINO_SIZE,
                j <= TETROMINO_SIZE,
                g == shape_view(*tetromino),
                is_tetromino(g),
                target == translated(block_offsets(g), start_y as int, start_x as int),
                representable(target),
                index == block_offsets_upto(g, 4 * i + j).len(),
                forall|k: int|
                    0 <= k < index ==> (#[trigger] updated_tetromino_positions[k])@ == target[k],
            decreases TETROMINO_SIZE - j,
        {
            proof {
                let n = 4 * i + j;
                assert(n / 4 == i && n % 4 == j);
                assert(g[i as int][j as int] == tetromino[i as int][j as int]);
                lemma_block_offsets_grow(g, n + 1, 16);
            }
            if tetromino[i][j] == Cell::Block {
                proof {
                    let n = 4 * i + j;
                    let found = block_offsets_upto(g, n + 1);
                    let offset = Point { row: i as int, col: j as int };
                    assert(found == block_offsets_upto(g, n).push(offset));
                    assert(block_offsets(g)[index as int] == found[index as int]);
                    assert(target[index as int] == (Point { row: start_y + i, col: start_x + j }));
                }
                updated_tetromino_positions[index].y = start_y + i as isize;
                updated_tetromino_positions[index].x = start_x + j as isize;
                index += 1;
            }
            j += 1;
        }
        i += 1;
    }
    assert(positions_view(updated_tetromino_positions) =~= target);
    updated_tetromino_positions
}

/// Stamps the shape onto the board with its top left cell at row `start_y`, column `start_x`,
/// and returns the four places it fills. Nothing is stamped, and all four places are the
/// board's corner, when `start_y` is negative or `start_x` is beyond the third-last column.
pub fn init_tetromino_to_board(
    board: &mut Board,
    tetromino: &Tetromino,
    start_x: isize,
    start_y: isize,
) -> (positions: Positions)
    requires
        is_tetromino(shape_view(*tetromino)),
        start_y >= 0 && start_x < BOARD_WIDTH - 2 ==> all_in_grid(
            anchored(shape_view(*tetromino), Point { row: start_y as int, col: start_x as int }),
        ),
    ensures
        start_y >= 0 && start_x < BOARD_WIDTH - 2 ==> {
            let points = anchored(
                shape_view(*tetromino),
                Point { row: start_y as int, col: start_x as int },
            );
            &&& positions_view(positions) == points
            &&& forall|i: int| 0 <= i < 4 ==> (#[trigger] positions[i])@ == points[i]
            &&& board_view(*final(board)) == painted(board_view(*old(board)), points, Cell::Block)
            &&& forall|row: int, col: int|
                in_grid(Point { row, col }) ==> #[trigger] final(board)[row][col] == (if covers(
                    points,
                    Point { row, col },
                ) {
                    Cell::Block
                } else {
                    old(board)[row][col]
                })
        },
        !(start_y >= 0 && start_x < BOARD_WIDTH - 2) ==> {
            &&& positions_view(positions) == Seq::new(4, |i: int| Point { row: 0, col: 0 })
            &&& *final(board) == *old(board)
        },
{
    let mut tetromino_positions: Positions = [
        Coordinate { y: 0, x: 0 },
        Coordinate { y: 0, x: 0 },
        Coordinate { y: 0, x: 0 },
        Coordinate { y: 0, x: 0 },
    ];
    if start_y >= 0 && start_x < (BOARD_WIDTH - 2) as isize {
        tetromino_positions[0] = Coordinate { y: start_y, x: start_x };
        proof {
            let points = anchored(
                shape_view(*tetromino),
                Point { row: start_y as int, col: start_x as int },
            );
            assert(points.len() == 4);
            assert forall|i: int| 0 <= i < points.len() implies isize::MIN <= (
            #[trigger] points[i]).row <= isize::MAX && isize::MIN <= points[i].col
                <= isize::MAX by {
                assert(in_grid(points[i]));
            }
        }
        tetromino_positions = get_tetromino_positions(tetromino, &tetromino_positions);
        write_tetromino_to_board(&tetromino_positions, board);
    } else {
        assert(positions_view(tetromino_positions) =~= Seq::new(
            4,
            |i: int| Point { row: 0, col: 0 },
        ));
    }
    tetromino_positions
}

/// The way that one move in the given direction takes, as rows down and columns to the
/// right.
pub open spec fn step_of(direction: MoveDirection) -> Point {
    match direction {
        MoveDirection::Left => Point { row: 0, col: -1 },
        MoveDirection::Right => Point { row: 0, col: 1 },
        MoveDirection::Down => Point { row: 1, col: 0 },
        MoveDirection::Up => Point { row: -1, col: 0 },
        MoveDirection::Nowhere => Point { row: 0, col: 0 },
    }
}

/// The point next to `p` in the given direction; `p` itself for no direction.
pub open spec fn neighbour(p: Point, direction: MoveDirection) -> Point {
    p.shifted(step_of(direction).row, step_of(direction).col)
}

/// The four `points` after one move in the given direction.
pub open spec fn moved(points: Seq<Point>, direction: MoveDirection) -> Seq<Point> {
    translated(points, step_of(direction).row, step_of(direction).col)
}

/// Moving left, right or down from `p` leads onto one of the four `points`. Never so for
/// the other directions.
pub open spec fn is_own_neighbour(points: Seq<Point>, p: Point, direction: MoveDirection) -> bool {
    match direction {
        MoveDirection::Left | MoveDirection::Right | MoveDirection::Down => covers(
            points,
            neighbour(p, direction),
        ),
        _ => false,
    }
}

/// The place next to point `i` in the given direction belongs to the piece itself or is
/// empty on `g`.
pub open spec fn is_free(points: Seq<Point>, g: Grid, i: int, direction: MoveDirection) -> bool {
    let next = neighbour(points[i], direction);
    covers(points, next) || g[next.row][next.col] == Cell::Empty
}

/// The piece at `points` can move by one in the given direction: no place it would newly
/// fill holds a block. One blocked place keeps the whole piece where it is.
pub open spec fn can_move(points: Seq<Point>, g: Grid, direction: MoveDirection) -> bool {
    &&& is_free(points, g, 0, direction)
    &&& is_free(points, g, 1, direction)
    &&& is_free(points, g, 2, direction)
    &&& is_free(points, g, 3, direction)
}

/// A piece that can move by one to the left, to the right or down meets no block at its new
/// places but those that it leaves behind.
pub proof fn lemma_moved_piece_meets_no_foreign_block(
    points: Seq<Point>,
    g: Grid,
    direction: MoveDirection,
)
    requires
        is_board(g),
        points.len() == 4,
        direction is Left || direction is Right || direction is Down,
        all_in_grid(moved(points, direction)),
        can_move(points, g, direction),
    ensures
        !overlaps(moved(points, direction), painted(g, points, Cell::Empty)),
{
    let after = moved(points, direction);
    let cleared = painted(g, points, Cell::Empty);
    assert forall|i: int| 0 <= i < 4 implies cleared[(#[trigger] after[i]).row][after[i].col]
        == Cell::Empty by {
        let next = neighbour(points[i], direction);
        assert(after[i] == next);
        assert(is_free(points, g, i, direction));
        assert(in_grid(next));
    }
    assert(cleared[after[0].row][after[0].col] == Cell::Empty);
    assert(cleared[after[1].row][after[1].col] == Cell::Empty);
    assert(cleared[after[2].row][after[2].col] == Cell::Empty);
    assert(cleared[after[3].row][after[3].col] == Cell::Empty);
}

/// Among four points, one has no other of them on its left, one none on its right and one
/// none below.
pub proof fn lemma_some_point_is_outermost(points: Seq<Point>, direction: MoveDirection)
    requires
        points.len() == 4,
        direction is Left || direction is Right || direction is Down,
    ensures
        exists|i: int| 0 <= i < 4 && !is_own_neighbour(points, #[trigger] points[i], direction),
{
    let key = |i: int|
        match direction {
            MoveDirection::Left => -points[i].col,
            MoveDirection::Right => points[i].col,
            _ => points[i].row,
        };
    let a = if key(0) >= key(1) { 0int } else { 1int };
    let b = if key(2) >= key(3) { 2int } else { 3int };
    let m = if key(a) >= key(b) { a } else { b };
    assert(key(m) >= key(0) && key(m) >= key(1) && key(m) >= key(2) && key(m) >= key(3));
    assert(!is_own_neighbour(points, points[m], direction));
}

/// Tells whether the place next to `coordinate` in the given direction belongs to the piece.
fn is_own_coordinate(
    coordinate: &Coordinate,
    tetromino_positions: &Positions,
    direction: &MoveDirection,
) -> (own: bool)
    requires
        direction is Down ==> coordinate.y < isize::MAX,
        direction is Left ==> coordinate.x > isize::MIN,
        direction is Right ==> coordinate.x < isize::MAX,
    ensures
        own == is_own_neighbour(positions_view(*tetromino_positions), coordinate@, *direction),
{
    let mut is_own_coordinate: bool = false;
    let ghost points = positions_view(*tetromino_positions);
    let mut i: usize = 0;
    while i < TETROMINO_SIZE
        invariant
            i <= TETROMINO_SIZE,
            points == positions_view(*tetromino_positions),
            direction is Down ==> coordinate.y < isize::MAX,
            direction is Left ==> coordinate.x > isize::MIN,
            direction is Right ==> coordinate.x < isize::MAX,
            is_own_coordinate == match *direction {
                MoveDirection::Left | MoveDirection::Right | MoveDirection::Down => covers_upto(
                    points,
                    i as int,
                    neighbour(coordinate@, *direction),
                ),
                _ => false,
            },
        decreases TETROMINO_SIZE - i,
    {
        match direction {
            MoveDirection::Down => {
                if tetromino_positions[i].x == coordinate.x && tetromino_positions[i].y
                    == coordinate.y + 1 {
                    is_own_coordinate = true;
                }
            },
            MoveDirection::Left => {
                if tetromino_positions[i].x == coordinate.x - 1 && tetromino_positions[i].y
                    == coordinate.y {
                    is_own_coordinate = true;
                }
            },
            MoveDirection::Right => {
                if tetromino_positions[i].x == coordinate.x + 1 && tetromino_positions[i].y
                    == coordinate.y {
                    is_own_coordinate = true;
                }
            },
            _ => {},
        }
        i += 1;
    }
    is_own_coordinate
}

/// Tells whether the piece can move by one column: to the left for -1, to the right for 1.
fn is_direction_empty(
    tetromino_positions: &Positions,
    board: &Board,
    direction_value: isize,
) -> (empty: bool)
    requires
        direction_value == -1 || direction_value == 1,
        all_in_grid(positions_view(*tetromino_positions)),
        all_in_grid(translated(positions_view(*tetromino_positions), 0, direction_value as int)),
    ensures
        empty == can_move(
            positions_view(*tetromino_positions),
            board_view(*board),
            if direction_value == -1 {
                MoveDirection::Left
            } else {
                MoveDirection::Right
            },
        ),
{
    let mut allowed_to_move: bool = false;
    let direction: MoveDirection = if direction_value == -1 {
        MoveDirection::Left
    } else {
        MoveDirection::Right
    };
    let ghost points = positions_view(*tetromino_positions);
    let ghost g = board_view(*board);
    let mut i: usize = 0;
    while i < TETROMINO_SIZE
        invariant
            i <= TETROMINO_SIZE,
            direction_value == -1 || direction_value == 1,
            direction == (if direction_value == -1 {
                MoveDirection::Left
            } else {
                MoveDirection::Right
            }),
            points == positions_view(*tetromino_positions),
            g == board_view(*board),
            all_in_grid(points),
            all_in_grid(translated(points, 0, direction_value as int)),
            forall|k: int| 0 <= k < i ==> is_free(points, g, k, direction),
            allowed_to_move <==> exists|k: int|
                0 <= k < i && !is_own_neighbour(points, #[trigger] points[k], direction),
        decreases TETROMINO_SIZE - i,
    {
        proof {
            let next = neighbour(points[i as int], direction);
            assert(next == translated(points, 0, direction_value as int)[i as int]);
            assert(in_grid(next));
            assert(g[next.row][next.col] == board[next.row][next.col]);
        }
        if !is_own_coordinate(&tetromino_positions[i], tetromino_positions, &direction) {
            let board_position: Cell = board[tetromino_positions[i].y as usize][(
            tetromino_positions[i].x + direction_value) as usize];
            if board_position == Cell::Block {
                assert(!is_free(points, g, i as int, direction));
                return false;
            } else {
                allowed_to_move = true;
            }
        }
        i += 1;
    }
    proof {
        lemma_some_point_is_outermost(points, direction);
    }
    allowed_to_move
}

/// Moves all four places by `direction` columns to the right.
fn move_to_direction(tetromino_positions: &mut Positions, direction: isize)
    requires
        representable(translated(positions_view(*old(tetromino_positions)), 0, direction as int)),
    ensures
        positions_view(*final(tetromino_positions)) == translated(
            positions_view(*old(tetromino_positions)),
            0,
            direction as int,
        ),
{
    let ghost target = translated(positions_view(*old(tetromino_positions)), 0, direction as int);
    let mut i: usize = 0;
    while i < TETROMINO_SIZE
        invariant
            i <= TETROMINO_SIZE,
            target == translated(positions_view(*old(tetromino_positions)), 0, direction as int),
            representable(target),
            forall|k: int| 0 <= k < i ==> (#[trigger] tetromino_positions[k])@ == target[k],
            forall|k: int|
                i <= k < 4 ==> #[trigger] tetromino_positions[k] == old(tetromino_positions)[k],
        decreases TETROMINO_SIZE - i,
    {
        assert(target[i as int].col == old(tetromino_positions)[i as int].x + direction);
        tetromino_positions[i].x += direction;
        i += 1;
    }
    assert(positions_view(*tetromino_positions) =~= target);
}

/// Tells whether the piece can fall by one row.
fn is_allowed_to_drop_tetromino(
    tetromino_positions: &Positions,
    board: &Board,
) -> (allowed: bool)
    requires
        all_in_grid(positions_view(*tetromino_positions)),
        all_in_grid(moved(positions_view(*tetromino_positions), MoveDirection::Down)),
    ensures
        allowed == can_move(
            positions_view(*tetromino_positions),
            board_view(*board),
            MoveDirection::Down,
        ),
{
    let mut allowed_to_drop: bool = false;
    let ghost points = positions_view(*tetromino_positions);
    let ghost g = board_view(*board);
    let mut i: usize = 0;
    while i < TETROMINO_SIZE
        invariant
            i <= TETROMINO_SIZE,
            points == positions_view(*tetromino_positions),
            g == board_view(*board),
            all_in_grid(points),
            all_in_grid(moved(points, MoveDirection::Down)),
            forall|k: int| 0 <= k < i ==> is_free(points, g, k, MoveDirection::Down),
            allowed_to_drop <==> exists|k: int|
                0 <= k < i && !is_own_neighbour(points, #[trigger] points[k], MoveDirection::Down),
        decreases TETROMINO_SIZE - i,
    {
        proof {
            let next = neighbour(points[i as int], MoveDirection::Down);
            assert(next == moved(points, MoveDirection::Down)[i as int]);
            assert(in_grid(next));
            assert(g[next.row][next.col] == board[next.row][next.col]);
        }
        if !is_own_coordinate(&tetromino_positions[i], tetromino_positions, &MoveDirection::Down) {
            if board[(tetromino_positions[i].y + 1) as usize][tetromino_positions[i].x as usize]
                == Cell::Empty {
                allowed_to_drop = true;
            } else {
                assert(!is_free(points, g, i as int, MoveDirection::Down));
                return false;
            }
        }
        i += 1;
    }
    proof {
        lemma_some_point_is_outermost(points, MoveDirection::Down);
    }
    allowed_to_drop
}

/// The sign that a cell is drawn with.
pub open spec fn glyph(cell: Cell) -> char {
    if cell == Cell::Block {
        '#'
    } else {
        ' '
    }
}

/// The first `cols` cells of row `row` as text: each cell's sign, then a space.
pub open spec fn row_text(g: Grid, row: int, cols: int) -> Seq<char>
    decreases cols,
{
    if cols <= 0 {
        Seq::empty()
    } else {
        row_text(g, row, cols - 1).push(glyph(g[row][cols - 1])).push(' ')
    }
}

/// The first `rows` rows of `g` as text: each row's cells, then a carriage return and a
/// line feed.
pub open spec fn board_text(g: Grid, rows: int) -> Seq<char>
    decreases rows,
{
    if rows <= 0 {
        Seq::empty()
    } else {
        board_text(g, rows - 1) + row_text(g, rows - 1, 12).push('\r').push('\n')
    }
}

/// Draws the board as text, row by row from the top, ready to be written to a terminal in
/// raw mode.
pub fn display_board(board: &Board) -> (text: String)
    ensures
        text@ == board_text(board_view(*board), 22),
{
    let ghost g = board_view(*board);
    let mut text: String = String::new();
    let mut i: usize = 0;
    while i < BOARD_HEIGHT
        invariant
            i <= BOARD_HEIGHT,
            g == board_view(*board),
            text@ == board_text(g, i as int),
        decreases BOARD_HEIGHT - i,
    {
        let ghost before = text@;
        let mut j: usize = 0;
        while j < BOARD_WIDTH
            invariant
                i < BOARD_HEIGHT,
                j <= BOARD_WIDTH,
                g == board_view(*board),
                text@ == before + row_text(g, i as int, j as int),
            decreases BOARD_WIDTH - j,
        {
            proof {
                reveal_strlit("# ");
                reveal_strlit("  ");
                assert(g[i as int][j as int] == board[i as int][j as int]);
            }
            let ghost so_far = text@;
            if board[i][j] == Cell::Block {
                text.append("# ");
                assert(text@ =~= so_far.push('#').push(' '));
            } else {
                text.append("  ");
                assert(text@ =~= so_far.push(' ').push(' '));
            }
            assert(text@ =~= before + row_text(g, i as int, j + 1));
            j += 1;
        }
        proof {
            reveal_strlit("\r\n");
        }
        text.append("\r\n");
        assert(text@ =~= before + row_text(g, i as int, 12).push('\r').push('\n'));
        i += 1;
    }
    text
}

/// Lets the piece fall by one row if nothing is in its way, and tells whether it fell.
/// All four places move, or none does.
pub fn drop_tetromino(tetromino_positions: &mut Positions, board: &Board) -> (dropped: bool)
    requires
        all_in_grid(positions_view(*old(tetromino_positions))),
        all_in_grid(moved(positions_view(*old(tetromino_positions)), MoveDirection::Down)),
    ensures
        dropped == can_move(
            positions_view(*old(tetromino_positions)),
            board_view(*board),
            MoveDirection::Down,
        ),
        dropped ==> positions_view(*final(tetromino_positions)) == moved(
            positions_view(*old(tetromino_positions)),
            MoveDirection::Down,
        ),
        dropped ==> forall|i: int|
            0 <= i < 4 ==> (#[trigger] final(tetromino_positions)[i]).y == old(
                tetromino_positions,
            )[i].y + 1 && final(tetromino_positions)[i].x == old(tetromino_positions)[i].x,
        !dropped ==> *final(tetromino_positions) == *old(tetromino_positions),
{
    if is_allowed_to_drop_tetromino(tetromino_positions, board) {
        let ghost target = moved(positions_view(*old(tetromino_positions)), MoveDirection::Down);
        let mut i: usize = 0;
        while i < TETROMINO_SIZE
            invariant
                i <= TETROMINO_SIZE,
                target == moved(positions_view(*old(tetromino_positions)), MoveDirection::Down),
                all_in_grid(target),
                forall|k: int| 0 <= k < i ==> (#[trigger] tetromino_positions[k])@ == target[k],
                forall|k: int|
                    i <= k < 4 ==> #[trigger] tetromino_positions[k] == old(tetromino_positions)[k],
            decreases TETROMINO_SIZE - i,
        {
            assert(target[i as int].row == old(tetromino_positions)[i as int].y + 1);
            assert(in_grid(target[i as int]));
            tetromino_positions[i].y += 1;
            i += 1;
        }
        assert(positions_view(*tetromino_positions) =~= target);
        return true;
    }
    false
}

/// Moves the piece by one column to the left or to the right if nothing is in its way, and
/// tells whether it moved. All four places move, or none does. Any other direction moves
/// nothing.
pub fn move_tetromino_sideways(
    tetromino_positions: &mut Positions,
    board: &Board,
    direction: &MoveDirection,
) -> (shifted: bool)
    requires
        direction is Left || direction is Right ==> {
            &&& all_in_grid(positions_view(*old(tetromino_positions)))
            &&& all_in_grid(moved(positions_view(*old(tetromino_positions)), *direction))
        },
    ensures
        shifted == ((direction is Left || direction is Right) && can_move(
            positions_view(*old(tetromino_positions)),
            board_view(*board),
            *direction,
        )),
        shifted ==> positions_view(*final(tetromino_positions)) == moved(
            positions_view(*old(tetromino_positions)),
            *direction,
        ),
        shifted ==> forall|i: int|
            0 <= i < 4 ==> (#[trigger] final(tetromino_positions)[i]).x == old(
                tetromino_positions,
            )[i].x + step_of(*direction).col && final(tetromino_positions)[i].y == old(
                tetromino_positions,
            )[i].y,
        !shifted ==> *final(tetromino_positions) == *old(tetromino_positions),
{
    let direction_is_empty: bool = false;
    match direction {
        MoveDirection::Left => {
            let direction_is_empty: bool = is_direction_empty(tetromino_positions, board, -1);
            if direction_is_empty {
                proof {
                    lemma_grid_points_are_representable(
                        translated(positions_view(*tetromino_positions), 0, -1),
                    );
                }
                move_to_direction(tetromino_positions, -1);
            }
            return direction_is_empty;
        },
        MoveDirection::Right => {
            let direction_is_empty: bool = is_direction_empty(tetromino_positions, board, 1);
            if direction_is_empty {
                proof {
                    lemma_grid_points_are_representable(
                        translated(positions_view(*tetromino_positions), 0, 1),
                    );
                }
                move_to_direction(tetromino_positions, 1);
            }
            return direction_is_empty;
        },
        MoveDirection::Down => {
            return direction_is_empty;
        },
        _ => direction_is_empty,
    }
}

/// Points on the board fit the machine's signed word.
pub proof fn lemma_grid_points_are_representable(points: Seq<Point>)
    requires
        points.len() == 4,
        all_in_grid(points),
    ensures
        representable(points),
{
}

/// How far and on which side a piece lies off the board.
#[derive(Debug, Clone, Copy, PartialEq, Eq, Structural)]
pub struct OutOfBounds {
    pub difference: isize,
    pub direction: MoveDirection,
}

/// The mathematical model of an `OutOfBounds`.
pub struct Overflow {
    pub difference: int,
    pub direction: MoveDirection,
}

impl View for OutOfBounds {
    type V = Overflow;

    open spec fn view(&self) -> Overflow {
        Overflow { difference: self.difference as int, direction: self.direction }
    }
}

impl OutOfBounds {
    /// How far off the board the piece lies; zero when it lies on it.
    pub fn get_difference(&self) -> (difference: isize)
        ensures
            difference == self@.difference,
    {
        self.difference
    }
}

/// How far and on which side the single point `p` lies off the board. The columns are
/// looked at before the rows, so a point off the board in both is reported by its column.
pub open spec fn excess(p: Point) -> Overflow {
    if p.col > 11 {
        Overflow { difference: p.col - 11, direction: MoveDirection::Right }
    } else if p.col < 0 {
        Overflow { difference: -p.col, direction: MoveDirection::Left }
    } else if p.row > 21 {
        Overflow { difference: p.row - 21, direction: MoveDirection::Down }
    } else if p.row < 0 {
        Overflow { difference: -p.row, direction: MoveDirection::Up }
    } else {
        Overflow { difference: 0, direction: MoveDirection::Nowhere }
    }
}

/// What the last of the first `n` points that lies off the board reports; no difference
/// and no direction when all of them lie on it.
pub open spec fn overflow_upto(points: Seq<Point>, n: int) -> Overflow
    decreases n,
{
    if n <= 0 {
        Overflow { difference: 0, direction: MoveDirection::Nowhere }
    } else if in_grid(points[n - 1]) {
        overflow_upto(points, n - 1)
    } else {
        excess(points[n - 1])
    }
}

/// What the last of the four points that lies off the board reports; no difference and no
/// direction when all four lie on it.
pub open spec fn overflow_of(points: Seq<Point>) -> Overflow {
    overflow_upto(points, 4)
}

/// The difference reported for four points is zero exactly when all of them lie on the
/// board, and positive otherwise.
pub proof fn lemma_overflow_tells_in_grid(points: Seq<Point>)
    ensures
        overflow_of(points).difference >= 0,
        overflow_of(points).difference == 0 <==> all_in_grid(points),
        overflow_of(points).direction is Nowhere <==> all_in_grid(points),
{
    reveal_with_fuel(overflow_upto, 5);
}

/// Four points within three rows and columns of a place on the board lie off the board by
/// three at most.
pub proof fn lemma_excess_is_small(points: Seq<Point>, anchor: Point)
    requires
        points.len() == 4,
        in_grid(anchor),
        forall|k: int|
            0 <= k < 4 ==> {
                let p = #[trigger] points[k];
                &&& anchor.row <= p.row <= anchor.row + 3
                &&& anchor.col <= p.col <= anchor.col + 3
            },
    ensures
        0 <= overflow_of(points).difference <= 3,
        overflow_of(points).direction is Right || overflow_of(points).direction is Down
            || overflow_of(points).direction is Nowhere,
{
    reveal_with_fuel(overflow_upto, 5);
    assert(points[0].row >= 0 && points[1].row >= 0 && points[2].row >= 0 && points[3].row >= 0);
}

/// Reports how far and on which side the piece lies off the board, going by the last of
/// its four places that does.
pub fn is_tetromino_positions_out_of_bounds(
    tetromino_positions: &Positions,
) -> (out_of_bounds: OutOfBounds)
    requires
        forall|i: int|
            0 <= i < 4 ==> excess(#[trigger] positions_view(*tetromino_positions)[i]).difference
                <= isize::MAX,
    ensures
        out_of_bounds@ == overflow_of(positions_view(*tetromino_positions)),
{
    let max_x: isize = (BOARD_WIDTH - 1) as isize;
    let min_x: isize = 0;
    let max_y: isize = (BOARD_HEIGHT - 1) as isize;
    let min_y: isize = 0;
    let mut out_of_bounds = OutOfBounds { difference: 0, direction: MoveDirection::Nowhere };
    let ghost points = positions_view(*tetromino_positions);
    let mut i: usize = 0;
    while i < TETROMINO_SIZE
        invariant
            i <= TETROMINO_SIZE,
            max_x == 11,
            min_x == 0,
            max_y == 21,
            min_y == 0,
            points == positions_view(*tetromino_positions),
            forall|k: int| 0 <= k < 4 ==> excess(#[trigger] points[k]).difference <= isize::MAX,
            out_of_bounds@ == overflow_upto(points, i as int),
        decreases TETROMINO_SIZE - i,
    {
        assert(points[i as int] == tetromino_positions[i as int]@);
        if tetromino_positions[i].x > max_x {
            out_of_bounds.difference = tetromino_positions[i].x - max_x;
            out_of_bounds.direction = MoveDirection::Right;
        } else if tetromino_positions[i].x < min_x {
            out_of_bounds.difference = min_x - tetromino_positions[i].x;
            out_of_bounds.direction = MoveDirection::Left;
        } else if tetromino_positions[i].y > max_y {
            out_of_bounds.difference = tetromino_positions[i].y - max_y;
            out_of_bounds.direction = MoveDirection::Down;
        } else if tetromino_positions[i].y < min_y {
            out_of_bounds.difference = min_y - tetromino_positions[i].y;
            out_of_bounds.direction = MoveDirection::Up;
        }
        i += 1;
    }
    out_of_bounds
}

/// The way back for a piece that lies off the board: one more than the difference, against
/// the direction, as rows down and columns to the right.
pub open spec fn way_back(overflow: Overflow) -> Point {
    match overflow.direction {
        MoveDirection::Up => Point { row: overflow.difference + 1, col: 0 },
        MoveDirection::Left => Point { row: 0, col: overflow.difference + 1 },
        MoveDirection::Right => Point { row: 0, col: -(overflow.difference + 1) },
        MoveDirection::Down => Point { row: -(overflow.difference + 1), col: 0 },
        MoveDirection::Nowhere => Point { row: 0, col: 0 },
    }
}

/// The four points moved the way back that `overflow` asks for.
pub open spec fn moved_back(overflow: Overflow, points: Seq<Point>) -> Seq<Point> {
    translated(points, way_back(overflow).row, way_back(overflow).col)
}

/// Moves all four places back towards the board: by one more than the reported difference,
/// against the reported direction.
pub fn move_tetromino_back_in_bounds(
    out_of_bounds: &OutOfBounds,
    tetromino_positions: &mut Positions,
)
    requires
        !(out_of_bounds.direction is Nowhere) ==> out_of_bounds.difference < isize::MAX,
        representable(moved_back(out_of_bounds@, positions_view(*old(tetromino_positions)))),
    ensures
        positions_view(*final(tetromino_positions)) == moved_back(
            out_of_bounds@,
            positions_view(*old(tetromino_positions)),
        ),
        forall|i: int|
            0 <= i < 4 ==> (#[trigger] final(tetromino_positions)[i]).y == old(
                tetromino_positions,
            )[i].y + way_back(out_of_bounds@).row && final(tetromino_positions)[i].x == old(
                tetromino_positions,
            )[i].x + way_back(out_of_bounds@).col,
{
    let ghost target = moved_back(out_of_bounds@, positions_view(*old(tetromino_positions)));
    let mut i: usize = 0;
    while i < TETROMINO_SIZE
        invariant
            i <= TETROMINO_SIZE,
            !(out_of_bounds.direction is Nowhere) ==> out_of_bounds.difference < isize::MAX,
            target == moved_back(out_of_bounds@, positions_view(*old(tetromino_positions))),
            representable(target),
            forall|k: int| 0 <= k < i ==> (#[trigger] tetromino_positions[k])@ == target[k],
            forall|k: int|
                i <= k < 4 ==> #[trigger] tetromino_positions[k] == old(tetromino_positions)[k],
        decreases TETROMINO_SIZE - i,
    {
        assert(target[i as int] == old(tetromino_positions)[i as int]@.shifted(
            way_back(out_of_bounds@).row,
            way_back(out_of_bounds@).col,
        ));
        match out_of_bounds.direction {
            MoveDirection::Up => {
                tetromino_positions[i].y += out_of_bounds.difference + 1;
            },
            MoveDirection::Left => {
                tetromino_positions[i].x += out_of_bounds.difference + 1;
            },
            MoveDirection::Right => {
                tetromino_positions[i].x -= out_of_bounds.difference + 1;
            },
            MoveDirection::Down => {
                tetromino_positions[i].y -= out_of_bounds.difference + 1;
            },
            _ => {},
        }
        i += 1;
    }
    assert(positions_view(*tetromino_positions) =~= target);
}

/// One of the first `n` of the four `points` lies on a block of `g`.
pub open spec fn overlaps_upto(points: Seq<Point>, g: Grid, n: int) -> bool {
    ||| n > 0 && g[points[0].row][points[0].col] == Cell::Block
    ||| n > 1 && g[points[1].row][points[1].col] == Cell::Block
    ||| n > 2 && g[points[2].row][points[2].col] == Cell::Block
    ||| n > 3 && g[points[3].row][points[3].col] == Cell::Block
}

/// One of the four `points` lies on a block of `g`.
pub open spec fn overlaps(points: Seq<Point>, g: Grid) -> bool {
    overlaps_upto(points, g, 4)
}

/// Tells whether one of the four places holds a block on the board.
pub fn is_tetromino_position_overlapping_with_block(
    tetromino_positions: &Positions,
    board: &Board,
) -> (overlapping: bool)
    requires
        all_in_grid(positions_view(*tetromino_positions)),
    ensures
        overlapping == overlaps(positions_view(*tetromino_positions), board_view(*board)),
{
    let ghost points = positions_view(*tetromino_positions);
    let ghost g = board_view(*board);
    let mut i: usize = 0;
    while i < TETROMINO_SIZE
        invariant
            i <= TETROMINO_SIZE,
            points == positions_view(*tetromino_positions),
            g == board_view(*board),
            all_in_grid(points),
            !overlaps_upto(points, g, i as int),
        decreases TETROMINO_SIZE - i,
    {
        assert(in_grid(points[i as int]));
        let ghost p = points[i as int];
        assert(g[p.row][p.col] == board[p.row][p.col]);
        if board[tetromino_positions[i].y as usize][tetromino_positions[i].x as usize]
            == Cell::Block {
            return true;
        }
        i += 1;
    }
    false
}

/// One of the first `n` of the four `points` lies in the top row or above it.
pub open spec fn reaches_top_upto(points: Seq<Point>, n: int) -> bool {
    ||| n > 0 && points[0].row <= 0
    ||| n > 1 && points[1].row <= 0
    ||| n > 2 && points[2].row <= 0
    ||| n > 3 && points[3].row <= 0
}

/// One of the four `points` lies in the top row or above it.
pub open spec fn reaches_top(points: Seq<Point>) -> bool {
    reaches_top_upto(points, 4)
}

/// Tells whether the piece, now at rest, reaches the top row: the well is full.
pub fn game_over(tetromino_positions: &Positions) -> (over: bool)
    ensures
        over == reaches_top(positions_view(*tetromino_positions)),
{
    let ghost points = positions_view(*tetromino_positions);
    let mut i: usize = 0;
    while i < TETROMINO_SIZE
        invariant
            i <= TETROMINO_SIZE,
            points == positions_view(*tetromino_positions),
            !reaches_top_upto(points, i as int),
        decreases TETROMINO_SIZE - i,
    {
        assert(points[i as int] == tetromino_positions[i as int]@);
        if tetromino_positions[i].y <= 0 {
            return true;
        }
        i += 1;
    }
    false
}

/// Every cell of row `row` between the walls is a block.
pub open spec fn row_full(g: Grid, row: int) -> bool {
    forall|col: int| 1 <= col < 11 ==> (#[trigger] g[row][col]) == Cell::Block
}

/// The lowest full row among the rows from 1 up to, not including, `end`; 0 when none of
/// them is full.
pub open spec fn lowest_full_row_upto(g: Grid, end: int) -> int
    decreases end,
{
    if end <= 1 {
        0
    } else if row_full(g, end - 1) {
        end - 1
    } else {
        lowest_full_row_upto(g, end - 1)
    }
}

/// The lowest full row of the well below its top row; 0 when there is none.
pub open spec fn lowest_full_row(g: Grid) -> int {
    lowest_full_row_upto(g, 21)
}

/// What `lowest_full_row_upto` finds is a full row with no full row below it, or 0 where no
/// row is full.
pub proof fn lemma_lowest_full_row_upto(g: Grid, end: int)
    requires
        end <= 21,
    ensures
        0 <= lowest_full_row_upto(g, end) < 21,
        lowest_full_row_upto(g, end) < end || end <= 0,
        lowest_full_row_upto(g, end) == 0 ==> forall|row: int| 1 <= row < end ==> !row_full(g, row),
        lowest_full_row_upto(g, end) != 0 ==> {
            let found = lowest_full_row_upto(g, end);
            &&& row_full(g, found)
            &&& forall|row: int| found < row < end ==> !row_full(g, row)
        },
    decreases end,
{
    if end > 1 && !row_full(g, end - 1) {
        lemma_lowest_full_row_upto(g, end - 1);
    }
}

/// Tells whether every cell of the row between the walls is a block.
pub fn is_row_full(board: &Board, row: usize) -> (full: bool)
    requires
        row < BOARD_HEIGHT,
    ensures
        full == row_full(board_view(*board), row as int),
{
    let ghost g = board_view(*board);
    let mut block_counter: usize = 0;
    let mut j: usize = 1;
    while j < BOARD_WIDTH - 1
        invariant
            1 <= j <= BOARD_WIDTH - 1,
            row < BOARD_HEIGHT,
            g == board_view(*board),
            block_counter <= j - 1,
            block_counter == j - 1 <==> forall|col: int|
                1 <= col < j ==> (#[trigger] g[row as int][col]) == Cell::Block,
        decreases BOARD_WIDTH - 1 - j,
    {
        assert(g[row as int][j as int] == board[row as int][j as int]);
        if board[row][j] == Cell::Block {
            block_counter += 1;
        }
        j += 1;
    }
    block_counter == 10
}

/// Finds the lowest full row of the well below its top row. The result is its index, or 0
/// when no row is full.
pub fn is_full_row(board: &Board) -> (row: usize)
    ensures
        row == lowest_full_row(board_view(*board)),
        row < BOARD_HEIGHT - 1,
        row == 0 ==> forall|other: int| 1 <= other < 21 ==> !row_full(board_view(*board), other),
        row != 0 ==> row_full(board_view(*board), row as int),
        forall|other: int| row < other < 21 ==> !row_full(board_view(*board), other),
{
    let mut column_with_full_row: usize = 0;
    let mut i: usize = 1;
    while i < BOARD_HEIGHT - 1
        invariant
            1 <= i <= BOARD_HEIGHT - 1,
            column_with_full_row == lowest_full_row_upto(board_view(*board), i as int),
        decreases BOARD_HEIGHT - 1 - i,
    {
        if is_row_full(board, i) {
            column_with_full_row = i;
        }
        i += 1;
    }
    proof {
        lemma_lowest_full_row_upto(board_view(*board), 21);
    }
    column_with_full_row
}

/// Finds the lowest full row of the well below its top row, if there is one.
pub fn find_full_row(board: &Board) -> (found: Option<usize>)
    ensures
        found is None <==> lowest_full_row(board_view(*board)) == 0,
        found matches Some(row) ==> row == lowest_full_row(board_view(*board)) && 1 <= row < 21,
{
    let row: usize = is_full_row(board);
    if row == 0 {
        None
    } else {
        Some(row)
    }
}

/// `g` after every row of the well from row 1 down to `row` took the cells of the row above
/// it. Walls, floor and the rows below `row` stay.
pub open spec fn collapsed(g: Grid, row: int) -> Grid {
    Seq::new(
        22,
        |r: int|
            Seq::new(
                12,
                |c: int|
                    if 1 <= r <= row && 1 <= c < 11 {
                        g[r - 1][c]
                    } else {
                        g[r][c]
                    },
            ),
    )
}

/// Removes row `column` from the well: every row from there up to row 1 takes the cells of
/// the row above it. Row 0 changes nothing. With the row of the floor, the floor itself
/// takes the cells of the row above it.
pub fn collapse_full_row(board: &mut Board, column: &usize)
    requires
        *column < BOARD_HEIGHT,
    ensures
        board_view(*final(board)) == collapsed(board_view(*old(board)), *column as int),
        forall|row: int, col: int|
            in_grid(Point { row, col }) ==> #[trigger] final(board)[row][col] == (if 1 <= row
                <= *column && 1 <= col < 11 {
                old(board)[row - 1][col]
            } else {
                old(board)[row][col]
            }),
        forall|row: int, col: int|
            on_border(Point { row, col }) && (row < 21 || *column < 21) ==> #[trigger] final(
                board
            )[row][col] == old(board)[row][col],
{
    let mut i: usize = *column;
    while i >= 1
        invariant
            i <= *column < BOARD_HEIGHT,
            forall|row: int, col: int|
                in_grid(Point { row, col }) ==> #[trigger] board[row][col] == (if i < row
                    <= *column && 1 <= col < 11 {
                    old(board)[row - 1][col]
                } else {
                    old(board)[row][col]
                }),
        decreases i,
    {
        let mut j: usize = 1;
        while j < BOARD_WIDTH - 1
            invariant
                1 <= i <= *column < BOARD_HEIGHT,
                1 <= j <= BOARD_WIDTH - 1,
                forall|row: int, col: int|
                    in_grid(Point { row, col }) ==> #[trigger] board[row][col] == (if (i < row
                        <= *column && 1 <= col < 11) || (row == i && 1 <= col < j) {
                        old(board)[row - 1][col]
                    } else {
                        old(board)[row][col]
                    }),
            decreases BOARD_WIDTH - 1 - j,
        {
            board[i][j] = board[i - 1][j];
            j += 1;
        }
        i -= 1;
    }
    assert(board_view(*board) =~~= collapsed(board_view(*old(board)), *column as int));
}

/// The number of full rows among the rows from 1 up to, not including, `end`.
pub open spec fn full_rows_upto(g: Grid, end: int) -> int
    decreases end,
{
    if end <= 1 {
        0
    } else {
        full_rows_upto(g, end - 1) + if row_full(g, end - 1) {
            1int
        } else {
            0int
        }
    }
}

/// The number of full rows of the well below its top row.
pub open spec fn full_row_count(g: Grid) -> int {
    full_rows_upto(g, 21)
}

/// The count of full rows is zero exactly when no row is full, and never above the number
/// of rows counted.
proof fn lemma_full_rows_bounds(g: Grid, end: int)
    ensures
        0 <= full_rows_upto(g, end),
        full_rows_upto(g, end) <= end - 1 || end <= 1,
        (forall|row: int| 1 <= row < end ==> !row_full(g, row)) ==> full_rows_upto(g, end) == 0,
        (exists|row: int| 1 <= row < end && row_full(g, row)) ==> full_rows_upto(g, end) > 0,
    decreases end,
{
    if end > 1 {
        lemma_full_rows_bounds(g, end - 1);
    }
}

/// After a removal, the rows down to the removed one are full where the row above was.
proof fn lemma_collapse_shifts_full_rows(g: Grid, row: int, end: int)
    requires
        is_board(g),
        1 <= row < 22,
        !row_full(g, 0),
        1 <= end <= row + 1,
    ensures
        full_rows_upto(collapsed(g, row), end) == full_rows_upto(g, end - 1),
    decreases end,
{
    if end > 1 {
        lemma_collapse_shifts_full_rows(g, row, end - 1);
        let after = collapsed(g, row);
        assert(row_full(after, end - 1) == row_full(g, end - 2)) by {
            assert forall|col: int| 1 <= col < 11 implies (#[trigger] after[end - 1][col]) == g[end
                - 2][col] by {}
            if row_full(g, end - 2) {
                assert forall|col: int| 1 <= col < 11 implies (#[trigger] after[end - 1][col])
                    == Cell::Block by {
                    assert(g[end - 2][col] == Cell::Block);
                }
            }
            if row_full(after, end - 1) {
                assert forall|col: int| 1 <= col < 11 implies (#[trigger] g[end - 2][col])
                    == Cell::Block by {
                    assert(after[end - 1][col] == Cell::Block);
                }
            }
        }
    }
}

/// A removal changes no row below the removed one.
proof fn lemma_collapse_keeps_lower_rows(g: Grid, row: int, end: int)
    requires
        is_board(g),
        1 <= row < 21,
        row + 1 <= end <= 21,
    ensures
        full_rows_upto(collapsed(g, row), end) - full_rows_upto(collapsed(g, row), row + 1)
            == full_rows_upto(g, end) - full_rows_upto(g, row + 1),
    decreases end,
{
    if end > row + 1 {
        lemma_collapse_keeps_lower_rows(g, row, end - 1);
        let after = collapsed(g, row);
        assert(row_full(after, end - 1) == row_full(g, end - 1)) by {
            assert forall|col: int| 1 <= col < 11 implies (#[trigger] after[end - 1][col]) == g[end
                - 1][col] by {}
            if row_full(g, end - 1) {
                assert forall|col: int| 1 <= col < 11 implies (#[trigger] after[end - 1][col])
                    == Cell::Block by {
                    assert(g[end - 1][col] == Cell::Block);
                }
            }
            if row_full(after, end - 1) {
                assert forall|col: int| 1 <= col < 11 implies (#[trigger] g[end - 1][col])
                    == Cell::Block by {
                    assert(after[end - 1][col] == Cell::Block);
                }
            }
        }
    }
}

/// Removing a full row leaves one full row fewer, as long as the top row of the well is not
/// full. So removing the lowest full row again and again comes to an end: after as many
/// steps as there were full rows.
pub proof fn lemma_collapse_removes_one_full_row(g: Grid, row: int)
    requires
        is_board(g),
        !row_full(g, 0),
        1 <= row < 21,
        row_full(g, row),
    ensures
        full_row_count(collapsed(g, row)) == full_row_count(g) - 1,
        full_row_count(g) > 0,
        !row_full(collapsed(g, row), 0),
{
    lemma_collapse_shifts_full_rows(g, row, row + 1);
    lemma_collapse_keeps_lower_rows(g, row, 21);
    lemma_full_rows_bounds(g, 21);
    let after = collapsed(g, row);
    assert(!row_full(after, 0)) by {
        if row_full(after, 0) {
            assert forall|col: int| 1 <= col < 11 implies (#[trigger] g[0][col]) == Cell::Block by {
                assert(after[0][col] == Cell::Block);
            }
        }
    }
}

/// A board without a full row counts no full row, and only such a board does.
pub proof fn lemma_no_full_row(g: Grid)
    ensures
        full_row_count(g) >= 0,
        lowest_full_row(g) == 0 <==> full_row_count(g) == 0,
{
    lemma_lowest_full_row_upto(g, 21);
    lemma_full_rows_bounds(g, 21);
}

/// Removing a row above the floor changes neither the walls nor the floor.
pub proof fn lemma_collapse_keeps_border(g: Grid, row: int)
    requires
        is_board(g),
        0 <= row < 21,
    ensures
        is_board(collapsed(g, row)),
        forall|r: int, c: int|
            on_border(Point { row: r, col: c }) ==> (#[trigger] collapsed(g, row)[r][c]) == g[r][c],
        has_border(g) ==> has_border(collapsed(g, row)),
{
    let after = collapsed(g, row);
    assert forall|r: int, c: int| on_border(Point { row: r, col: c }) implies (
    #[trigger] after[r][c]) == g[r][c] by {}
}

/// `g` after its lowest full row was removed, again and again, until no row was full or
/// `rounds` rows were removed.
pub open spec fn settled_in(g: Grid, rounds: nat) -> Grid
    decreases rounds,
{
    if rounds == 0 || lowest_full_row(g) == 0 {
        g
    } else {
        settled_in(collapsed(g, lowest_full_row(g)), (rounds - 1) as nat)
    }
}

/// `g` after its lowest full row was removed, again and again, until no row was full. The
/// well has twenty rows below its top row, so twenty rounds are enough.
pub open spec fn settled(g: Grid) -> Grid {
    settled_in(g, 20)
}

/// Removing the lowest full row again and again ends with a board that has no full row,
/// the same walls and floor and the same top row, as long as the top row of the well is
/// not full.
pub proof fn lemma_settled_has_no_full_row(g: Grid, rounds: nat)
    requires
        is_board(g),
        !row_full(g, 0),
        full_row_count(g) <= rounds,
    ensures
        is_board(settled_in(g, rounds)),
        lowest_full_row(settled_in(g, rounds)) == 0,
        full_row_count(settled_in(g, rounds)) == 0,
        settled_in(g, rounds)[0] == g[0],
        has_border(g) ==> has_border(settled_in(g, rounds)),
    decreases rounds,
{
    lemma_no_full_row(g);
    lemma_lowest_full_row_upto(g, 21);
    let row = lowest_full_row(g);
    if row != 0 {
        lemma_collapse_removes_one_full_row(g, row);
        lemma_collapse_keeps_border(g, row);
        let after = collapsed(g, row);
        assert(after[0] =~= g[0]);
        lemma_settled_has_no_full_row(after, (rounds - 1) as nat);
    }
}

/// A board has twenty full rows at most.
pub proof fn lemma_full_row_count_is_small(g: Grid)
    ensures
        0 <= full_row_count(g) <= 20,
{
    lemma_full_rows_bounds(g, 21);
}

} // verus!
