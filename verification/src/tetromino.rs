//! The catalog of shapes, and what can be done to a shape: turn it and move it within its
//! square.

use vstd::prelude::*;
use crate::cell::{Cell, Grid, Point, has_size};

verus! {

/// The number of rows and of columns of a shape, and the number of blocks of a piece.
pub const TETROMINO_SIZE: usize = 4;

/// The shape of a piece: a square of cells, four of which are blocks.
pub type Tetromino = [[Cell; TETROMINO_SIZE]; TETROMINO_SIZE];

/// The S shape, standing upright.
pub const SBAR1: Tetromino = [
    [Cell::Block, Cell::Empty, Cell::Empty, Cell::Empty],
    [Cell::Block, Cell::Block, Cell::Empty, Cell::Empty],
    [Cell::Empty, Cell::Block, Cell::Empty, Cell::Empty],
    [Cell::Empty, Cell::Empty, Cell::Empty, Cell::Empty],
];

/// The mirrored S shape, standing upright.
pub const SBAR2: Tetromino = [
    [Cell::Empty, Cell::Block, Cell::Empty, Cell::Empty],
    [Cell::Block, Cell::Block, Cell::Empty, Cell::Empty],
    [Cell::Block, Cell::Empty, Cell::Empty, Cell::Empty],
    [Cell::Empty, Cell::Empty, Cell::Empty, Cell::Empty],
];

/// The L shape.
pub const LBAR1: Tetromino = [
    [Cell::Block, Cell::Empty, Cell::Empty, Cell::Empty],
    [Cell::Block, Cell::Empty, Cell::Empty, Cell::Empty],
    [Cell::Block, Cell::Block, Cell::Empty, Cell::Empty],
    [Cell::Empty, Cell::Empty, Cell::Empty, Cell::Empty],
];

/// The mirrored L shape.
pub const LBAR2: Tetromino = [
    [Cell::Empty, Cell::Block, Cell::Empty, Cell::Empty],
    [Cell::Empty, Cell::Block, Cell::Empty, Cell::Empty],
    [Cell::Block, Cell::Block, Cell::Empty, Cell::Empty],
    [Cell::Empty, Cell::Empty, Cell::Empty, Cell::Empty],
];

/// The T shape, pointing down.
pub const TBAR: Tetromino = [
    [Cell::Block, Cell::Block, Cell::Block, Cell::Empty],
    [Cell::Empty, Cell::Block, Cell::Empty, Cell::Empty],
    [Cell::Empty, Cell::Empty, Cell::Empty, Cell::Empty],
    [Cell::Empty, Cell::Empty, Cell::Empty, Cell::Empty],
];

/// The line, lying flat.
pub const LINE: Tetromino = [
    [Cell::Block, Cell::Block, Cell::Block, Cell::Block],
    [Cell::Empty, Cell::Empty, Cell::Empty, Cell::Empty],
    [Cell::Empty, Cell::Empty, Cell::Empty, Cell::Empty],
    [Cell::Empty, Cell::Empty, Cell::Empty, Cell::Empty],
];

/// The square, one column off the left edge of its shape.
pub const SQUARE: Tetromino = [
    [Cell::Empty, Cell::Block, Cell::Block, Cell::Empty],
    [Cell::Empty, Cell::Block, Cell::Block, Cell::Empty],
    [Cell::Empty, Cell::Empty, Cell::Empty, Cell::Empty],
    [Cell::Empty, Cell::Empty, Cell::Empty, Cell::Empty],
];

/// The number of shapes in the catalog.
pub const CATALOG_SIZE: usize = 7;

/// The grid that a shape stands for.
pub open spec fn shape_view(t: Tetromino) -> Grid {
    Seq::new(4, |row: int| Seq::new(4, |col: int| t[row][col]))
}

/// `g` has the size of a shape.
pub open spec fn is_shape(g: Grid) -> bool {
    has_size(g, 4, 4)
}

/// The shape at place `index` of the catalog.
pub open spec fn catalog(index: int) -> Tetromino {
    if index == 0 {
        SBAR1
    } else if index == 1 {
        SBAR2
    } else if index == 2 {
        LBAR1
    } else if index == 3 {
        LBAR2
    } else if index == 4 {
        TBAR
    } else if index == 5 {
        LINE
    } else {
        SQUARE
    }
}

/// The catalog index chosen from a clock reading in seconds and a process identifier.
/// Neighbouring seconds give neighbouring indices: the choice is neither uniform nor hard
/// to predict.
pub open spec fn chosen_index(seconds: int, process_id: int) -> int {
    (seconds + process_id % 7) % 7
}

/// The offsets of the blocks among the first `n` cells of `g`, counted row by row.
pub open spec fn block_offsets_upto(g: Grid, n: int) -> Seq<Point>
    decreases n,
{
    if n <= 0 {
        Seq::empty()
    } else {
        let before = block_offsets_upto(g, n - 1);
        let row = (n - 1) / 4;
        let col = (n - 1) % 4;
        if g[row][col] == Cell::Block {
            before.push(Point { row, col })
        } else {
            before
        }
    }
}

/// The offsets of all blocks of a shape, row by row from the top, each row from the left.
pub open spec fn block_offsets(g: Grid) -> Seq<Point> {
    block_offsets_upto(g, 16)
}

/// A shape is a tetromino when exactly four of its cells are blocks.
pub open spec fn is_tetromino(g: Grid) -> bool {
    block_offsets(g).len() == 4
}

/// `g` turned by a quarter: the cell at (row, col) comes from (col, 3 - row).
pub open spec fn rotated(g: Grid) -> Grid {
    Seq::new(4, |row: int| Seq::new(4, |col: int| g[col][3 - row]))
}

/// `g` moved up by `rows` and left by `cols`; what moves in from outside is empty.
pub open spec fn slid(g: Grid, rows: int, cols: int) -> Grid {
    Seq::new(
        4,
        |row: int|
            Seq::new(
                4,
                |col: int|
                    if row + rows < 4 && col + cols < 4 {
                        g[row + rows][col + cols]
                    } else {
                        Cell::Empty
                    },
            ),
    )
}

/// No cell of row `row` is a block.
pub open spec fn row_is_empty(g: Grid, row: int) -> bool {
    &&& g[row][0] == Cell::Empty
    &&& g[row][1] == Cell::Empty
    &&& g[row][2] == Cell::Empty
    &&& g[row][3] == Cell::Empty
}

/// No cell of column `col` is a block.
pub open spec fn column_is_empty(g: Grid, col: int) -> bool {
    &&& g[0][col] == Cell::Empty
    &&& g[1][col] == Cell::Empty
    &&& g[2][col] == Cell::Empty
    &&& g[3][col] == Cell::Empty
}

/// The number of empty rows above the first row that holds a block.
pub open spec fn top_margin(g: Grid) -> int {
    if !row_is_empty(g, 0) {
        0
    } else if !row_is_empty(g, 1) {
        1
    } else if !row_is_empty(g, 2) {
        2
    } else if !row_is_empty(g, 3) {
        3
    } else {
        4
    }
}

/// The number of empty columns left of the first column that holds a block.
pub open spec fn left_margin(g: Grid) -> int {
    if !column_is_empty(g, 0) {
        0
    } else if !column_is_empty(g, 1) {
        1
    } else if !column_is_empty(g, 2) {
        2
    } else if !column_is_empty(g, 3) {
        3
    } else {
        4
    }
}

/// `g` moved into its top left corner: up past its empty rows and left past its empty
/// columns.
pub open spec fn packed(g: Grid) -> Grid {
    slid(g, top_margin(g), left_margin(g))
}

/// One for a block, nothing for an empty cell.
pub open spec fn weight(cell: Cell) -> int {
    if cell == Cell::Block {
        1
    } else {
        0
    }
}

/// The number of blocks in row `row` of a shape.
pub open spec fn row_weight(g: Grid, row: int) -> int {
    weight(g[row][0]) + weight(g[row][1]) + weight(g[row][2]) + weight(g[row][3])
}

/// The number of blocks of a shape.
pub open spec fn block_count(g: Grid) -> int {
    row_weight(g, 0) + row_weight(g, 1) + row_weight(g, 2) + row_weight(g, 3)
}

/// The number of blocks among the first `n` cells of `g`, counted row by row.
spec fn block_count_upto(g: Grid, n: int) -> int
    decreases n,
{
    if n <= 0 {
        0
    } else {
        block_count_upto(g, n - 1) + weight(g[(n - 1) / 4][(n - 1) % 4])
    }
}

/// Picks the catalog index for a clock reading and a process identifier.
pub fn generate_random_number(seconds: u64, process_id: u32) -> (index: usize)
    ensures
        index == chosen_index(seconds as int, process_id as int),
        index < CATALOG_SIZE,
{
    let offset: u64 = (process_id % 7) as u64;
    let index: u64 = (seconds % 7 + offset) % 7;
    index as usize
}

/// Picks a shape of the catalog from a clock reading in seconds and a process identifier.
/// The pick is cheap, not fair: it follows the clock, so it is neither uniform nor hard to
/// predict.
pub fn get_random_tetromino(seconds: u64, process_id: u32) -> (tetromino: Tetromino)
    ensures
        tetromino == catalog(chosen_index(seconds as int, process_id as int)),
{
    let tetrominos: [Tetromino; 7] = [SBAR1, SBAR2, LBAR1, LBAR2, TBAR, LINE, SQUARE];
    let index: usize = generate_random_number(seconds, process_id);
    tetrominos[index]
}

/// Turns the shape by a quarter.
pub fn rotate_tetromino(tetromino: &mut Tetromino)
    ensures
        shape_view(*final(tetromino)) == rotated(shape_view(*old(tetromino))),
        forall|row: int, col: int|
            0 <= row < 4 && 0 <= col < 4 ==> #[trigger] final(tetromino)[row][col] == old(
                tetromino,
            )[col][3 - row],
{
    let tetromino_copy: Tetromino = *tetromino;
    let mut y: usize = 0;
    while y < TETROMINO_SIZE
        invariant
            y <= TETROMINO_SIZE,
            tetromino_copy == *old(tetromino),
            forall|row: int, col: int|
                0 <= row < y && 0 <= col < 4 ==> #[trigger] tetromino[row][col]
                    == tetromino_copy[col][3 - row],
        decreases TETROMINO_SIZE - y,
    {
        let i: usize = TETROMINO_SIZE - 1 - y;
        let mut x: usize = 0;
        while x < TETROMINO_SIZE
            invariant
                y < TETROMINO_SIZE,
                i == 3 - y,
                x <= TETROMINO_SIZE,
                forall|row: int, col: int|
                    0 <= row < y && 0 <= col < 4 ==> #[trigger] tetromino[row][col]
                        == tetromino_copy[col][3 - row],
                forall|col: int|
                    0 <= col < x ==> #[trigger] tetromino[y as int][col] == tetromino_copy[col][3
                        - y],
            decreases TETROMINO_SIZE - x,
        {
            tetromino[y][x] = tetromino_copy[x][i];
            x += 1;
        }
        y += 1;
    }
    assert(shape_view(*tetromino) =~~= rotated(shape_view(*old(tetromino))));
}

/// Tells whether the top row of the shape holds no block.
pub fn is_top_of_tetromino_empty(tetromino: &Tetromino) -> (empty: bool)
    ensures
        empty == row_is_empty(shape_view(*tetromino), 0),
{
    let mut empty_counter: usize = 0;
    let mut j: usize = 0;
    while j < TETROMINO_SIZE
        invariant
            j <= TETROMINO_SIZE,
            empty_counter <= j,
            empty_counter == j <==> forall|col: int|
                0 <= col < j ==> (#[trigger] tetromino[0][col]) == Cell::Empty,
        decreases TETROMINO_SIZE - j,
    {
        if tetromino[0][j] == Cell::Empty {
            empty_counter += 1;
        }
        j += 1;
    }
    proof {
        let g = shape_view(*tetromino);
        assert(g[0][0] == tetromino[0][0] && g[0][1] == tetromino[0][1]);
        assert(g[0][2] == tetromino[0][2] && g[0][3] == tetromino[0][3]);
    }
    empty_counter == 4
}

/// Moves every row of the shape up by one. The top row is lost and the bottom row becomes
/// empty.
pub fn move_tetromino_up_by_one(tetromino: &mut Tetromino)
    ensures
        shape_view(*final(tetromino)) == slid(shape_view(*old(tetromino)), 1, 0),
        forall|row: int, col: int|
            0 <= row < 4 && 0 <= col < 4 ==> #[trigger] final(tetromino)[row][col] == (if row < 3 {
                old(tetromino)[row + 1][col]
            } else {
                Cell::Empty
            }),
{
    let mut i: usize = 0;
    while i < TETROMINO_SIZE - 1
        invariant
            i <= TETROMINO_SIZE - 1,
            forall|row: int, col: int|
                0 <= row < i && 0 <= col < 4 ==> #[trigger] tetromino[row][col] == old(
                    tetromino,
                )[row + 1][col],
            forall|row: int, col: int|
                i <= row < 4 && 0 <= col < 4 ==> #[trigger] tetromino[row][col] == old(
                    tetromino,
                )[row][col],
        decreases TETROMINO_SIZE - 1 - i,
    {
        let mut j: usize = 0;
        while j < TETROMINO_SIZE
            invariant
                i < TETROMINO_SIZE - 1,
                j <= TETROMINO_SIZE,
                forall|row: int, col: int|
                    0 <= row < i && 0 <= col < 4 ==> #[trigger] tetromino[row][col] == old(
                        tetromino,
                    )[row + 1][col],
                forall|col: int|
                    0 <= col < j ==> #[trigger] tetromino[i as int][col] == old(tetromino)[i
                        + 1][col],
                forall|col: int|
                    j <= col < 4 ==> #[trigger] tetromino[i as int][col] == old(tetromino)[i as int][
                        col
                    ],
                forall|row: int, col: int|
                    i < row < 4 && 0 <= col < 4 ==> #[trigger] tetromino[row][col] == old(
                        tetromino,
                    )[row][col],
            decreases TETROMINO_SIZE - j,
        {
            tetromino[i][j] = tetromino[i + 1][j];
            j += 1;
        }
        i += 1;
    }
    let mut j: usize = 0;
    while j < TETROMINO_SIZE
        invariant
            j <= TETROMINO_SIZE,
            forall|row: int, col: int|
                0 <= row < 3 && 0 <= col < 4 ==> #[trigger] tetromino[row][col] == old(
                    tetromino,
                )[row + 1][col],
            forall|col: int| 0 <= col < j ==> (#[trigger] tetromino[3][col]) == Cell::Empty,
        decreases TETROMINO_SIZE - j,
    {
        tetromino[3][j] = Cell::Empty;
        j += 1;
    }
    assert(shape_view(*tetromino) =~~= slid(shape_view(*old(tetromino)), 1, 0));
}

/// Tells whether the left column of the shape holds no block.
pub fn is_left_of_tetromino_empty(tetromino: &Tetromino) -> (empty: bool)
    ensures
        empty == column_is_empty(shape_view(*tetromino), 0),
{
    let mut empty_counter: usize = 0;
    let mut i: usize = 0;
    while i < TETROMINO_SIZE
        invariant
            i <= TETROMINO_SIZE,
            empty_counter <= i,
            empty_counter == i <==> forall|row: int|
                0 <= row < i ==> (#[trigger] tetromino[row][0]) == Cell::Empty,
        decreases TETROMINO_SIZE - i,
    {
        if tetromino[i][0] == Cell::Empty {
            empty_counter += 1;
        }
        i += 1;
    }
    proof {
        let g = shape_view(*tetromino);
        assert(g[0][0] == tetromino[0][0] && g[1][0] == tetromino[1][0]);
        assert(g[2][0] == tetromino[2][0] && g[3][0] == tetromino[3][0]);
    }
    empty_counter == 4
}

/// Moves every column of the shape left by one. The left column is lost and the right
/// column becomes empty.
pub fn move_tetromino_left_by_one(tetromino: &mut Tetromino)
    ensures
        shape_view(*final(tetromino)) == slid(shape_view(*old(tetromino)), 0, 1),
        forall|row: int, col: int|
            0 <= row < 4 && 0 <= col < 4 ==> #[trigger] final(tetromino)[row][col] == (if col < 3 {
                old(tetromino)[row][col + 1]
            } else {
                Cell::Empty
            }),
{
    let mut i: usize = 0;
    while i < TETROMINO_SIZE - 1
        invariant
            i <= TETROMINO_SIZE - 1,
            forall|row: int, col: int|
                0 <= row < 4 && 0 <= col < i ==> #[trigger] tetromino[row][col] == old(
                    tetromino,
                )[row][col + 1],
            forall|row: int, col: int|
                0 <= row < 4 && i <= col < 4 ==> #[trigger] tetromino[row][col] == old(
                    tetromino,
                )[row][col],
        decreases TETROMINO_SIZE - 1 - i,
    {
        let mut j: usize = 0;
        while j < TETROMINO_SIZE
            invariant
                i < TETROMINO_SIZE - 1,
                j <= TETROMINO_SIZE,
                forall|row: int, col: int|
                    0 <= row < 4 && 0 <= col < i ==> #[trigger] tetromino[row][col] == old(
                        tetromino,
                    )[row][col + 1],
                forall|row: int|
                    0 <= row < j ==> #[trigger] tetromino[row][i as int] == old(tetromino)[row][i
                        + 1],
                forall|row: int|
                    j <= row < 4 ==> #[trigger] tetromino[row][i as int] == old(tetromino)[row][
                        i as int
                    ],
                forall|row: int, col: int|
                    0 <= row < 4 && i < col < 4 ==> #[trigger] tetromino[row][col] == old(
                        tetromino,
                    )[row][col],
            decreases TETROMINO_SIZE - j,
        {
            tetromino[j][i] = tetromino[j][i + 1];
            j += 1;
        }
        i += 1;
    }
    let mut j: usize = 0;
    while j < TETROMINO_SIZE
        invariant
            j <= TETROMINO_SIZE,
            forall|row: int, col: int|
                0 <= row < 4 && 0 <= col < 3 ==> #[trigger] tetromino[row][col] == old(
                    tetromino,
                )[row][col + 1],
            forall|row: int| 0 <= row < j ==> (#[trigger] tetromino[row][3]) == Cell::Empty,
        decreases TETROMINO_SIZE - j,
    {
        tetromino[j][3] = Cell::Empty;
        j += 1;
    }
    assert(shape_view(*tetromino) =~~= slid(shape_view(*old(tetromino)), 0, 1));
}

/// Moves the shape into its top left corner: up until its top row holds a block, then left
/// until its left column holds one.
pub fn move_tetromino_to_corner(tetromino: &mut Tetromino)
    requires
        is_tetromino(shape_view(*old(tetromino))),
    ensures
        shape_view(*final(tetromino)) == packed(shape_view(*old(tetromino))),
        is_tetromino(shape_view(*final(tetromino))),
        !row_is_empty(shape_view(*final(tetromino)), 0),
        !column_is_empty(shape_view(*final(tetromino)), 0),
{
    let ghost start = shape_view(*tetromino);
    let ghost mut rows: int = 0;
    assert(start =~~= slid(start, 0, 0));
    while is_top_of_tetromino_empty(tetromino)
        invariant
            0 <= rows <= 3,
            start == shape_view(*old(tetromino)),
            shape_view(*tetromino) == slid(start, rows, 0),
            is_tetromino(shape_view(*tetromino)),
            rows > 0 ==> row_is_empty(start, 0),
            rows > 1 ==> row_is_empty(start, 1),
            rows > 2 ==> row_is_empty(start, 2),
        decreases 3 - rows,
    {
        proof {
            let current = shape_view(*tetromino);
            lemma_slide_keeps_block_count(current);
            lemma_slide_twice(start, rows, 0, 1, 0);
            lemma_block_offsets_len(current);
            assert(row_is_empty(start, rows));
            if rows == 3 {
                assert(block_count(current) == 0);
            }
        }
        move_tetromino_up_by_one(tetromino);
        proof {
            rows = rows + 1;
        }
    }
    let ghost lifted = shape_view(*tetromino);
    assert(!row_is_empty(start, rows));
    assert(rows == top_margin(start));
    let ghost mut cols: int = 0;
    assert(lifted =~~= slid(lifted, 0, 0));
    while is_left_of_tetromino_empty(tetromino)
        invariant
            0 <= cols <= 3,
            0 <= rows <= 3,
            lifted == slid(start, rows, 0),
            shape_view(*tetromino) == slid(lifted, 0, cols),
            is_tetromino(shape_view(*tetromino)),
            !row_is_empty(lifted, 0),
            cols > 0 ==> column_is_empty(lifted, 0),
            cols > 1 ==> column_is_empty(lifted, 1),
            cols > 2 ==> column_is_empty(lifted, 2),
        decreases 3 - cols,
    {
        proof {
            let current = shape_view(*tetromino);
            lemma_slide_keeps_block_count(current);
            lemma_slide_twice(lifted, 0, cols, 0, 1);
            lemma_block_offsets_len(current);
            assert(column_is_empty(lifted, cols));
            if cols == 3 {
                assert(block_count(current) == 0);
            }
        }
        move_tetromino_left_by_one(tetromino);
        proof {
            cols = cols + 1;
        }
    }
    proof {
        assert(!column_is_empty(lifted, cols));
        assert(cols == left_margin(lifted));
        assert(left_margin(lifted) == left_margin(start));
        lemma_slide_twice(start, rows, 0, 0, cols);
        let current = shape_view(*tetromino);
        assert(!row_is_empty(current, 0));
    }
}

/// Tells whether two shapes hold the same cells.
pub fn is_same_tetromino(first: &Tetromino, second: &Tetromino) -> (same: bool)
    ensures
        same == (shape_view(*first) == shape_view(*second)),
{
    let mut i: usize = 0;
    while i < TETROMINO_SIZE
        invariant
            i <= TETROMINO_SIZE,
            forall|row: int, col: int|
                0 <= row < i && 0 <= col < 4 ==> #[trigger] first[row][col] == second[row][col],
        decreases TETROMINO_SIZE - i,
    {
        let mut j: usize = 0;
        while j < TETROMINO_SIZE
            invariant
                i < TETROMINO_SIZE,
                j <= TETROMINO_SIZE,
                forall|row: int, col: int|
                    0 <= row < i && 0 <= col < 4 ==> #[trigger] first[row][col] == second[row][col],
                forall|col: int|
                    0 <= col < j ==> #[trigger] first[i as int][col] == second[i as int][col],
            decreases TETROMINO_SIZE - j,
        {
            if first[i][j] != second[i][j] {
                proof {
                    let a = shape_view(*first);
                    let b = shape_view(*second);
                    assert(a[i as int][j as int] == first[i as int][j as int]);
                    assert(b[i as int][j as int] == second[i as int][j as int]);
                }
                return false;
            }
            j += 1;
        }
        i += 1;
    }
    assert(shape_view(*first) =~~= shape_view(*second));
    true
}

/// Four quarter turns give every shape back.
pub proof fn lemma_four_rotations_restore(g: Grid)
    requires
        is_shape(g),
    ensures
        rotated(rotated(rotated(rotated(g)))) == g,
{
    assert(rotated(rotated(rotated(rotated(g)))) =~~= g);
}

/// Counting further cells only appends to the offsets found so far.
pub proof fn lemma_block_offsets_grow(g: Grid, m: int, n: int)
    requires
        m <= n,
    ensures
        block_offsets_upto(g, m).len() <= block_offsets_upto(g, n).len(),
        forall|k: int|
            0 <= k < block_offsets_upto(g, m).len() ==> #[trigger] block_offsets_upto(g, n)[k]
                == block_offsets_upto(g, m)[k],
    decreases n - m,
{
    if m < n {
        lemma_block_offsets_grow(g, m, n - 1);
    }
}

/// Every block offset lies within the shape and names a block of it.
pub proof fn lemma_block_offsets_name_blocks(g: Grid, n: int)
    requires
        n <= 16,
    ensures
        forall|k: int|
            0 <= k < block_offsets_upto(g, n).len() ==> {
                let offset = #[trigger] block_offsets_upto(g, n)[k];
                &&& 0 <= offset.row < 4
                &&& 0 <= offset.col < 4
                &&& g[offset.row][offset.col] == Cell::Block
            },
    decreases n,
{
    if n > 0 {
        lemma_block_offsets_name_blocks(g, n - 1);
    }
}

/// Moving a shape twice moves it by the sum of the two ways.
pub proof fn lemma_slide_twice(g: Grid, rows: int, cols: int, more_rows: int, more_cols: int)
    requires
        rows >= 0,
        cols >= 0,
        more_rows >= 0,
        more_cols >= 0,
    ensures
        slid(slid(g, rows, cols), more_rows, more_cols) == slid(
            g,
            rows + more_rows,
            cols + more_cols,
        ),
{
    assert(slid(slid(g, rows, cols), more_rows, more_cols) =~~= slid(
        g,
        rows + more_rows,
        cols + more_cols,
    ));
}

/// The offsets found among the first `n` cells are as many as the blocks among them.
proof fn lemma_offsets_are_counted(g: Grid, n: int)
    ensures
        block_offsets_upto(g, n).len() == block_count_upto(g, n),
    decreases n,
{
    if n > 0 {
        lemma_offsets_are_counted(g, n - 1);
    }
}

/// A shape has as many block offsets as it has blocks.
pub proof fn lemma_block_offsets_len(g: Grid)
    ensures
        block_offsets(g).len() == block_count(g),
{
    lemma_offsets_are_counted(g, 16);
    assert(block_count_upto(g, 4) == row_weight(g, 0)) by {
        reveal_with_fuel(block_count_upto, 5);
    }
    assert(block_count_upto(g, 8) == block_count_upto(g, 4) + row_weight(g, 1)) by {
        reveal_with_fuel(block_count_upto, 5);
    }
    assert(block_count_upto(g, 12) == block_count_upto(g, 8) + row_weight(g, 2)) by {
        reveal_with_fuel(block_count_upto, 5);
    }
    assert(block_count_upto(g, 16) == block_count_upto(g, 12) + row_weight(g, 3)) by {
        reveal_with_fuel(block_count_upto, 5);
    }
}

/// A quarter turn moves the blocks of a shape and neither adds nor removes one.
pub proof fn lemma_rotation_keeps_block_count(g: Grid)
    ensures
        block_count(rotated(g)) == block_count(g),
        is_tetromino(g) ==> is_tetromino(rotated(g)),
{
    lemma_block_offsets_len(g);
    lemma_block_offsets_len(rotated(g));
}

/// Moving a shape up past an empty top row, or left past an empty left column, keeps its
/// blocks.
pub proof fn lemma_slide_keeps_block_count(g: Grid)
    ensures
        row_is_empty(g, 0) ==> block_count(slid(g, 1, 0)) == block_count(g),
        column_is_empty(g, 0) ==> block_count(slid(g, 0, 1)) == block_count(g),
        row_is_empty(g, 0) && is_tetromino(g) ==> is_tetromino(slid(g, 1, 0)),
        column_is_empty(g, 0) && is_tetromino(g) ==> is_tetromino(slid(g, 0, 1)),
{
    lemma_block_offsets_len(g);
    lemma_block_offsets_len(slid(g, 1, 0));
    lemma_block_offsets_len(slid(g, 0, 1));
}

/// Every shape of the catalog is a tetromino.
pub proof fn lemma_catalog_holds_tetrominoes(index: int)
    ensures
        is_tetromino(shape_view(catalog(index))),
{
    reveal_with_fuel(block_offsets_upto, 17);
}

/// The first block of a shape whose top row holds a block lies in that row.
pub proof fn lemma_first_offset_in_top_row(g: Grid)
    requires
        !row_is_empty(g, 0),
    ensures
        block_offsets(g).len() > 0,
        block_offsets(g)[0].row == 0,
{
    lemma_block_offsets_grow(g, 4, 16);
    assert(block_offsets_upto(g, 4).len() > 0 && block_offsets_upto(g, 4)[0].row == 0) by {
        reveal_with_fuel(block_offsets_upto, 5);
    }
}

/// Every shape of the catalog holds a block in its top row.
pub proof fn lemma_catalog_fills_top_row(index: int)
    ensures
        !row_is_empty(shape_view(catalog(index)), 0),
{
    let g = shape_view(catalog(index));
    assert(g[0][0] == catalog(index)[0][0]);
    assert(g[0][1] == catalog(index)[0][1]);
}

/// Moving a tetromino into its corner keeps it a tetromino.
pub proof fn lemma_packing_keeps_tetromino(g: Grid)
    requires
        is_tetromino(g),
    ensures
        is_tetromino(packed(g)),
        !row_is_empty(packed(g), 0),
        !column_is_empty(packed(g), 0),
{
    lemma_block_offsets_len(g);
    lemma_block_offsets_len(packed(g));
}

} // verus!
