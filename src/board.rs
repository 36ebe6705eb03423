use vstd::prelude::*;
use crate::game::{Player, Tile};

verus! {

/// Number of columns of the grid.
pub const BOARD_WIDTH: usize = 7;

/// Number of rows of the grid.
pub const BOARD_HEIGHT: usize = 6;

/// Number of cells of the grid.
pub const BOARD_SIZE: usize = BOARD_WIDTH * BOARD_HEIGHT;

/// The grid, row by row from the bottom: the cell at `row` and `column`
/// is stored at `row * BOARD_WIDTH + column`.
pub type Board = [Tile; BOARD_SIZE];

/// Whether `(row, column)` names a cell of the grid.
pub open spec fn in_bounds(row: int, column: int) -> bool {
    0 <= row < BOARD_HEIGHT && 0 <= column < BOARD_WIDTH
}

/// The flat index of the cell at `(row, column)`.
pub open spec fn cell(row: int, column: int) -> int {
    row * BOARD_WIDTH + column
}

/// The tile at `(row, column)`, and `Empty` off the grid.
pub open spec fn tile_at(b: Seq<Tile>, row: int, column: int) -> Tile {
    if in_bounds(row, column) {
        b[cell(row, column)]
    } else {
        Tile::Empty
    }
}

/// The lowest row at or above `row` whose cell in `column` is empty,
/// or `BOARD_HEIGHT` when there is none.
pub open spec fn first_empty_from(b: Seq<Tile>, column: int, row: int) -> int
    decreases BOARD_HEIGHT - row,
{
    if row >= BOARD_HEIGHT {
        BOARD_HEIGHT as int
    } else if b[cell(row, column)] is Empty {
        row
    } else {
        first_empty_from(b, column, row + 1)
    }
}

/// The row that a tile dropped into `column` comes to rest in.
pub open spec fn landing_row(b: Seq<Tile>, column: int) -> int {
    first_empty_from(b, column, 0)
}

/// Every cell of `column` is occupied.
pub open spec fn column_full(b: Seq<Tile>, column: int) -> bool {
    forall|row: int| 0 <= row < BOARD_HEIGHT ==> (#[trigger] b[cell(row, column)]) is Full
}

/// Every column is full.
pub open spec fn board_full(b: Seq<Tile>) -> bool {
    forall|column: int| 0 <= column < BOARD_WIDTH ==> #[trigger] column_full(b, column)
}

/// The board after `p` drops a tile into `column`: the lowest empty cell
/// of the column becomes `p`'s, and a full column leaves the board as it was.
pub open spec fn placed(b: Seq<Tile>, column: int, p: Player) -> Seq<Tile> {
    let row = landing_row(b, column);
    if row < BOARD_HEIGHT {
        b.update(cell(row, column), Tile::Full(p))
    } else {
        b
    }
}

/// No tile floats: below an occupied cell, every cell of its column is occupied.
pub open spec fn gravity(b: Seq<Tile>) -> bool {
    forall|r1: int, r2: int, column: int|
        #![trigger b[cell(r1, column)], b[cell(r2, column)]]
        0 <= r1 < r2 < BOARD_HEIGHT && 0 <= column < BOARD_WIDTH && b[cell(r2, column)] is Full
            ==> b[cell(r1, column)] is Full
}

/// Four cells from `(row, column)`, each one step of `(dr, dc)` from the
/// last, lie on the grid and hold `p`'s tiles.
pub open spec fn line_of_four(b: Seq<Tile>, p: Player, row: int, column: int, dr: int, dc: int) -> bool {
    &&& tile_at(b, row, column) == Tile::Full(p)
    &&& tile_at(b, row + dr, column + dc) == Tile::Full(p)
    &&& tile_at(b, row + 2 * dr, column + 2 * dc) == Tile::Full(p)
    &&& tile_at(b, row + 3 * dr, column + 3 * dc) == Tile::Full(p)
}

/// `p` has four in a row somewhere along the direction `(dr, dc)`.
pub open spec fn has_line(b: Seq<Tile>, p: Player, dr: int, dc: int) -> bool {
    exists|row: int, column: int| #[trigger] line_of_four(b, p, row, column, dr, dc)
}

/// `p` has four in a row horizontally, vertically or along either diagonal.
pub open spec fn has_win(b: Seq<Tile>, p: Player) -> bool {
    ||| has_line(b, p, 0, 1)
    ||| has_line(b, p, 1, 0)
    ||| has_line(b, p, 1, 1)
    ||| has_line(b, p, 1, -1)
}

/// The tile at `row` and `column`; `Empty` for a coordinate off the grid.
pub fn get(board: &Board, row: usize, column: usize) -> (t: Tile)
    ensures
        t == tile_at(board@, row as int, column as int),
{
    if row < BOARD_HEIGHT && column < BOARD_WIDTH {
        board[row * BOARD_WIDTH + column]
    } else {
        Tile::Empty
    }
}

/// Distinct cells of the grid have distinct flat indices, all below `BOARD_SIZE`.
pub proof fn lemma_cell(r1: int, c1: int, r2: int, c2: int)
    requires
        in_bounds(r1, c1),
        in_bounds(r2, c2),
    ensures
        0 <= cell(r1, c1) < BOARD_SIZE,
        cell(r1, c1) == cell(r2, c2) ==> r1 == r2 && c1 == c2,
{
}

/// The search for the lowest empty cell passes only occupied cells, and
/// stops at an empty one unless it runs off the top.
pub proof fn lemma_first_empty(b: Seq<Tile>, column: int, row: int)
    requires
        b.len() == BOARD_SIZE,
        0 <= column < BOARD_WIDTH,
        0 <= row <= BOARD_HEIGHT,
    ensures
        row <= first_empty_from(b, column, row) <= BOARD_HEIGHT,
        forall|r: int| row <= r < first_empty_from(b, column, row) ==> (#[trigger] b[cell(r, column)]) is Full,
        first_empty_from(b, column, row) < BOARD_HEIGHT ==> b[cell(first_empty_from(b, column, row), column)] is Empty,
    decreases BOARD_HEIGHT - row,
{
    if row < BOARD_HEIGHT && b[cell(row, column)] is Full {
        lemma_first_empty(b, column, row + 1);
    }
}

/// A column that is not full has its landing row on the grid.
pub proof fn lemma_landing_row(b: Seq<Tile>, column: int)
    requires
        b.len() == BOARD_SIZE,
        0 <= column < BOARD_WIDTH,
        !column_full(b, column),
    ensures
        0 <= landing_row(b, column) < BOARD_HEIGHT,
        b[cell(landing_row(b, column), column)] is Empty,
        forall|r: int| 0 <= r < landing_row(b, column) ==> (#[trigger] b[cell(r, column)]) is Full,
{
    lemma_first_empty(b, column, 0);
    if landing_row(b, column) == BOARD_HEIGHT {
        assert(column_full(b, column));
    }
}

/// Dropping a tile keeps every column free of floating tiles.
pub proof fn lemma_placed_keeps_gravity(b: Seq<Tile>, column: int, p: Player)
    requires
        b.len() == BOARD_SIZE,
        gravity(b),
        0 <= column < BOARD_WIDTH,
    ensures
        placed(b, column, p).len() == BOARD_SIZE,
        gravity(placed(b, column, p)),
{
    lemma_first_empty(b, column, 0);
    let f = landing_row(b, column);
    if f < BOARD_HEIGHT {
        let nb = placed(b, column, p);
        assert forall|r1: int, r2: int, c: int|
            0 <= r1 < r2 < BOARD_HEIGHT && 0 <= c < BOARD_WIDTH && nb[cell(r2, c)] is Full
                implies nb[cell(r1, c)] is Full by {
            lemma_cell(r1, c, f, column);
            lemma_cell(r2, c, f, column);
            if c == column && r2 > f {
                assert(b[cell(r2, c)] is Full);
                assert(b[cell(f, c)] is Full);
            }
        }
    }
}

/// A line of four of another player than the one who just moved was
/// already on the board before the move.
pub proof fn lemma_line_kept(b: Seq<Tile>, i: int, p: Player, q: Player, dr: int, dc: int)
    requires
        b.len() == BOARD_SIZE,
        0 <= i < BOARD_SIZE,
        p != q,
        has_line(b.update(i, Tile::Full(p)), q, dr, dc),
    ensures
        has_line(b, q, dr, dc),
{
    let nb = b.update(i, Tile::Full(p));
    let (row, column) = choose|row: int, column: int| #[trigger] line_of_four(nb, q, row, column, dr, dc);
    assert(line_of_four(b, q, row, column, dr, dc));
}

/// Only the player who just moved can have gained four in a row.
pub proof fn lemma_win_kept(b: Seq<Tile>, i: int, p: Player, q: Player)
    requires
        b.len() == BOARD_SIZE,
        0 <= i < BOARD_SIZE,
        p != q,
        has_win(b.update(i, Tile::Full(p)), q),
    ensures
        has_win(b, q),
{
    let nb = b.update(i, Tile::Full(p));
    if has_line(nb, q, 0, 1) {
        lemma_line_kept(b, i, p, q, 0, 1);
    } else if has_line(nb, q, 1, 0) {
        lemma_line_kept(b, i, p, q, 1, 0);
    } else if has_line(nb, q, 1, 1) {
        lemma_line_kept(b, i, p, q, 1, 1);
    } else {
        lemma_line_kept(b, i, p, q, 1, -1);
    }
}

} // verus!
