use vstd::prelude::*;

use crate::pawn::Pawn;

verus! {

/// Number of rows of the board; row 0 is the top row, row `MAX_ROW - 1`
/// the bottom a token settles against.
pub const MAX_ROW: usize = 6;

/// Number of columns of the board.
pub const MAX_COL: usize = 7;

/// Number of same-colored tokens in an unbroken line needed to win.
pub const MIN_CONNECT: usize = 4;

/// The mathematical view of a board: one sequence of cells per row,
/// rows listed top to bottom, cells left to right.
pub type Grid = Seq<Seq<Pawn>>;

/// The position (row, col) lies on the board.
pub open spec fn in_grid(row: int, col: int) -> bool {
    &&& 0 <= row < MAX_ROW as int
    &&& 0 <= col < MAX_COL as int
}

/// The grid has exactly `MAX_ROW` rows of `MAX_COL` cells each.
pub open spec fn grid_wf(g: Grid) -> bool {
    &&& g.len() == MAX_ROW
    &&& forall|i: int| 0 <= i < g.len() ==> (#[trigger] g[i]).len() == MAX_COL
}

/// The grid with the cell at (row, col) set to `p` and all others unchanged.
pub open spec fn cell_set(g: Grid, row: int, col: int, p: Pawn) -> Grid {
    g.update(row, g[row].update(col, p))
}

/// The all-empty starting grid.
pub open spec fn empty_grid() -> Grid {
    Seq::new(MAX_ROW as nat, |i: int| Seq::new(MAX_COL as nat, |j: int| Pawn::White))
}

/// A horizontal run of `MIN_CONNECT` cells of color `p` in row `row`,
/// starting at column `c0` and extending rightwards, entirely on the board.
pub open spec fn horiz_window(g: Grid, row: int, c0: int, p: Pawn) -> bool {
    &&& in_grid(row, c0) && g[row][c0] == p
    &&& in_grid(row, c0 + 1) && g[row][c0 + 1] == p
    &&& in_grid(row, c0 + 2) && g[row][c0 + 2] == p
    &&& in_grid(row, c0 + 3) && g[row][c0 + 3] == p
}

/// A vertical run of `MIN_CONNECT` cells of color `p` in column `col`,
/// starting at row `r0` and extending downwards, entirely on the board.
pub open spec fn vert_window(g: Grid, r0: int, col: int, p: Pawn) -> bool {
    &&& in_grid(r0, col) && g[r0][col] == p
    &&& in_grid(r0 + 1, col) && g[r0 + 1][col] == p
    &&& in_grid(r0 + 2, col) && g[r0 + 2][col] == p
    &&& in_grid(r0 + 3, col) && g[r0 + 3][col] == p
}

/// A run of `MIN_CONNECT` cells of color `p` along the "\" diagonal
/// (one step down and one step right each time), starting at (r0, c0).
pub open spec fn diag_down_window(g: Grid, r0: int, c0: int, p: Pawn) -> bool {
    &&& in_grid(r0, c0) && g[r0][c0] == p
    &&& in_grid(r0 + 1, c0 + 1) && g[r0 + 1][c0 + 1] == p
    &&& in_grid(r0 + 2, c0 + 2) && g[r0 + 2][c0 + 2] == p
    &&& in_grid(r0 + 3, c0 + 3) && g[r0 + 3][c0 + 3] == p
}

/// A run of `MIN_CONNECT` cells of color `p` along the "/" diagonal
/// (one step down and one step left each time), starting at (r0, c0).
pub open spec fn diag_up_window(g: Grid, r0: int, c0: int, p: Pawn) -> bool {
    &&& in_grid(r0, c0) && g[r0][c0] == p
    &&& in_grid(r0 + 1, c0 - 1) && g[r0 + 1][c0 - 1] == p
    &&& in_grid(r0 + 2, c0 - 2) && g[r0 + 2][c0 - 2] == p
    &&& in_grid(r0 + 3, c0 - 3) && g[r0 + 3][c0 - 3] == p
}

/// Some window of the full line extracted along row `row` is a win for `p`.
pub open spec fn row_win(g: Grid, row: int, p: Pawn) -> bool {
    exists|c0: int| #[trigger] horiz_window(g, row, c0, p)
}

/// Some window of the full line extracted along column `col` is a win for `p`.
pub open spec fn col_win(g: Grid, col: int, p: Pawn) -> bool {
    exists|r0: int| #[trigger] vert_window(g, r0, col, p)
}

/// Some window of the "\" diagonal line through (row, col) is a win for `p`.
pub open spec fn diag_down_win(g: Grid, row: int, col: int, p: Pawn) -> bool {
    exists|r0: int, c0: int| r0 - c0 == row - col && #[trigger] diag_down_window(g, r0, c0, p)
}

/// Some window of the "/" diagonal line through (row, col) is a win for `p`.
pub open spec fn diag_up_win(g: Grid, row: int, col: int, p: Pawn) -> bool {
    exists|r0: int, c0: int| r0 + c0 == row + col && #[trigger] diag_up_window(g, r0, c0, p)
}

/// The anchored connectivity check: one of the four full lines through
/// (row, col) — its row, its column, and its two diagonals — contains a
/// window of `MIN_CONNECT` cells of color `p`.
pub open spec fn connects_at(g: Grid, row: int, col: int, p: Pawn) -> bool {
    ||| row_win(g, row, p)
    ||| col_win(g, col, p)
    ||| diag_down_win(g, row, col, p)
    ||| diag_up_win(g, row, col, p)
}

/// A window of any of the four axis families starts at (r0, c0).
pub open spec fn any_window(g: Grid, r0: int, c0: int, p: Pawn) -> bool {
    ||| horiz_window(g, r0, c0, p)
    ||| vert_window(g, r0, c0, p)
    ||| diag_down_window(g, r0, c0, p)
    ||| diag_up_window(g, r0, c0, p)
}

/// The full-board check: somewhere on the grid four cells of color `p`
/// stand in an unbroken line.
pub open spec fn has_connection(g: Grid, p: Pawn) -> bool {
    exists|r0: int, c0: int| #[trigger] any_window(g, r0, c0, p)
}

/// No empty cell remains.
pub open spec fn grid_full(g: Grid) -> bool {
    forall|i: int, j: int| in_grid(i, j) ==> !((#[trigger] g[i][j]) is White)
}

/// How many cells of a row hold the value `p`.
pub open spec fn row_count(r: Seq<Pawn>, p: Pawn) -> nat
    decreases r.len(),
{
    if r.len() == 0 {
        0
    } else {
        row_count(r.drop_last(), p) + (if r.last() == p { 1nat } else { 0nat })
    }
}

/// How many cells of the grid hold the value `p`.
pub open spec fn grid_count(g: Grid, p: Pawn) -> nat
    decreases g.len(),
{
    if g.len() == 0 {
        0
    } else {
        grid_count(g.drop_last(), p) + row_count(g.last(), p)
    }
}

} // verus!
