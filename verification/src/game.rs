use vstd::prelude::*;

use crate::grid::{
    cell_set, col_win, connects_at, diag_down_win, diag_down_window, diag_up_win, diag_up_window,
    empty_grid, grid_full, horiz_window, row_win, vert_window, Grid, MAX_COL, MAX_ROW, MIN_CONNECT,
};
use crate::pawn::Pawn;

verus! {

/// The error kinds the engine reports.
///
/// `OutOfRangeColumn` and `ColumnFull` are recoverable request errors; a
/// caller re-prompts and no state changes. `ContractViolation` marks a
/// placement request the engine must refuse outright: out-of-bounds
/// coordinates, an occupied target cell, or a game that is already over.
#[derive(Clone, Copy, PartialEq, Eq, Structural, Debug)]
pub enum GameError {
    OutOfRangeColumn,
    ColumnFull,
    ContractViolation,
}

/// The board engine: grid, active player, terminal flags and move log.
pub struct ConnectFour {
    /// Board matrix; row 0 is the top row.
    pub board: Vec<Vec<Pawn>>,
    /// The player whose token the next placement sets.
    pub turn: Pawn,
    /// A four-in-a-row exists through the most recent placement.
    pub is_connected: bool,
    /// The grid is full and no four-in-a-row exists.
    pub is_draw: bool,
    /// Move log: (mover, (row, col)) records in strict placement order,
    /// appended to and never removed from.
    pub moves_stack: Vec<(Pawn, (usize, usize))>,
}

impl ConnectFour {
    /// The board as a sequence of rows of cells.
    pub open spec fn grid(self) -> Grid {
        Seq::new(self.board@.len() as nat, |i: int| self.board@[i]@)
    }

    /// Well-formed: the board has its fixed dimensions and the active
    /// player is one of the two colors.
    pub open spec fn wf(self) -> bool {
        &&& self.board@.len() == MAX_ROW
        &&& forall|i: int| 0 <= i < MAX_ROW as int ==> (#[trigger] self.board@[i])@.len() == MAX_COL
        &&& self.turn.is_player()
    }

    /// The game has ended, by a connection or by a full board.
    pub open spec fn game_over(self) -> bool {
        self.is_connected || self.is_draw
    }

    /// A placement request the engine must refuse: coordinates off the
    /// board, a non-empty target cell, or a game that is already over.
    pub open spec fn place_rejected(self, row: usize, col: usize) -> bool {
        ||| self.game_over()
        ||| row >= MAX_ROW
        ||| col >= MAX_COL
        ||| !(self.grid()[row as int][col as int] is White)
    }

    /// The state change of a successful placement at (row, col): the
    /// mover's token lands in the cell, the move is logged, the turn is
    /// left to the caller, and the terminal flags are recomputed — the
    /// connection flag from the four lines through the new token, the
    /// draw flag as "full and not connected".
    pub open spec fn place_effect(self, post: ConnectFour, row: usize, col: usize) -> bool {
        &&& post.grid() == cell_set(self.grid(), row as int, col as int, self.turn)
        &&& post.turn == self.turn
        &&& post.moves_stack@ == self.moves_stack@.push((self.turn, (row, col)))
        &&& post.is_connected == connects_at(post.grid(), row as int, col as int, self.turn)
        &&& post.is_draw == (grid_full(post.grid()) && !post.is_connected)
    }

    /// Create the empty board with `Red` to move, no terminal flag set
    /// and an empty move log.
    pub fn new() -> (game: ConnectFour)
        ensures
            game.wf(),
            game.grid() == empty_grid(),
            game.turn == Pawn::Red,
            !game.is_connected,
            !game.is_draw,
            game.moves_stack@ == Seq::<(Pawn, (usize, usize))>::empty(),
    {
        let mut board: Vec<Vec<Pawn>> = Vec::new();
        let mut i: usize = 0;
        while i < MAX_ROW
            invariant
                i <= MAX_ROW,
                board@.len() == i,
                forall|r: int| 0 <= r < i as int
                    ==> (#[trigger] board@[r])@ == Seq::new(MAX_COL as nat, |j: int| Pawn::White),
            decreases MAX_ROW as int - i as int,
        {
            let mut row: Vec<Pawn> = Vec::new();
            let mut j: usize = 0;
            while j < MAX_COL
                invariant
                    j <= MAX_COL,
                    row@.len() == j,
                    forall|c: int| 0 <= c < j as int ==> (#[trigger] row@[c]) is White,
                decreases MAX_COL as int - j as int,
            {
                row.push(Pawn::White);
                j += 1;
            }
            proof {
                assert(row@ =~= Seq::new(MAX_COL as nat, |c: int| Pawn::White));
            }
            board.push(row);
            i += 1;
        }
        let game = ConnectFour {
            board,
            turn: Pawn::Red,
            is_connected: false,
            is_draw: false,
            moves_stack: Vec::new(),
        };
        proof {
            assert(game.grid() =~~= empty_grid());
        }
        game
    }

    /// Whether the cell at (row, col) holds a token.
    pub fn is_set(&self, row: usize, col: usize) -> (r: bool)
        requires
            self.wf(),
            row < MAX_ROW,
            col < MAX_COL,
        ensures
            r == !(self.grid()[row as int][col as int] is White),
    {
        self.board[row][col] != Pawn::White
    }

    /// Get the row a token dropped into `col` settles in: the lowest row
    /// whose cell in that column is still empty, or `None` when the column
    /// is full — in which case every row of the column is occupied.
    pub fn get_empty_spot(&self, col: usize) -> (r: Option<usize>)
        requires
            self.wf(),
            col < MAX_COL,
        ensures
            match r {
                Some(row) => {
                    &&& row < MAX_ROW
                    &&& self.grid()[row as int][col as int] is White
                    &&& forall|i: int| (row as int) < i && i < (MAX_ROW as int)
                        ==> !((#[trigger] self.grid()[i][col as int]) is White)
                },
                None => forall|i: int| 0 <= i < MAX_ROW as int
                    ==> !((#[trigger] self.grid()[i][col as int]) is White),
            },
    {
        let mut i: usize = MAX_ROW;
        while i > 0
            invariant
                self.wf(),
                col < MAX_COL,
                i <= MAX_ROW,
                forall|j: int| i as int <= j < MAX_ROW as int
                    ==> !((#[trigger] self.grid()[j][col as int]) is White),
            decreases i,
        {
            i -= 1;
            if !self.is_set(i, col) {
                return Some(i);
            }
        }
        None
    }

    /// True iff no empty cell remains anywhere on the grid.
    pub fn is_full(&self) -> (r: bool)
        requires
            self.wf(),
        ensures
            r == grid_full(self.grid()),
    {
        let mut i: usize = 0;
        while i < MAX_ROW
            invariant
                self.wf(),
                i <= MAX_ROW,
                forall|r0: int, c0: int| 0 <= r0 < i as int && 0 <= c0 < MAX_COL as int
                    ==> !((#[trigger] self.grid()[r0][c0]) is White),
            decreases MAX_ROW as int - i as int,
        {
            let mut j: usize = 0;
            while j < MAX_COL
                invariant
                    self.wf(),
                    i < MAX_ROW,
                    j <= MAX_COL,
                    forall|r0: int, c0: int| 0 <= r0 < i as int && 0 <= c0 < MAX_COL as int
                        ==> !((#[trigger] self.grid()[r0][c0]) is White),
                    forall|c0: int| 0 <= c0 < j as int
                        ==> !((#[trigger] self.grid()[i as int][c0]) is White),
                decreases MAX_COL as int - j as int,
            {
                if self.board[i][j] == Pawn::White {
                    return false;
                }
                j += 1;
            }
            i += 1;
        }
        true
    }

    /// Slide a window of `MIN_CONNECT` cells along the full extracted
    /// line of row `row`, looking for a window of the mover's color.
    fn scan_row(&self, row: usize) -> (r: bool)
        requires
            self.wf(),
            row < MAX_ROW,
        ensures
            r == row_win(self.grid(), row as int, self.turn),
    {
        let mut c0: usize = 0;
        while c0 + MIN_CONNECT <= MAX_COL
            invariant
                self.wf(),
                row < MAX_ROW,
                c0 <= MAX_COL,
                forall|j: int| 0 <= j < c0 as int
                    ==> !(#[trigger] horiz_window(self.grid(), row as int, j, self.turn)),
            decreases MAX_COL as int - c0 as int,
        {
            if self.board[row][c0] == self.turn && self.board[row][c0 + 1] == self.turn
                && self.board[row][c0 + 2] == self.turn && self.board[row][c0 + 3] == self.turn {
                assert(horiz_window(self.grid(), row as int, c0 as int, self.turn));
                return true;
            }
            c0 += 1;
        }
        proof {
            assert forall|j: int| !(#[trigger] horiz_window(
                self.grid(),
                row as int,
                j,
                self.turn,
            )) by {
                if horiz_window(self.grid(), row as int, j, self.turn) {
                    assert(0 <= j && j + 3 < MAX_COL as int);
                }
            }
        }
        false
    }

    /// Slide a window of `MIN_CONNECT` cells along the full extracted
    /// line of column `col`, looking for a window of the mover's color.
    fn scan_col(&self, col: usize) -> (r: bool)
        requires
            self.wf(),
            col < MAX_COL,
        ensures
            r == col_win(self.grid(), col as int, self.turn),
    {
        let mut r0: usize = 0;
        while r0 + MIN_CONNECT <= MAX_ROW
            invariant
                self.wf(),
                col < MAX_COL,
                r0 <= MAX_ROW,
                forall|i: int| 0 <= i < r0 as int
                    ==> !(#[trigger] vert_window(self.grid(), i, col as int, self.turn)),
            decreases MAX_ROW as int - r0 as int,
        {
            if self.board[r0][col] == self.turn && self.board[r0 + 1][col] == self.turn
                && self.board[r0 + 2][col] == self.turn && self.board[r0 + 3][col] == self.turn {
                assert(vert_window(self.grid(), r0 as int, col as int, self.turn));
                return true;
            }
            r0 += 1;
        }
        proof {
            assert forall|i: int| !(#[trigger] vert_window(
                self.grid(),
                i,
                col as int,
                self.turn,
            )) by {
                if vert_window(self.grid(), i, col as int, self.turn) {
                    assert(0 <= i && i + 3 < MAX_ROW as int);
                }
            }
        }
        false
    }

    /// Slide a window of `MIN_CONNECT` cells along the full extracted
    /// "\" diagonal line through (row, col), clipped at the grid edges.
    fn scan_diag_down(&self, row: usize, col: usize) -> (r: bool)
        requires
            self.wf(),
            row < MAX_ROW,
            col < MAX_COL,
        ensures
            r == diag_down_win(self.grid(), row as int, col as int, self.turn),
    {
        let mut r0: usize = 0;
        while r0 + MIN_CONNECT <= MAX_ROW
            invariant
                self.wf(),
                row < MAX_ROW,
                col < MAX_COL,
                r0 <= MAX_ROW,
                forall|i: int, j: int| 0 <= i < r0 as int && i - j == (row as int) - (col as int)
                    ==> !(#[trigger] diag_down_window(self.grid(), i, j, self.turn)),
            decreases MAX_ROW as int - r0 as int,
        {
            let c0i: isize = (r0 as isize) + (col as isize) - (row as isize);
            if 0 <= c0i && c0i + (MIN_CONNECT as isize) <= (MAX_COL as isize) {
                let c0: usize = c0i as usize;
                if self.board[r0][c0] == self.turn && self.board[r0 + 1][c0 + 1] == self.turn
                    && self.board[r0 + 2][c0 + 2] == self.turn
                    && self.board[r0 + 3][c0 + 3] == self.turn {
                    assert(diag_down_window(self.grid(), r0 as int, c0 as int, self.turn));
                    return true;
                }
            }
            r0 += 1;
        }
        proof {
            assert forall|i: int, j: int| i - j == (row as int) - (col as int)
                implies !(#[trigger] diag_down_window(self.grid(), i, j, self.turn)) by {
                if diag_down_window(self.grid(), i, j, self.turn) {
                    assert(0 <= i && i + 3 < MAX_ROW as int);
                }
            }
        }
        false
    }

    /// Slide a window of `MIN_CONNECT` cells along the full extracted
    /// "/" diagonal line through (row, col), clipped at the grid edges.
    fn scan_diag_up(&self, row: usize, col: usize) -> (r: bool)
        requires
            self.wf(),
            row < MAX_ROW,
            col < MAX_COL,
        ensures
            r == diag_up_win(self.grid(), row as int, col as int, self.turn),
    {
        let mut r0: usize = 0;
        while r0 + MIN_CONNECT <= MAX_ROW
            invariant
                self.wf(),
                row < MAX_ROW,
                col < MAX_COL,
                r0 <= MAX_ROW,
                forall|i: int, j: int| 0 <= i < r0 as int && i + j == (row as int) + (col as int)
                    ==> !(#[trigger] diag_up_window(self.grid(), i, j, self.turn)),
            decreases MAX_ROW as int - r0 as int,
        {
            let c0i: isize = (row as isize) + (col as isize) - (r0 as isize);
            if (MIN_CONNECT as isize) - 1 <= c0i && c0i < (MAX_COL as isize) {
                let c0: usize = c0i as usize;
                if self.board[r0][c0] == self.turn && self.board[r0 + 1][c0 - 1] == self.turn
                    && self.board[r0 + 2][c0 - 2] == self.turn
                    && self.board[r0 + 3][c0 - 3] == self.turn {
                    assert(diag_up_window(self.grid(), r0 as int, c0 as int, self.turn));
                    return true;
                }
            }
            r0 += 1;
        }
        proof {
            assert forall|i: int, j: int| i + j == (row as int) + (col as int)
                implies !(#[trigger] diag_up_window(self.grid(), i, j, self.turn)) by {
                if diag_up_window(self.grid(), i, j, self.turn) {
                    assert(0 <= i && i + 3 < MAX_ROW as int);
                }
            }
        }
        false
    }

    /// Check if the last placed pawn is connected to four pawns of the
    /// same color. Only the four full lines through (row, col) are
    /// examined, since a new connection can only pass through the cell
    /// placed last; each line is clipped at the grid edges and a window
    /// of `MIN_CONNECT` cells slides along it.
    ///
    /// Should be called after placing the pawn and before switching the
    /// turn: the mover's color is read from `turn`.
    pub fn is_four_connected(&self, row: usize, col: usize) -> (r: bool)
        requires
            self.wf(),
            row < MAX_ROW,
            col < MAX_COL,
        ensures
            r == connects_at(self.grid(), row as int, col as int, self.turn),
    {
        self.scan_row(row) || self.scan_col(col) || self.scan_diag_down(row, col)
            || self.scan_diag_up(row, col)
    }

    /// `connected OR draw`: no placement is valid once this holds.
    pub fn is_over(&self) -> (r: bool)
        ensures
            r == self.game_over(),
    {
        self.is_connected || self.is_draw
    }

    /// Set the current player's token at (row, col), append the move to
    /// the log and recompute the terminal flags. The turn is not
    /// switched; that is the caller's explicit follow-up.
    ///
    /// A request with out-of-bounds coordinates, a non-empty target cell
    /// or a game that is already over is a caller bug: it is refused with
    /// `ContractViolation` and the state is left exactly as it was.
    pub fn place(&mut self, row: usize, col: usize) -> (r: Result<(), GameError>)
        requires
            old(self).wf(),
        ensures
            final(self).wf(),
            old(self).place_rejected(row, col) ==> {
                &&& r == Err::<(), GameError>(GameError::ContractViolation)
                &&& *final(self) == *old(self)
            },
            !old(self).place_rejected(row, col) ==> {
                &&& r == Ok::<(), GameError>(())
                &&& old(self).place_effect(*final(self), row, col)
            },
    {
        if self.is_over() || row >= MAX_ROW || col >= MAX_COL || self.is_set(row, col) {
            return Err(GameError::ContractViolation);
        }
        self.moves_stack.push((self.turn, (row, col)));
        self.board[row][col] = self.turn;
        proof {
            assert(self.grid() =~~= cell_set(
                old(self).grid(),
                row as int,
                col as int,
                old(self).turn,
            ));
        }
        self.is_connected = self.is_four_connected(row, col);
        let full = self.is_full();
        self.is_draw = full && !self.is_connected;
        Ok(())
    }

    /// Check a requested column index against the board's range;
    /// a column outside `[0, MAX_COL)` is reported, never clamped.
    pub fn validate_column_number(col: usize) -> (r: Result<usize, GameError>)
        ensures
            col < MAX_COL ==> r == Ok::<usize, GameError>(col),
            col >= MAX_COL ==> r == Err::<usize, GameError>(GameError::OutOfRangeColumn),
    {
        if col >= MAX_COL {
            return Err(GameError::OutOfRangeColumn);
        }
        Ok(col)
    }

    /// The session loop's validation step for a column request: reject a
    /// column outside the board, report a full column, and otherwise
    /// return the row the token would settle in.
    pub fn drop_row(&self, col: usize) -> (r: Result<usize, GameError>)
        requires
            self.wf(),
        ensures
            col >= MAX_COL ==> r == Err::<usize, GameError>(GameError::OutOfRangeColumn),
            col < MAX_COL ==> match r {
                Ok(row) => {
                    &&& row < MAX_ROW
                    &&& self.grid()[row as int][col as int] is White
                    &&& forall|i: int| (row as int) < i && i < (MAX_ROW as int)
                        ==> !((#[trigger] self.grid()[i][col as int]) is White)
                },
                Err(e) => {
                    &&& e == GameError::ColumnFull
                    &&& forall|i: int| 0 <= i < MAX_ROW as int
                        ==> !((#[trigger] self.grid()[i][col as int]) is White)
                },
            },
    {
        let col = match Self::validate_column_number(col) {
            Ok(col) => col,
            Err(e) => {
                return Err(e);
            },
        };
        match self.get_empty_spot(col) {
            Some(row) => Ok(row),
            None => Err(GameError::ColumnFull),
        }
    }

    /// The winner, read from the move log: when a connection exists the
    /// game was won by the mover of the most recent log entry; in any
    /// other state there is no winner.
    pub fn winner(&self) -> (r: Option<Pawn>)
        ensures
            r == (if self.is_connected && self.moves_stack@.len() > 0 {
                Some(self.moves_stack@.last().0)
            } else {
                None::<Pawn>
            }),
    {
        if self.is_connected && self.moves_stack.len() > 0 {
            Some(self.moves_stack[self.moves_stack.len() - 1].0)
        } else {
            None
        }
    }
}

} // verus!
