use vstd::prelude::*;

use crate::game::ConnectFour;
use crate::grid::{
    any_window, cell_set, col_win, connects_at, diag_down_win, diag_down_window, diag_up_win,
    diag_up_window, empty_grid, grid_count, grid_wf, has_connection, horiz_window, in_grid,
    row_count, row_win, vert_window, Grid, MAX_COL, MAX_ROW,
};
use crate::pawn::Pawn;

verus! {

/// Updating one cell moves the count of each color by at most one: the
/// cell's old color loses a token, the written color gains one.
proof fn lemma_row_count_update(r: Seq<Pawn>, col: int, p: Pawn, q: Pawn)
    requires
        0 <= col < r.len(),
    ensures
        row_count(r.update(col, p), q) + (if r[col] == q { 1nat } else { 0nat })
            == row_count(r, q) + (if p == q { 1nat } else { 0nat }),
    decreases r.len(),
{
    let r2 = r.update(col, p);
    if col == r.len() - 1 {
        assert(r2.drop_last() =~= r.drop_last());
    } else {
        assert(r2.drop_last() =~= r.drop_last().update(col, p));
        lemma_row_count_update(r.drop_last(), col, p, q);
    }
}

/// The grid-level form of `lemma_row_count_update`.
proof fn lemma_grid_count_update(g: Grid, row: int, col: int, p: Pawn, q: Pawn)
    requires
        0 <= row < g.len(),
        0 <= col < g[row].len(),
    ensures
        grid_count(cell_set(g, row, col, p), q) + (if g[row][col] == q { 1nat } else { 0nat })
            == grid_count(g, q) + (if p == q { 1nat } else { 0nat }),
    decreases g.len(),
{
    let g2 = cell_set(g, row, col, p);
    if row == g.len() - 1 {
        assert(g2.drop_last() =~= g.drop_last());
        assert(g2.last() == g[row].update(col, p));
        lemma_row_count_update(g[row], col, p, q);
    } else {
        assert(g2.drop_last() =~= cell_set(g.drop_last(), row, col, p));
        assert(g2.last() == g.last());
        lemma_grid_count_update(g.drop_last(), row, col, p, q);
    }
}

/// A row of empty cells holds no token of a player color.
proof fn lemma_white_row_count(r: Seq<Pawn>, q: Pawn)
    requires
        forall|j: int| 0 <= j < r.len() ==> (#[trigger] r[j]) is White,
        !(q is White),
    ensures
        row_count(r, q) == 0,
    decreases r.len(),
{
    if r.len() > 0 {
        lemma_white_row_count(r.drop_last(), q);
    }
}

/// A grid of empty cells holds no token of a player color.
proof fn lemma_white_grid_count(g: Grid, q: Pawn)
    requires
        forall|i: int, j: int| 0 <= i < g.len() && 0 <= j < (#[trigger] g[i]).len()
            ==> (#[trigger] g[i][j]) is White,
        !(q is White),
    ensures
        grid_count(g, q) == 0,
    decreases g.len(),
{
    if g.len() > 0 {
        lemma_white_grid_count(g.drop_last(), q);
        lemma_white_row_count(g.last(), q);
    }
}

/// The mover of move `i` under strict alternation with `Red` first.
pub open spec fn mover_of(i: int) -> Pawn {
    if i % 2 == 0 {
        Pawn::Red
    } else {
        Pawn::Blue
    }
}

/// The grid after the first `n` of the listed positions have been
/// played, in order, by strictly alternating movers starting with `Red`.
pub open spec fn replay(moves: Seq<(int, int)>, n: int) -> Grid
    decreases n,
{
    if n <= 0 {
        empty_grid()
    } else {
        cell_set(replay(moves, n - 1), moves[n - 1].0, moves[n - 1].1, mover_of(n - 1))
    }
}

/// The first `n` listed moves are valid placements: each lies on the
/// board and lands in a cell still empty when its turn comes.
pub open spec fn moves_ok(moves: Seq<(int, int)>, n: int) -> bool {
    forall|i: int| 0 <= i < n ==> {
        &&& in_grid((#[trigger] moves[i]).0, moves[i].1)
        &&& replay(moves, i)[moves[i].0][moves[i].1] is White
    }
}

/// Replaying valid moves keeps the board's fixed dimensions.
proof fn lemma_replay_wf(moves: Seq<(int, int)>, n: int)
    requires
        0 <= n,
        moves_ok(moves, n),
    ensures
        grid_wf(replay(moves, n)),
    decreases n,
{
    if n > 0 {
        lemma_replay_wf(moves, n - 1);
    }
}

/// Strict alternation keeps the board balanced: after any number of
/// valid placements — and so at every point of a game — `Red` holds
/// either exactly as many cells as `Blue` or exactly one more; the two
/// cell counts never differ by more than one.
pub proof fn lemma_alternation_balance(moves: Seq<(int, int)>, n: int)
    requires
        0 <= n <= moves.len(),
        moves_ok(moves, n),
    ensures
        grid_count(replay(moves, n), Pawn::Red) == (n + 1) / 2,
        grid_count(replay(moves, n), Pawn::Blue) == n / 2,
        grid_count(replay(moves, n), Pawn::Blue) <= grid_count(replay(moves, n), Pawn::Red),
        grid_count(replay(moves, n), Pawn::Red) <= grid_count(replay(moves, n), Pawn::Blue) + 1,
    decreases n,
{
    if n == 0 {
        lemma_white_grid_count(empty_grid(), Pawn::Red);
        lemma_white_grid_count(empty_grid(), Pawn::Blue);
    } else {
        lemma_alternation_balance(moves, n - 1);
        lemma_replay_wf(moves, n - 1);
        let g = replay(moves, n - 1);
        let row = moves[n - 1].0;
        let col = moves[n - 1].1;
        assert(in_grid(row, col) && g[row][col] is White);
        lemma_grid_count_update(g, row, col, mover_of(n - 1), Pawn::Red);
        lemma_grid_count_update(g, row, col, mover_of(n - 1), Pawn::Blue);
    }
}

/// Recomputing the connection from scratch agrees with the incremental
/// anchored check: when the prior grid held no connection for either
/// player, a full-board scan of the updated grid finds a connection for
/// the mover exactly when the four lines through the new token do, and
/// finds none for the opponent.
pub proof fn lemma_anchored_check_complete(g: Grid, row: int, col: int, p: Pawn)
    requires
        grid_wf(g),
        in_grid(row, col),
        g[row][col] is White,
        p.is_player(),
        !has_connection(g, Pawn::Red),
        !has_connection(g, Pawn::Blue),
    ensures
        connects_at(cell_set(g, row, col, p), row, col, p)
            == has_connection(cell_set(g, row, col, p), p),
        forall|q: Pawn| q.is_player() && q != p
            ==> !has_connection(#[trigger] cell_set(g, row, col, p), q),
{
    let g2 = cell_set(g, row, col, p);
    assert(g2[row][col] == p);

    // The anchored check is sound: each of its windows lies on the board.
    if connects_at(g2, row, col, p) {
        if row_win(g2, row, p) {
            let c0 = choose|c0: int| horiz_window(g2, row, c0, p);
            assert(any_window(g2, row, c0, p));
        } else if col_win(g2, col, p) {
            let r0 = choose|r0: int| vert_window(g2, r0, col, p);
            assert(any_window(g2, r0, col, p));
        } else if diag_down_win(g2, row, col, p) {
            let (r0, c0) = choose|r0: int, c0: int|
                r0 - c0 == row - col && #[trigger] diag_down_window(g2, r0, c0, p);
            assert(any_window(g2, r0, c0, p));
        } else {
            let (r0, c0) = choose|r0: int, c0: int|
                r0 + c0 == row + col && #[trigger] diag_up_window(g2, r0, c0, p);
            assert(any_window(g2, r0, c0, p));
        }
        assert(has_connection(g2, p));
    }

    // The anchored check is complete: a window the prior grid did not
    // hold runs through the new token, so it lies on one of the four
    // lines the check extracts.
    assert forall|r0: int, c0: int| #[trigger] any_window(g2, r0, c0, p)
        implies connects_at(g2, row, col, p) by {
        if horiz_window(g2, r0, c0, p) {
            if r0 == row {
                assert(horiz_window(g2, row, c0, p));
                assert(row_win(g2, row, p));
            } else {
                assert(horiz_window(g, r0, c0, p));
                assert(any_window(g, r0, c0, p));
                assert(has_connection(g, p));
                assert(false);
            }
        } else if vert_window(g2, r0, c0, p) {
            if c0 == col {
                assert(vert_window(g2, r0, col, p));
                assert(col_win(g2, col, p));
            } else {
                assert(vert_window(g, r0, c0, p));
                assert(any_window(g, r0, c0, p));
                assert(has_connection(g, p));
                assert(false);
            }
        } else if diag_down_window(g2, r0, c0, p) {
            if r0 - c0 == row - col {
                assert(diag_down_win(g2, row, col, p));
            } else {
                assert(diag_down_window(g, r0, c0, p));
                assert(any_window(g, r0, c0, p));
                assert(has_connection(g, p));
                assert(false);
            }
        } else {
            if r0 + c0 == row + col {
                assert(diag_up_win(g2, row, col, p));
            } else {
                assert(diag_up_window(g, r0, c0, p));
                assert(any_window(g, r0, c0, p));
                assert(has_connection(g, p));
                assert(false);
            }
        }
    }
    if has_connection(g2, p) {
        let (r0, c0) = choose|r0: int, c0: int| #[trigger] any_window(g2, r0, c0, p);
        assert(connects_at(g2, row, col, p));
    }

    // No window of the opponent's color can run through the new token,
    // so every window of the opponent already stood in the prior grid.
    assert forall|q: Pawn| q.is_player() && q != p implies !has_connection(g2, q) by {
        if has_connection(g2, q) {
            let (r0, c0) = choose|r0: int, c0: int| #[trigger] any_window(g2, r0, c0, q);
            assert(any_window(g, r0, c0, q));
            assert(has_connection(g, q));
            assert(false);
        }
    }
}

/// When a placement completes the game with a connection, the winner —
/// the player holding the four-in-a-row — is the mover of the most
/// recent move log entry, and no other player holds a connection.
pub proof fn lemma_winner_is_last_mover(pre: ConnectFour, post: ConnectFour, row: usize, col: usize)
    requires
        pre.wf(),
        row < MAX_ROW,
        col < MAX_COL,
        pre.grid()[row as int][col as int] is White,
        !has_connection(pre.grid(), Pawn::Red),
        !has_connection(pre.grid(), Pawn::Blue),
        pre.place_effect(post, row, col),
        post.is_connected,
    ensures
        post.moves_stack@.len() > 0,
        post.moves_stack@.last() == (pre.turn, (row, col)),
        has_connection(post.grid(), post.moves_stack@.last().0),
        forall|q: Pawn| q.is_player() && has_connection(post.grid(), q)
            ==> q == post.moves_stack@.last().0,
{
    lemma_anchored_check_complete(pre.grid(), row as int, col as int, pre.turn);
}

} // verus!
