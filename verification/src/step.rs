//! The generational step function: neighbor counting and the birth/survival
//! decision, double-buffered over a fresh grid.

use vstd::prelude::*;
use vstd::arithmetic::div_mod::{lemma_mod_bound, lemma_small_mod};
use crate::board::{decayed, lemma_flat_index_in_range, Board};
use crate::rules::Rules;

verus! {

/// The Moore neighborhood sum of cell `(x, y)`: the stored states of the
/// eight toroidally adjacent cells, summed directly. A cell holding a
/// lifetime counter `v` contributes `v`, not `1`.
pub open spec fn neighbor_sum(board: Board, x: int, y: int) -> int {
    board.cell_wrapped(x - 1, y - 1) + board.cell_wrapped(x, y - 1) + board.cell_wrapped(
        x + 1,
        y - 1,
    ) + board.cell_wrapped(x - 1, y) + board.cell_wrapped(x + 1, y) + board.cell_wrapped(
        x - 1,
        y + 1,
    ) + board.cell_wrapped(x, y + 1) + board.cell_wrapped(x + 1, y + 1)
}

/// The state of cell `(x, y)` one generation later: a live cell stays at `1`
/// if its neighbor sum is in the survival table, and otherwise decays by one;
/// a dead cell is born at the configured lifetime if its neighbor sum is in
/// the birth table.
pub open spec fn next_cell(board: Board, rules: Rules, x: int, y: int) -> int {
    let n = neighbor_sum(board, x, y);
    if board.cell(x, y) > 0 {
        if rules.survive@[n] {
            1
        } else {
            decayed(board.cell(x, y), 1)
        }
    } else {
        if rules.birth@[n] {
            rules.adding_lifetime as int
        } else {
            0
        }
    }
}

/// Every cell's neighbor sum stays inside the nine-entry rule tables. This
/// holds of any boolean grid; lifetime counters above `1` can break it.
pub open spec fn neighbor_sums_bounded(board: Board) -> bool {
    forall|x: int, y: int|
        0 <= x < board.cx && 0 <= y < board.cy ==> #[trigger] neighbor_sum(board, x, y) <= 8
}

/// A wrapped read lands inside the state vector, so it is non-negative; on a
/// boolean grid it is at most `1`, and on an all-dead grid it is `0`.
pub proof fn lemma_cell_wrapped_in_range(board: Board, x: int, y: int)
    requires
        board.wf(),
    ensures
        0 <= board.cell_wrapped(x, y) <= i8::MAX,
        board.binary() ==> board.cell_wrapped(x, y) <= 1,
        board.all_dead() ==> board.cell_wrapped(x, y) == 0,
{
    lemma_mod_bound(x, board.cx as int);
    lemma_mod_bound(y, board.cy as int);
    lemma_flat_index_in_range(
        board.cx as int,
        board.cy as int,
        x % (board.cx as int),
        y % (board.cy as int),
    );
}

/// The neighbor sum of any cell of a boolean grid lies in `[0, 8]`, on any
/// grid size: even on degenerate toroidal grids where a cell is its own
/// neighbor through the wrap-around, there are exactly eight probes, each
/// contributing `0` or `1`.
pub proof fn lemma_neighbor_sum_in_range(board: Board, x: int, y: int)
    requires
        board.wf(),
        board.binary(),
    ensures
        0 <= neighbor_sum(board, x, y) <= 8,
{
    lemma_cell_wrapped_in_range(board, x - 1, y - 1);
    lemma_cell_wrapped_in_range(board, x, y - 1);
    lemma_cell_wrapped_in_range(board, x + 1, y - 1);
    lemma_cell_wrapped_in_range(board, x - 1, y);
    lemma_cell_wrapped_in_range(board, x + 1, y);
    lemma_cell_wrapped_in_range(board, x - 1, y + 1);
    lemma_cell_wrapped_in_range(board, x, y + 1);
    lemma_cell_wrapped_in_range(board, x + 1, y + 1);
}

/// A boolean grid can always be stepped: its neighbor sums never leave the
/// rule tables.
pub proof fn lemma_binary_neighbor_sums_bounded(board: Board)
    requires
        board.wf(),
        board.binary(),
    ensures
        neighbor_sums_bounded(board),
{
    assert forall|x: int, y: int|
        0 <= x < board.cx && 0 <= y < board.cy implies #[trigger] neighbor_sum(board, x, y)
        <= 8 by {
        lemma_neighbor_sum_in_range(board, x, y);
    }
}

/// An all-dead grid is stable under any rule set that does not give birth at
/// neighbor count zero: one step leaves every cell dead.
pub proof fn lemma_empty_board_is_stable(board: Board, rules: Rules)
    requires
        board.wf(),
        rules.wf(),
        board.all_dead(),
        !rules.birth@[0],
    ensures
        neighbor_sums_bounded(board),
        forall|x: int, y: int|
            0 <= x < board.cx && 0 <= y < board.cy ==> #[trigger] next_cell(board, rules, x, y)
                == 0,
{
    assert forall|x: int, y: int|
        0 <= x < board.cx && 0 <= y < board.cy implies #[trigger] next_cell(board, rules, x, y)
        == 0 && neighbor_sum(board, x, y) <= 8 by {
        lemma_cell_wrapped_in_range(board, x - 1, y - 1);
        lemma_cell_wrapped_in_range(board, x, y - 1);
        lemma_cell_wrapped_in_range(board, x + 1, y - 1);
        lemma_cell_wrapped_in_range(board, x - 1, y);
        lemma_cell_wrapped_in_range(board, x + 1, y);
        lemma_cell_wrapped_in_range(board, x - 1, y + 1);
        lemma_cell_wrapped_in_range(board, x, y + 1);
        lemma_cell_wrapped_in_range(board, x + 1, y + 1);
        lemma_flat_index_in_range(board.cx as int, board.cy as int, x, y);
        assert(neighbor_sum(board, x, y) == 0);
        assert(board.cell(x, y) == 0);
    }
    assert forall|x: int, y: int|
        0 <= x < board.cx && 0 <= y < board.cy implies #[trigger] neighbor_sum(board, x, y)
        <= 8 by {
        assert(next_cell(board, rules, x, y) == 0);
    }
}

/// A step taken on an all-dead grid, under a rule set that does not give
/// birth at neighbor count zero, yields an all-dead grid: the empty state is
/// stable. `after` is any grid that `next_step` may leave behind `before`.
pub proof fn lemma_step_keeps_empty_board_dead(before: Board, after: Board, rules: Rules)
    requires
        before.wf(),
        after.wf(),
        rules.wf(),
        before.all_dead(),
        !rules.birth@[0],
        after.cx == before.cx,
        after.cy == before.cy,
        forall|x: int, y: int|
            0 <= x < before.cx && 0 <= y < before.cy ==> after.cell(x, y) == next_cell(
                before,
                rules,
                x,
                y,
            ),
    ensures
        after.all_dead(),
{
    lemma_empty_board_is_stable(before, rules);
    after.lemma_dead_cells_make_dead_grid();
}

/// The Moore neighborhood sum of in-range cell `(x, y)`, accumulated without
/// overflow.
fn neighbor_sum_wide(board: &Board, x: i32, y: i32) -> (sum: i32)
    requires
        board.wf(),
        0 <= x < board.cx,
        0 <= y < board.cy,
    ensures
        sum == neighbor_sum(*board, x as int, y as int),
        0 <= sum,
{
    let mut sum: i32 = 0;
    sum = sum + board.get_cell_at_position(x - 1, y - 1) as i32;
    sum = sum + board.get_cell_at_position(x, y - 1) as i32;
    sum = sum + board.get_cell_at_position(x + 1, y - 1) as i32;
    sum = sum + board.get_cell_at_position(x - 1, y) as i32;
    sum = sum + board.get_cell_at_position(x + 1, y) as i32;
    sum = sum + board.get_cell_at_position(x - 1, y + 1) as i32;
    sum = sum + board.get_cell_at_position(x, y + 1) as i32;
    sum = sum + board.get_cell_at_position(x + 1, y + 1) as i32;
    sum
}

/// Counts the live neighbors of in-range cell `(x, y)`, in the stored cell
/// width; the sum must fit it.
pub fn count_neighbors(board: &Board, x: i32, y: i32) -> (count: i8)
    requires
        board.wf(),
        0 <= x < board.cx,
        0 <= y < board.cy,
        neighbor_sum(*board, x as int, y as int) <= i8::MAX,
    ensures
        count == neighbor_sum(*board, x as int, y as int),
        0 <= count,
{
    proof {
        lemma_cell_wrapped_in_range(*board, x - 1, y - 1);
        lemma_cell_wrapped_in_range(*board, x as int, y - 1);
        lemma_cell_wrapped_in_range(*board, x + 1, y - 1);
        lemma_cell_wrapped_in_range(*board, x - 1, y as int);
        lemma_cell_wrapped_in_range(*board, x + 1, y as int);
        lemma_cell_wrapped_in_range(*board, x - 1, y + 1);
        lemma_cell_wrapped_in_range(*board, x as int, y + 1);
        lemma_cell_wrapped_in_range(*board, x + 1, y + 1);
    }
    neighbor_sum_wide(board, x, y) as i8
}

/// Decides whether a grid can be stepped against the nine-entry rule tables:
/// true exactly when every cell's neighbor sum is at most `8`.
pub fn check_neighbor_sums_bounded(board: &Board) -> (ok: bool)
    requires
        board.wf(),
    ensures
        ok == neighbor_sums_bounded(*board),
{
    let mut y: i32 = 0;
    while y < board.cy
        invariant
            board.wf(),
            0 <= y <= board.cy,
            forall|xx: int, yy: int|
                0 <= xx < board.cx && 0 <= yy < y ==> #[trigger] neighbor_sum(*board, xx, yy)
                    <= 8,
        decreases board.cy - y,
    {
        let mut x: i32 = 0;
        while x < board.cx
            invariant
                board.wf(),
                0 <= y < board.cy,
                0 <= x <= board.cx,
                forall|xx: int, yy: int|
                    0 <= xx < board.cx && 0 <= yy < y ==> #[trigger] neighbor_sum(*board, xx, yy)
                        <= 8,
                forall|xx: int|
                    0 <= xx < x ==> #[trigger] neighbor_sum(*board, xx, y as int) <= 8,
            decreases board.cx - x,
        {
            if neighbor_sum_wide(board, x, y) > 8 {
                return false;
            }
            x = x + 1;
        }
        y = y + 1;
    }
    true
}

/// Computes one generation: replaces the grid contents with the next ones,
/// deciding every cell from the current grid alone (double buffering), and
/// keeps the dimensions.
pub fn next_step(game: &mut Board, rules: &Rules)
    requires
        old(game).wf(),
        rules.wf(),
        neighbor_sums_bounded(*old(game)),
    ensures
        final(game).wf(),
        final(game).cx == old(game).cx,
        final(game).cy == old(game).cy,
        forall|x: int, y: int|
            0 <= x < old(game).cx && 0 <= y < old(game).cy ==> final(game).cell(x, y) == next_cell(
                *old(game),
                *rules,
                x,
                y,
            ),
{
    let mut new_game_state = Board::new(game.cx, game.cy);
    let mut y: i32 = 0;
    while y < game.cy
        invariant
            *game == *old(game),
            game.wf(),
            rules.wf(),
            neighbor_sums_bounded(*game),
            new_game_state.wf(),
            new_game_state.cx == game.cx,
            new_game_state.cy == game.cy,
            0 <= y <= game.cy,
            forall|xx: int, yy: int|
                0 <= xx < game.cx && 0 <= yy < y ==> new_game_state.cell(xx, yy) == next_cell(
                    *game,
                    *rules,
                    xx,
                    yy,
                ),
        decreases game.cy - y,
    {
        let mut x: i32 = 0;
        while x < game.cx
            invariant
                *game == *old(game),
                game.wf(),
                rules.wf(),
                neighbor_sums_bounded(*game),
                new_game_state.wf(),
                new_game_state.cx == game.cx,
                new_game_state.cy == game.cy,
                0 <= y < game.cy,
                0 <= x <= game.cx,
                forall|xx: int, yy: int|
                    0 <= xx < game.cx && 0 <= yy < y ==> new_game_state.cell(xx, yy) == next_cell(
                        *game,
                        *rules,
                        xx,
                        yy,
                    ),
                forall|xx: int|
                    0 <= xx < x ==> new_game_state.cell(xx, y as int) == next_cell(
                        *game,
                        *rules,
                        xx,
                        y as int,
                    ),
            decreases game.cx - x,
        {
            proof {
                assert(neighbor_sum(*game, x as int, y as int) <= 8);
                lemma_small_mod(x as nat, game.cx as nat);
                lemma_small_mod(y as nat, game.cy as nat);
            }
            let neighbors = count_neighbors(game, x, y);
            let current = game.get_cell_at_position(x, y);
            if current > 0 {
                if rules.survive[neighbors as usize] {
                    new_game_state.set_cell_at_position(x, y, 1);
                } else {
                    new_game_state.set_cell_at_position(x, y, current);
                    new_game_state.lower_cell_lifetime(x, y, 1);
                }
            } else if rules.birth[neighbors as usize] {
                new_game_state.set_cell_at_position(x, y, rules.adding_lifetime);
            } else {
                new_game_state.set_cell_at_position(x, y, 0);
            }
            x = x + 1;
        }
        y = y + 1;
    }
    game.states = new_game_state.states;
}

} // verus!
