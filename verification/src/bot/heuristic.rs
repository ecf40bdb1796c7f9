//! The heuristic evaluator: scores a board after running the clear-and-settle
//! simulator on it, rewarding cleared rows and penalizing material near the
//! top of the board.

use vstd::prelude::*;

use crate::game;
use crate::game::EMPTY;
use crate::game::FIELD_HEIGHT;
use crate::game::FIELD_WIDTH;
use crate::game::GameField;
use crate::game::IdManager;
use crate::game::State;
use crate::game::field_wf;
use crate::game::grid;

verus! {

broadcast use crate::lemma_rows_view_index;

/// The reward for the rows cleared in the transition that produced the
/// board. With at most fifteen rows cleared at once, the exclusive-or
/// against the tuning constant adds the clear count to it outright, so more
/// clears strictly increase the reward.
pub open spec fn clear_bonus(cleared: u32) -> int {
    ((cleared as i32) ^ ((4 * 9000) as i32)) as int
}

/// The bonus is the tuning constant plus the clear count: strictly
/// increasing in the number of cleared rows.
pub proof fn lemma_clear_bonus(cleared: u32)
    by (bit_vector)
    ensures
        cleared <= 15 ==> clear_bonus(cleared) == 36000 + cleared,
{
}

/// The score weight of one cell in row `r`: cells near the top of the board
/// weigh more than cells near the floor.
pub open spec fn row_weight(r: int) -> int {
    (((12 * FIELD_HEIGHT as int / (r + 1)) as i32) << 13) as int
}

proof fn lemma_row_weight_bounds(r: int)
    requires
        0 <= r < FIELD_HEIGHT,
    ensures
        0 <= row_weight(r) <= 1474560,
{
    let q = 12 * FIELD_HEIGHT as int / (r + 1);
    vstd::arithmetic::div_mod::lemma_div_pos_is_pos(12 * FIELD_HEIGHT as int, r + 1);
    vstd::arithmetic::div_mod::lemma_div_nonincreasing(12 * FIELD_HEIGHT as int, r + 1);
    let qi: i32 = q as i32;
    assert(0 <= qi << 13 <= 1474560) by (bit_vector)
        requires 0 <= qi <= 180i32;
}

/// Sum of the cell terms of row `r` in the columns from `c` rightwards: an
/// occupied cell costs the row's weight, an empty cell earns it.
pub open spec fn score_in_row(g: Seq<Seq<u16>>, r: int, c: int) -> int
    decreases FIELD_WIDTH - c when c <= FIELD_WIDTH
{
    if c < 0 || c >= FIELD_WIDTH {
        0
    } else {
        (if g[r][c] != EMPTY {
            -row_weight(r)
        } else {
            row_weight(r)
        }) + score_in_row(g, r, c + 1)
    }
}

/// Sum of the cell terms of the rows from `r` down.
pub open spec fn score_from_row(g: Seq<Seq<u16>>, r: int) -> int
    decreases FIELD_HEIGHT - r when r <= FIELD_HEIGHT
{
    if r < 0 || r >= FIELD_HEIGHT {
        0
    } else {
        score_in_row(g, r, 0) + score_from_row(g, r + 1)
    }
}

/// The per-cell part of the score, over the whole board.
pub open spec fn board_score(g: Seq<Seq<u16>>) -> int {
    score_from_row(g, 0)
}

/// What the evaluator returns for a settled board and a clear count.
pub open spec fn heuristic_spec(g: Seq<Seq<u16>>, cleared: u32) -> int {
    clear_bonus(cleared) + board_score(g)
}

proof fn lemma_score_in_row_bounds(g: Seq<Seq<u16>>, r: int, c: int)
    requires
        0 <= r < FIELD_HEIGHT,
        0 <= c <= FIELD_WIDTH,
    ensures
        -((FIELD_WIDTH - c) * 1474560) <= score_in_row(g, r, c) <= (FIELD_WIDTH - c) * 1474560,
    decreases FIELD_WIDTH - c,
{
    if c < FIELD_WIDTH {
        lemma_score_in_row_bounds(g, r, c + 1);
        lemma_row_weight_bounds(r);
    }
}

proof fn lemma_score_rows_bounds(g: Seq<Seq<u16>>, r: int)
    requires
        0 <= r <= FIELD_HEIGHT,
    ensures
        -((FIELD_HEIGHT - r) * 7372800) <= score_from_row(g, r) <= (FIELD_HEIGHT - r) * 7372800,
    decreases FIELD_HEIGHT - r,
{
    if r < FIELD_HEIGHT {
        lemma_score_rows_bounds(g, r + 1);
        lemma_score_in_row_bounds(g, r, 0);
    }
}

/// Scores a settled board against the rows cleared on the way to it: the
/// clear reward plus, for every cell, the row's weight — earned for an empty
/// cell, forfeited for an occupied one.
#[verifier::loop_isolation(false)]
pub fn score_settled(field: &GameField, cleared_rows: u32) -> (score: i32)
    requires
        field_wf(grid(field@)),
        cleared_rows <= 15,
    ensures
        score as int == heuristic_spec(grid(field@), cleared_rows),
{
    let mut score: i32 = 0;
    let mut penalize_top: i32;

    proof {
        lemma_clear_bonus(cleared_rows);
    }
    score += (cleared_rows as i32) ^ (4 * 9000);
    proof {
        assert(score as int == clear_bonus(cleared_rows));
    }

    let ghost g = grid(field@);
    for row in 0..FIELD_HEIGHT
        invariant
            score as int == clear_bonus(cleared_rows) + (score_from_row(g, 0) - score_from_row(
                g,
                row as int,
            )),
    {
        proof {
            lemma_score_rows_bounds(g, 0);
            lemma_score_rows_bounds(g, row as int);
            lemma_score_in_row_bounds(g, row as int, 0);
            lemma_row_weight_bounds(row as int);
        }
        // score bias towards bottom rows
        penalize_top = (12 * FIELD_HEIGHT as i32 / (row as i32 + 1)) << 13;

        for col in 0..FIELD_WIDTH
            invariant
                penalize_top == row_weight(row as int),
                score as int == clear_bonus(cleared_rows) + (score_from_row(g, 0) - score_from_row(
                    g,
                    row as int,
                )) + (score_in_row(g, row as int, 0) - score_in_row(g, row as int, col as int)),
        {
            proof {
                lemma_score_rows_bounds(g, 0);
                lemma_score_rows_bounds(g, row as int);
                lemma_score_in_row_bounds(g, row as int, 0);
                lemma_score_in_row_bounds(g, row as int, col as int);
                lemma_score_in_row_bounds(g, row as int, col + 1);
                lemma_row_weight_bounds(row as int);
            }
            if field[row][col] != EMPTY {
                score -= penalize_top;
            } else {
                score += penalize_top;
            }
        }
    }
    score
}

/// Runs the clear-and-settle simulator on the state and scores the settled
/// board.
pub fn apply(state: &mut State, id_manager: &mut IdManager) -> (score: i32)
    requires
        field_wf(grid(old(state).field@)),
        old(id_manager).wf(),
        old(state).cleared_rows <= u32::MAX - 16,
    ensures
        field_wf(grid(final(state).field@)),
        final(id_manager).wf(),
        final(state).remaining_pieces == old(state).remaining_pieces,
        final(state).parent_state == old(state).parent_state,
        final(state).uncleared_state == old(state).uncleared_state,
        final(state).cleared_rows >= old(state).cleared_rows,
        final(state).cleared_rows - old(state).cleared_rows <= 15,
        final(state).cleared_rows - old(state).cleared_rows >= game::full_row_count(
            grid(old(state).field@),
        ),
        game::count_occupied(grid(final(state).field@)) + 5 * (final(state).cleared_rows - old(
            state,
        ).cleared_rows) == game::count_occupied(grid(old(state).field@)),
        game::simulator_stable(grid(old(state).field@)) ==> grid(final(state).field@) == grid(
            old(state).field@,
        ) && final(state).cleared_rows == old(state).cleared_rows && final(id_manager)@ == old(
            id_manager,
        )@,
        game::gravity_stable(grid(final(state).field@)),
        score as int == heuristic_spec(
            grid(final(state).field@),
            (final(state).cleared_rows - old(state).cleared_rows) as u32,
        ),
{
    let cleared_rows = game::update(state, id_manager, 0, true);
    score_settled(&state.field, cleared_rows)
}

} // verus!
