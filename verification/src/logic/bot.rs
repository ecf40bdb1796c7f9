//! The evaluator of this layering: the same simulator and scoring as the
//! primary one, on its own state type.

use vstd::prelude::*;

use crate::bot::heuristic::heuristic_spec;
use crate::bot::heuristic::score_settled;
use crate::game;
use crate::game::IdManager;
use crate::game::field_wf;
use crate::game::grid;
use crate::logic::state::GameState;

verus! {

/// Runs the clear-and-settle simulator on the state and scores the settled
/// board: the clear reward plus, for every cell, the row's weight — earned
/// for an empty cell, forfeited for an occupied one.
pub fn heuristic(state: &mut GameState, id_manager: &mut IdManager) -> (score: i32)
    requires
        field_wf(grid(old(state).field@)),
        old(id_manager).wf(),
        old(state).cleared_rows <= u32::MAX - 16,
    ensures
        field_wf(grid(final(state).field@)),
        final(id_manager).wf(),
        final(state).remaining_pieces == old(state).remaining_pieces,
        final(state).parent_state == old(state).parent_state,
        final(state).uncleared_state == old(state).uncleared_state,
        final(state).cleared_rows >= old(state).cleared_rows,
        final(state).cleared_rows - old(state).cleared_rows <= 15,
        final(state).cleared_rows - old(state).cleared_rows >= game::full_row_count(
            grid(old(state).field@),
        ),
        game::count_occupied(grid(final(state).field@)) + 5 * (final(state).cleared_rows - old(
            state,
        ).cleared_rows) == game::count_occupied(grid(old(state).field@)),
        game::simulator_stable(grid(old(state).field@)) ==> grid(final(state).field@) == grid(
            old(state).field@,
        ) && final(state).cleared_rows == old(state).cleared_rows && final(id_manager)@ == old(
            id_manager,
        )@,
        game::gravity_stable(grid(final(state).field@)),
        score as int == heuristic_spec(
            grid(final(state).field@),
            (final(state).cleared_rows - old(state).cleared_rows) as u32,
        ),
{
    let cleared_rows = game::run_simulator(&mut state.field, id_manager);
    state.cleared_rows = state.cleared_rows + cleared_rows;
    score_settled(&state.field, cleared_rows)
}

} // verus!
