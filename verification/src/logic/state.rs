//! The game state this layering works on.

use vstd::prelude::*;

use crate::game::field_wf;
use crate::game::grid;
use crate::game::new_empty_field;
use crate::game::field_text;

verus! {

/// The grid of tiles, each cell either `EMPTY` or a composite tile value.
pub type Field = Vec<Vec<u16>>;

pub const FIELD_WIDTH: usize = 5;
pub const FIELD_HEIGHT: usize = 15;

/// The tile value that marks an empty cell.
pub const EMPTY: u16 = 13;

/// A search node: a board, the pieces still to place, the rows cleared so
/// far, a handle to the node it was derived from, and — one ply below the
/// root — the snapshot of the board right after the first placement.
pub struct GameState {
    /// Handle of the parent node in the search arena; `None` on the root.
    pub parent_state: Option<usize>,
    /// Board right after the first queued piece was placed, before clearing.
    pub uncleared_state: Option<Box<GameState>>,
    pub field: Field,
    pub remaining_pieces: Vec<char>,
    pub cleared_rows: u32,
}

impl GameState {
    /// Fresh state: an all-empty board, nothing cleared, no pieces queued.
    pub fn initial_game_state() -> (s: GameState)
        ensures
            field_wf(grid(s.field@)),
            forall|r: int, c: int|
                crate::game::in_field(r, c) ==> grid(s.field@)[r][c] == EMPTY,
            s.remaining_pieces@ == Seq::<char>::empty(),
            s.cleared_rows == 0,
            s.parent_state is None,
            s.uncleared_state is None,
    {
        let s = GameState {
            parent_state: None,
            uncleared_state: None,
            field: new_empty_field(),
            remaining_pieces: Vec::with_capacity(crate::game::STACK_SIZE),
            cleared_rows: 0,
        };
        proof {
            assert(s.remaining_pieces@ =~= Seq::<char>::empty());
        }
        s
    }

    /// The board drawn as letters, one row per line.
    pub fn text(&self) -> (s: String)
        requires
            field_wf(grid(self.field@)),
    {
        field_text(&self.field)
    }
}

} // verus!
