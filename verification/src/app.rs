//! The session around the engine: one board played turn by turn, with a
//! buffer of animation frames for a display to drain.

use std::collections::VecDeque;
use vstd::prelude::*;

use crate::bot;
use crate::game;
use crate::game::GameField;
use crate::game::IdManager;
use crate::game::NextShapes;
use crate::game::State;
use crate::game::copy_chars;
use crate::game::copy_field;
use crate::game::field_wf;
use crate::game::grid;
use crate::pentominoes;
use crate::pentominoes::Permutations;
use crate::pentominoes::Shape;
use crate::pentominoes::catalog_wf;
use crate::pentominoes::spec_char_to_id;

verus! {

pub const DEFAULT_DELAY_MS: u16 = 350;

/// A running game: the authoritative state, the engine's collaborators, and
/// the frames the display has not drawn yet.
pub struct App {
    pub game_state: State,
    lookahead_size: u8,
    pentomino_permutations: Permutations,
    id_manager: IdManager,
    next_up: NextShapes,
    pub delay_ms: u16,
    current_frame: Option<GameField>,
    frame_buffer: VecDeque<GameField>,
    pub is_bot_paused: bool,
}

impl App {
    /// The session's standing invariant: a well-formed board, a well-formed
    /// catalog and allocator, a piece supplier matched to the lookahead
    /// length, and only well-formed boards in the frame buffer.
    pub closed spec fn wf(&self) -> bool {
        &&& field_wf(grid(self.game_state.field@))
        &&& self.id_manager.wf()
        &&& catalog_wf(self.pentomino_permutations@)
        &&& self.next_up.wf()
        &&& self.next_up.spec_stack_size() == self.lookahead_size as int
        &&& self.lookahead_size >= 1
        &&& match self.current_frame {
            Some(f) => field_wf(grid(f@)),
            None => true,
        }
        &&& forall|k: int|
            0 <= k < self.frame_buffer@.len() ==> field_wf(
                grid((#[trigger] self.frame_buffer@[k])@),
            )
    }

    /// The authoritative state, for contracts.
    pub closed spec fn spec_game_state(&self) -> State {
        self.game_state
    }

    /// The piece catalog the session searches over, for contracts.
    pub closed spec fn spec_catalog(&self) -> Seq<Vec<Shape>> {
        self.pentomino_permutations@
    }

    /// The configured lookahead length, for contracts.
    pub closed spec fn spec_lookahead_size(&self) -> int {
        self.lookahead_size as int
    }

    pub fn new(lookahead_size: u8) -> (app: App)
        requires
            lookahead_size >= 1,
        ensures
            app.wf(),
            app.spec_game_state().cleared_rows == 0,
    {
        App {
            game_state: State::new(lookahead_size),
            lookahead_size,
            pentomino_permutations: pentominoes::load_permutations(),
            id_manager: IdManager::default(),
            next_up: NextShapes::new(lookahead_size),
            delay_ms: DEFAULT_DELAY_MS,
            current_frame: None,
            frame_buffer: VecDeque::new(),
            is_bot_paused: false,
        }
    }

    /// One turn: draws the next lookahead window from the piece supplier,
    /// searches for the best placement of its first piece, and commits the
    /// winning board — the one with that piece placed, before clearing.
    /// `None` is the game-over signal: no legal continuation existed, and
    /// the last decided board stays authoritative. With a lookahead of one,
    /// `None` comes only when the drawn piece truly has no legal placement.
    pub fn bot_search(&mut self) -> (r: Option<GameField>)
        requires
            old(self).wf(),
            old(self).spec_game_state().cleared_rows <= u32::MAX - 16 - 15 * 256,
        ensures
            final(self).wf(),
            final(self).spec_catalog() == old(self).spec_catalog(),
            final(self).spec_lookahead_size() == old(self).spec_lookahead_size(),
            final(self).spec_game_state().remaining_pieces@.len() == old(
                self,
            ).spec_lookahead_size(),
            final(self).spec_game_state().cleared_rows == old(self).spec_game_state().cleared_rows,
            r is None && old(self).spec_lookahead_size() == 1 ==> !bot::any_legal(
                grid(old(self).spec_game_state().field@),
                old(self).spec_catalog(),
                spec_char_to_id(final(self).spec_game_state().remaining_pieces@[0]) as int,
            ),
            match r {
                Some(f) => field_wf(grid(f@)) && grid(f@) == grid(
                    final(self).spec_game_state().field@,
                ),
                None => grid(final(self).spec_game_state().field@) == grid(
                    old(self).spec_game_state().field@,
                ),
            },
            r is Some ==> exists|v: int, row: int, col: int, tile: u16|
                bot::legal_placement(
                    grid(old(self).spec_game_state().field@),
                    old(self).spec_catalog(),
                    spec_char_to_id(final(self).spec_game_state().remaining_pieces@[0]) as int,
                    v,
                    row,
                    col,
                ) && game::spec_pent_id(tile) == spec_char_to_id(
                    final(self).spec_game_state().remaining_pieces@[0],
                ) && tile != game::EMPTY && grid(final(self).spec_game_state().field@)
                    == #[trigger] bot::placed_grid(
                    grid(old(self).spec_game_state().field@),
                    crate::pentominoes::shape(
                        old(self).spec_catalog()[spec_char_to_id(
                            final(self).spec_game_state().remaining_pieces@[0],
                        ) as int]@[v],
                    ),
                    row,
                    col,
                    tile,
                ),
    {
        self.game_state.remaining_pieces = self.next_up.get_next_stack();

        let root = State {
            parent_state: self.game_state.parent_state,
            uncleared_state: None,
            field: copy_field(&self.game_state.field),
            remaining_pieces: copy_chars(&self.game_state.remaining_pieces),
            cleared_rows: self.game_state.cleared_rows,
        };
        let lookahead_size = self.lookahead_size;

        let ghost root_g = root;
        match bot::search(
            root,
            &self.pentomino_permutations,
            &mut self.id_manager,
            &lookahead_size,
        ) {
            Some(solution) => {
                proof {
                    reveal(bot::placed_as);
                    let perms = self.pentomino_permutations@;
                    let p = spec_char_to_id(root_g.remaining_pieces@[0]) as int;
                    let (v, row, col, tile) = choose|v: int, row: int, col: int, tile: u16|
                        #[trigger] bot::placed_as(solution, root_g, perms, p, v, row, col, tile);
                    assert(bot::legal_placement(
                        grid(root_g.field@),
                        perms,
                        p,
                        v,
                        row,
                        col,
                    ));
                }
                let solution_field = copy_field(&solution.field);
                self.game_state = solution;
                Some(solution_field)
            },
            None => None,
        }
    }

    /// Runs the clear-and-settle simulator on the committed board, recording
    /// every intermediate board, and readies the frame buffer: duplicate
    /// frames are dropped (first occurrence kept) and the first frame is
    /// promoted to the current one.
    pub fn prepare_frames(&mut self)
        requires
            old(self).wf(),
            old(self).spec_game_state().cleared_rows <= u32::MAX - 16,
        ensures
            final(self).wf(),
            final(self).spec_game_state().cleared_rows >= old(self).spec_game_state().cleared_rows,
            final(self).spec_game_state().cleared_rows - old(self).spec_game_state().cleared_rows
                <= 15,
            final(self).spec_game_state().cleared_rows - old(self).spec_game_state().cleared_rows
                >= game::full_row_count(grid(old(self).spec_game_state().field@)),
            game::gravity_stable(grid(final(self).spec_game_state().field@)),
    {
        game::animate_update(
            &mut self.game_state.field,
            &mut self.id_manager,
            true,
            0,
            &mut self.game_state.cleared_rows,
            &mut self.frame_buffer,
        );

        let ghost mid = *self;
        let mut deduped: VecDeque<GameField> = VecDeque::new();
        loop
            invariant
                self.game_state == mid.game_state,
                self.id_manager == mid.id_manager,
                self.pentomino_permutations == mid.pentomino_permutations,
                self.next_up == mid.next_up,
                self.lookahead_size == mid.lookahead_size,
                self.current_frame == mid.current_frame,
                forall|k: int|
                    0 <= k < self.frame_buffer@.len() ==> field_wf(
                        grid((#[trigger] self.frame_buffer@[k])@),
                    ),
                forall|k: int|
                    0 <= k < deduped@.len() ==> field_wf(grid((#[trigger] deduped@[k])@)),
            decreases self.frame_buffer@.len(),
        {
            let next = match self.frame_buffer.pop_front() {
                Some(f) => f,
                None => {
                    break ;
                },
            };
            let mut seen = false;
            let deduped_len = deduped.len();
            for i in 0..deduped_len
                invariant
                    deduped_len == deduped@.len(),
                    forall|k: int|
                        0 <= k < deduped@.len() ==> field_wf(grid((#[trigger] deduped@[k])@)),
            {
                if deduped[i] == next {
                    seen = true;
                }
            }
            if !seen {
                deduped.push_back(next);
            }
        }
        self.frame_buffer = deduped;

        self.current_frame = self.frame_buffer.pop_front();
    }

    /// Promotes the next buffered frame; after the last one the current
    /// frame empties out.
    pub fn advance_frame(&mut self)
        requires
            old(self).wf(),
        ensures
            final(self).wf(),
            final(self).spec_game_state() == old(self).spec_game_state(),
    {
        self.current_frame = self.frame_buffer.pop_front();
    }

    /// Whether every buffered frame has been drawn.
    pub fn frames_exhausted(&self) -> bool {
        self.frame_buffer.len() == 0
    }

    /// The frame a display should draw now, if any.
    pub fn frame_to_draw(&self) -> (f: &Option<GameField>)
        requires
            self.wf(),
        ensures
            match f {
                Some(frame) => field_wf(grid(frame@)),
                None => true,
            },
    {
        &self.current_frame
    }
}

} // verus!
