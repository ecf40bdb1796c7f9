//! Decision engine for a falling-block puzzle played with the twelve
//! pentomino shapes on a fixed 15 x 5 grid.
//!
//! The crate holds the search-and-simulation core: the piece catalog, the
//! tile-identity codec, the board model with its placement legality rule,
//! the row-clearing and gravity simulator, the heuristic evaluator and the
//! best-first lookahead search.

use vstd::prelude::*;

pub mod app;
pub mod bot;
pub mod data;
pub mod game;
pub mod logic;
pub mod pentominoes;

verus! {

/// Number of upcoming pieces the search evaluates before committing the
/// first placement.
pub const DEFAULT_LOOKAHEAD_SIZE: u8 = 5;

/// The rows of a two-dimensional vector, each row seen as a sequence.
pub open spec fn rows_view<T>(s: Seq<Vec<T>>) -> Seq<Seq<T>> {
    s.map(|i: int, row: Vec<T>| row@)
}

/// Indexing the mapped rows is indexing the vector and taking the row's view.
pub broadcast proof fn lemma_rows_view_index<T>(s: Seq<Vec<T>>, r: int)
    requires
        0 <= r < s.len(),
    ensures
        rows_view(s)[r] == (#[trigger] s[r])@,
{
}

} // verus!
