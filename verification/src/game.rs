//! Board model, tile-identity codec and the clear-and-settle simulator.

use std::collections::VecDeque;
use vstd::prelude::*;

mod id_manager;
mod next_shapes;
mod state;

pub use crate::game::id_manager::IdManager;
pub use crate::game::id_manager::ID_SPACE;
pub use crate::game::id_manager::first_free;
pub use crate::game::id_manager::lemma_first_free;
pub use crate::game::id_manager::lemma_first_free_finds;
pub use crate::game::next_shapes::NextShapes;
pub use crate::game::next_shapes::valid_piece_char;
pub use crate::game::state::GameField;
pub use crate::game::state::State;
pub use crate::game::state::chars_equal;
pub use crate::game::state::copy_chars;
pub use crate::game::state::field_text;
pub use crate::game::state::new_empty_field;
pub use crate::game::state::copy_field;

use crate::rows_view;

verus! {

broadcast use crate::lemma_rows_view_index;

pub const FIELD_WIDTH: usize = 5;
pub const FIELD_HEIGHT: usize = 15;

/// The tile value that marks an empty cell.
pub const EMPTY: u16 = 13;

/// Default length of the lookahead queue handed to the search.
pub const STACK_SIZE: usize = 4;

// ---------------------------------------------------------------------------
// Spec model of a board
// ---------------------------------------------------------------------------

/// The board a `GameField` holds, as a sequence of rows.
pub open spec fn grid(f: Seq<Vec<u16>>) -> Seq<Seq<u16>> {
    rows_view(f)
}

/// A board with the fixed dimensions of the game.
pub open spec fn field_wf(g: Seq<Seq<u16>>) -> bool {
    &&& g.len() == FIELD_HEIGHT
    &&& forall|r: int| 0 <= r < g.len() ==> (#[trigger] g[r]).len() == FIELD_WIDTH
}

pub open spec fn in_field(r: int, c: int) -> bool {
    0 <= r < FIELD_HEIGHT && 0 <= c < FIELD_WIDTH
}

/// Every cell of row `r` is occupied.
pub open spec fn row_full(g: Seq<Seq<u16>>, r: int) -> bool {
    forall|c: int| 0 <= c < FIELD_WIDTH ==> #[trigger] g[r][c] != EMPTY
}

/// Some 4-neighbor of `(r, c)` is occupied and carries the instance id `uid`.
pub open spec fn neighbor_matches(g: Seq<Seq<u16>>, r: int, c: int, uid: u16) -> bool {
    ||| (r > 0 && g[r - 1][c] != EMPTY && spec_unique_id(g[r - 1][c]) == uid)
    ||| (r + 1 < FIELD_HEIGHT && g[r + 1][c] != EMPTY && spec_unique_id(g[r + 1][c]) == uid)
    ||| (c > 0 && g[r][c - 1] != EMPTY && spec_unique_id(g[r][c - 1]) == uid)
    ||| (c + 1 < FIELD_WIDTH && g[r][c + 1] != EMPTY && spec_unique_id(g[r][c + 1]) == uid)
}

/// Some cell of the piece with tile value `v` rests on the floor or on a
/// cell of a different piece.
pub open spec fn piece_settled(g: Seq<Seq<u16>>, v: u16) -> bool {
    exists|r: int, c: int|
        in_field(r, c) && #[trigger] g[r][c] == v && (r == FIELD_HEIGHT - 1 || (g[r + 1][c]
            != EMPTY && g[r + 1][c] != v))
}

/// No piece can be shifted down one row without colliding with the floor or
/// with a different piece.
pub open spec fn gravity_stable(g: Seq<Seq<u16>>) -> bool {
    forall|r: int, c: int|
        in_field(r, c) && #[trigger] g[r][c] != EMPTY ==> piece_settled(g, g[r][c])
}

/// A board the simulator leaves untouched: no full row, every occupied cell
/// still touches a cell with its instance id, and nothing can fall.
pub open spec fn simulator_stable(g: Seq<Seq<u16>>) -> bool {
    &&& forall|r: int| 0 <= r < FIELD_HEIGHT ==> !row_full(g, r)
    &&& forall|r: int, c: int|
        in_field(r, c) && #[trigger] g[r][c] != EMPTY ==> neighbor_matches(
            g,
            r,
            c,
            spec_unique_id(g[r][c]),
        )
    &&& gravity_stable(g)
}

/// No other occupied cell of the board carries the instance id of `(r, c)`.
pub open spec fn uid_unique(g: Seq<Seq<u16>>, r: int, c: int) -> bool {
    forall|r2: int, c2: int|
        in_field(r2, c2) && (r2 != r || c2 != c) && #[trigger] g[r2][c2] != EMPTY
            ==> spec_unique_id(g[r2][c2]) != spec_unique_id(g[r][c])
}

/// Every occupied cell either touches a cell carrying its instance id or is
/// the only cell on the board with that id: no cell is stranded sharing an
/// id with cells it cannot reach.
pub open spec fn identity_locally_sound(g: Seq<Seq<u16>>) -> bool {
    forall|r: int, c: int|
        in_field(r, c) && #[trigger] g[r][c] != EMPTY ==> neighbor_matches(
            g,
            r,
            c,
            spec_unique_id(g[r][c]),
        ) || uid_unique(g, r, c)
}

/// No row of the board is full.
pub open spec fn no_full_rows(g: Seq<Seq<u16>>) -> bool {
    forall|r: int| 0 <= r < FIELD_HEIGHT ==> !row_full(g, r)
}

/// Every instance id on the board is marked used in the allocator.
pub open spec fn board_ids_used(g: Seq<Seq<u16>>, used: Seq<bool>) -> bool {
    forall|r: int, c: int|
        in_field(r, c) && #[trigger] g[r][c] != EMPTY ==> used[spec_unique_id(g[r][c]) as int]
}

/// The upper half of the id space is untouched: room enough that a pass
/// never exhausts a residue class.
pub open spec fn pool_headroom(used: Seq<bool>) -> bool {
    forall|i: int| 2048 <= i < ID_SPACE ==> !used[i]
}

/// The instance-id half of a tile value fits in twelve bits.
pub proof fn lemma_unique_id_bound(composite_id: u16)
    by (bit_vector)
    ensures
        spec_unique_id(composite_id) < 4096,
{
}

// ---------------------------------------------------------------------------
// Counting occupied cells
// ---------------------------------------------------------------------------

/// Occupied cells of column `c` in the rows from `r` down.
pub open spec fn occupied_in_col_from(g: Seq<Seq<u16>>, c: int, r: int) -> nat
    decreases FIELD_HEIGHT - r when r <= FIELD_HEIGHT
{
    if r < 0 || r >= FIELD_HEIGHT {
        0
    } else {
        (if g[r][c] != EMPTY {
            1nat
        } else {
            0nat
        }) + occupied_in_col_from(g, c, r + 1)
    }
}

/// Occupied cells in the columns from `c` rightwards.
pub open spec fn occupied_from_col(g: Seq<Seq<u16>>, c: int) -> nat
    decreases FIELD_WIDTH - c when c <= FIELD_WIDTH
{
    if c < 0 || c >= FIELD_WIDTH {
        0
    } else {
        occupied_in_col_from(g, c, 0) + occupied_from_col(g, c + 1)
    }
}

/// Number of occupied cells on the board.
pub open spec fn count_occupied(g: Seq<Seq<u16>>) -> nat {
    occupied_from_col(g, 0)
}

/// How far the occupied cells of column `c`, in the rows from `r` down, are
/// above the floor in total. Gravity strictly shrinks this quantity.
pub open spec fn height_in_col_from(g: Seq<Seq<u16>>, c: int, r: int) -> nat
    decreases FIELD_HEIGHT - r when r <= FIELD_HEIGHT
{
    if r < 0 || r >= FIELD_HEIGHT {
        0
    } else {
        (if g[r][c] != EMPTY {
            (FIELD_HEIGHT - 1 - r) as nat
        } else {
            0nat
        }) + height_in_col_from(g, c, r + 1)
    }
}

pub open spec fn height_from_col(g: Seq<Seq<u16>>, c: int) -> nat
    decreases FIELD_WIDTH - c when c <= FIELD_WIDTH
{
    if c < 0 || c >= FIELD_WIDTH {
        0
    } else {
        height_in_col_from(g, c, 0) + height_from_col(g, c + 1)
    }
}

/// Total height of the occupied cells above the floor.
pub open spec fn total_height(g: Seq<Seq<u16>>) -> nat {
    height_from_col(g, 0)
}

proof fn lemma_col_counts_congruent(g1: Seq<Seq<u16>>, g2: Seq<Seq<u16>>, c: int, r: int)
    requires
        r <= FIELD_HEIGHT,
        forall|rr: int| r <= rr < FIELD_HEIGHT ==> #[trigger] g1[rr][c] == g2[rr][c],
    ensures
        occupied_in_col_from(g1, c, r) == occupied_in_col_from(g2, c, r),
        height_in_col_from(g1, c, r) == height_in_col_from(g2, c, r),
    decreases FIELD_HEIGHT - r,
{
    if 0 <= r < FIELD_HEIGHT {
        lemma_col_counts_congruent(g1, g2, c, r + 1);
    }
}

proof fn lemma_col_counts_update(g1: Seq<Seq<u16>>, g2: Seq<Seq<u16>>, c: int, r: int, r0: int)
    requires
        0 <= r <= r0 < FIELD_HEIGHT,
        forall|rr: int| r <= rr < FIELD_HEIGHT && rr != r0 ==> #[trigger] g1[rr][c] == g2[rr][c],
    ensures
        occupied_in_col_from(g2, c, r) + (if g1[r0][c] != EMPTY { 1nat } else { 0nat })
            == occupied_in_col_from(g1, c, r) + (if g2[r0][c] != EMPTY { 1nat } else { 0nat }),
        height_in_col_from(g2, c, r) + (if g1[r0][c] != EMPTY { (FIELD_HEIGHT - 1 - r0) as nat } else { 0nat })
            == height_in_col_from(g1, c, r) + (if g2[r0][c] != EMPTY { (FIELD_HEIGHT - 1 - r0) as nat } else { 0nat }),
    decreases FIELD_HEIGHT - r,
{
    if r == r0 {
        lemma_col_counts_congruent(g1, g2, c, r + 1);
    } else {
        lemma_col_counts_update(g1, g2, c, r + 1, r0);
    }
}

proof fn lemma_cols_counts_update(g1: Seq<Seq<u16>>, g2: Seq<Seq<u16>>, c: int, r0: int, c0: int)
    requires
        0 <= c <= FIELD_WIDTH,
        in_field(r0, c0),
        forall|rr: int, cc: int|
            in_field(rr, cc) && (rr != r0 || cc != c0) ==> #[trigger] g1[rr][cc] == g2[rr][cc],
    ensures
        c <= c0 ==> occupied_from_col(g2, c) + (if g1[r0][c0] != EMPTY { 1nat } else { 0nat })
            == occupied_from_col(g1, c) + (if g2[r0][c0] != EMPTY { 1nat } else { 0nat }),
        c <= c0 ==> height_from_col(g2, c) + (if g1[r0][c0] != EMPTY { (FIELD_HEIGHT - 1 - r0) as nat } else { 0nat })
            == height_from_col(g1, c) + (if g2[r0][c0] != EMPTY { (FIELD_HEIGHT - 1 - r0) as nat } else { 0nat }),
        c > c0 ==> occupied_from_col(g2, c) == occupied_from_col(g1, c),
        c > c0 ==> height_from_col(g2, c) == height_from_col(g1, c),
    decreases FIELD_WIDTH - c,
{
    if c < FIELD_WIDTH {
        lemma_cols_counts_update(g1, g2, c + 1, r0, c0);
        if c == c0 {
            lemma_col_counts_update(g1, g2, c, 0, r0);
        } else {
            lemma_col_counts_congruent(g1, g2, c, 0);
        }
    }
}

/// A single changed cell moves the board's occupancy count and total height
/// by that cell's own contribution alone.
pub proof fn lemma_counts_cell_update(g1: Seq<Seq<u16>>, g2: Seq<Seq<u16>>, r0: int, c0: int)
    requires
        in_field(r0, c0),
        forall|rr: int, cc: int|
            in_field(rr, cc) && (rr != r0 || cc != c0) ==> #[trigger] g1[rr][cc] == g2[rr][cc],
    ensures
        count_occupied(g2) + (if g1[r0][c0] != EMPTY { 1nat } else { 0nat })
            == count_occupied(g1) + (if g2[r0][c0] != EMPTY { 1nat } else { 0nat }),
        total_height(g2) + (if g1[r0][c0] != EMPTY { (FIELD_HEIGHT - 1 - r0) as nat } else { 0nat })
            == total_height(g1) + (if g2[r0][c0] != EMPTY { (FIELD_HEIGHT - 1 - r0) as nat } else { 0nat }),
{
    lemma_cols_counts_update(g1, g2, 0, r0, c0);
}

/// A single changed cell moves only its own column's occupancy count, and
/// that by the cell's own contribution.
pub proof fn lemma_col_occupied_cell_update(g1: Seq<Seq<u16>>, g2: Seq<Seq<u16>>, r0: int, c0: int)
    requires
        in_field(r0, c0),
        forall|rr: int, cc: int|
            in_field(rr, cc) && (rr != r0 || cc != c0) ==> #[trigger] g1[rr][cc] == g2[rr][cc],
    ensures
        forall|c: int|
            0 <= c < FIELD_WIDTH && c != c0 ==> #[trigger] occupied_in_col_from(g2, c, 0)
                == occupied_in_col_from(g1, c, 0),
        occupied_in_col_from(g2, c0, 0) + (if g1[r0][c0] != EMPTY {
            1nat
        } else {
            0nat
        }) == occupied_in_col_from(g1, c0, 0) + (if g2[r0][c0] != EMPTY {
            1nat
        } else {
            0nat
        }),
{
    assert forall|c: int|
        0 <= c < FIELD_WIDTH && c != c0 implies #[trigger] occupied_in_col_from(g2, c, 0)
        == occupied_in_col_from(g1, c, 0) by {
        lemma_col_counts_congruent(g1, g2, c, 0);
    }
    lemma_col_counts_update(g1, g2, c0, 0, r0);
}

/// Emptying exactly the full rows takes the same toll from every column:
/// one cell per cleared row.
proof fn lemma_col_count_after_clears(g1: Seq<Seq<u16>>, g2: Seq<Seq<u16>>, c: int, r: int)
    requires
        0 <= c < FIELD_WIDTH,
        0 <= r <= FIELD_HEIGHT,
        forall|rr: int|
            r <= rr < FIELD_HEIGHT ==> ((#[trigger] g2[rr][c]) == EMPTY <==> g1[rr][c] == EMPTY
                || row_full(g1, rr)),
    ensures
        occupied_in_col_from(g2, c, r) + full_rows_from(g1, r) == occupied_in_col_from(g1, c, r),
    decreases FIELD_HEIGHT - r,
{
    if r < FIELD_HEIGHT {
        lemma_col_count_after_clears(g1, g2, c, r + 1);
    }
}

proof fn lemma_col_count_bound(g: Seq<Seq<u16>>, c: int, r: int)
    requires
        0 <= r <= FIELD_HEIGHT,
    ensures
        occupied_in_col_from(g, c, r) <= FIELD_HEIGHT - r,
    decreases FIELD_HEIGHT - r,
{
    if r < FIELD_HEIGHT {
        lemma_col_count_bound(g, c, r + 1);
    }
}

proof fn lemma_cols_count_bound(g: Seq<Seq<u16>>, c: int)
    requires
        0 <= c <= FIELD_WIDTH,
    ensures
        occupied_from_col(g, c) <= (FIELD_WIDTH - c) * FIELD_HEIGHT,
    decreases FIELD_WIDTH - c,
{
    if c < FIELD_WIDTH {
        lemma_cols_count_bound(g, c + 1);
        lemma_col_count_bound(g, c, 0);
    }
}

/// The board never holds more occupied cells than it has cells.
pub proof fn lemma_count_occupied_bound(g: Seq<Seq<u16>>)
    ensures
        count_occupied(g) <= FIELD_WIDTH * FIELD_HEIGHT,
{
    lemma_cols_count_bound(g, 0);
}

// ---------------------------------------------------------------------------
// Counting full rows
// ---------------------------------------------------------------------------

/// Number of full rows at `r` or below it on the board.
pub open spec fn full_rows_from(g: Seq<Seq<u16>>, r: int) -> nat
    decreases FIELD_HEIGHT - r when r <= FIELD_HEIGHT
{
    if r < 0 || r >= FIELD_HEIGHT {
        0
    } else {
        (if row_full(g, r) {
            1nat
        } else {
            0nat
        }) + full_rows_from(g, r + 1)
    }
}

/// Number of full rows on the board.
pub open spec fn full_row_count(g: Seq<Seq<u16>>) -> nat {
    full_rows_from(g, 0)
}

pub proof fn lemma_full_rows_bound(g: Seq<Seq<u16>>, r: int)
    requires
        0 <= r <= FIELD_HEIGHT,
    ensures
        full_rows_from(g, r) <= FIELD_HEIGHT - r,
    decreases FIELD_HEIGHT - r,
{
    if r < FIELD_HEIGHT {
        lemma_full_rows_bound(g, r + 1);
    }
}

// ---------------------------------------------------------------------------
// Tile-identity codec
// ---------------------------------------------------------------------------

/// The composite tile value packing a piece type and an instance id.
pub open spec fn spec_composite_id(pent_id: u8, unique_id: u16) -> u16 {
    ((pent_id as u16) << 12) | (unique_id & 0x0FFF)
}

/// The piece-type half of a tile value.
pub open spec fn spec_pent_id(composite_id: u16) -> u8 {
    (composite_id >> 12) as u8
}

/// The instance-id half of a tile value.
pub open spec fn spec_unique_id(composite_id: u16) -> u16 {
    composite_id & 0x0FFF
}

/// The two halves of a composite tile value decode to what was packed, and a
/// tile whose instance id is congruent to its piece type modulo 12 — the only
/// kind the allocator produces — never collides with the empty marker.
pub proof fn lemma_composite_id(pent_id: u8, unique_id: u16)
    by (bit_vector)
    ensures
        pent_id < 16 ==> spec_pent_id(spec_composite_id(pent_id, unique_id)) == pent_id,
        spec_unique_id(spec_composite_id(pent_id, unique_id)) == unique_id & 0x0FFF,
        unique_id < 4096 ==> spec_unique_id(spec_composite_id(pent_id, unique_id)) == unique_id,
        (pent_id % 12) as u16 == unique_id % 12 && unique_id < 4096 ==> spec_composite_id(
            pent_id,
            unique_id,
        ) != EMPTY,
{
}

// composite_id (16 bits) = pent_id (4 bits) + unique_id (12 bits)
pub fn create_composite_id(pent_id: u8, unique_id: u16) -> (r: u16)
    ensures
        r == spec_composite_id(pent_id, unique_id),
{
    ((pent_id as u16) << 12) | (unique_id & 0x0FFF)
}

pub fn get_pent_id(composite_id: u16) -> (r: u8)
    ensures
        r == spec_pent_id(composite_id),
{
    (composite_id >> 12) as u8
}

pub fn get_unique_id(composite_id: u16) -> (r: u16)
    ensures
        r == spec_unique_id(composite_id),
{
    composite_id & 0x0FFF
}

// ---------------------------------------------------------------------------
// Gravity
// ---------------------------------------------------------------------------

/// Whether the sequence holds the value; a linear scan.
fn contains_id(v: &Vec<u16>, x: u16) -> (r: bool)
    ensures
        r == v@.contains(x),
{
    let mut found = false;
    for i in 0..v.len()
        invariant
            found == exists|k: int| 0 <= k < i && v@[k] == x,
    {
        if v[i] == x {
            found = true;
        }
    }
    found
}

/// Lets pieces fall. Repeatedly, every piece that neither rests on the floor
/// nor on a cell of a different piece is shifted down one row as a rigid
/// unit, until a full pass over the board moves nothing.
#[verifier::spinoff_prover]
#[verifier::rlimit(100)]
#[verifier::loop_isolation(false)]
pub fn gravity(field: &mut GameField)
    requires
        field_wf(grid(old(field)@)),
    ensures
        field_wf(grid(final(field)@)),
        gravity_stable(grid(final(field)@)),
        count_occupied(grid(final(field)@)) == count_occupied(grid(old(field)@)),
        forall|c: int|
            0 <= c < FIELD_WIDTH ==> #[trigger] occupied_in_col_from(grid(final(field)@), c, 0)
                == occupied_in_col_from(grid(old(field)@), c, 0),
        gravity_stable(grid(old(field)@)) ==> grid(final(field)@) == grid(old(field)@),
{
    let mut done = false;
    while !done
        invariant
            field_wf(grid(field@)),
            count_occupied(grid(field@)) == count_occupied(grid(old(field)@)),
            forall|c: int|
                0 <= c < FIELD_WIDTH ==> #[trigger] occupied_in_col_from(grid(field@), c, 0)
                    == occupied_in_col_from(grid(old(field)@), c, 0),
            gravity_stable(grid(old(field)@)) ==> grid(field@) == grid(old(field)@),
            done ==> gravity_stable(grid(field@)),
        decreases total_height(grid(field@)), if done { 0int } else { 1int },
    {
        let ghost g0 = grid(field@);
        let mut settled_ids: Vec<u16> = Vec::new();
        let mut possible_shifts: Vec<(usize, usize)> = Vec::new();

        // Find, for every piece, whether some of its cells rests on the floor
        // or on a different piece; the remaining occupied cells are shift
        // candidates, listed bottom row first.
        let mut row = FIELD_HEIGHT;
        while row > 0
            invariant
                row <= FIELD_HEIGHT,
                grid(field@) == g0,
                forall|k: int|
                    0 <= k < settled_ids@.len() ==> piece_settled(g0, #[trigger] settled_ids@[k]),
                forall|r: int, c: int|
                    row <= r < FIELD_HEIGHT && 0 <= c < FIELD_WIDTH && g0[r][c] != EMPTY && (r
                        == FIELD_HEIGHT - 1 || (g0[r + 1][c] != EMPTY && g0[r + 1][c] != g0[r][c]))
                        ==> settled_ids@.contains(#[trigger] g0[r][c]),
                forall|r: int, c: int|
                    row <= r < FIELD_HEIGHT && 0 <= c < FIELD_WIDTH && #[trigger] g0[r][c]
                        != EMPTY && !(r == FIELD_HEIGHT - 1 || (g0[r + 1][c] != EMPTY
                        && g0[r + 1][c] != g0[r][c]))
                        ==> possible_shifts@.contains((r as usize, c as usize)),
                forall|k: int|
                    0 <= k < possible_shifts@.len() ==> {
                        let (r, c) = #[trigger] possible_shifts@[k];
                        &&& in_field(r as int, c as int)
                        &&& r as int >= row
                        &&& (r as int) < FIELD_HEIGHT - 1
                        &&& g0[r as int][c as int] != EMPTY
                        &&& (g0[r as int + 1][c as int] == EMPTY || g0[r as int + 1][c as int]
                            == g0[r as int][c as int])
                    },
                forall|k1: int, k2: int|
                    0 <= k1 < k2 < possible_shifts@.len() ==> {
                        let (r1, c1) = #[trigger] possible_shifts@[k1];
                        let (r2, c2) = #[trigger] possible_shifts@[k2];
                        r1 > r2 || (r1 == r2 && c1 < c2)
                    },
            decreases row,
        {
            row -= 1;
            for col in 0..FIELD_WIDTH
                invariant
                    grid(field@) == g0,
                    forall|k: int|
                        0 <= k < settled_ids@.len() ==> piece_settled(
                            g0,
                            #[trigger] settled_ids@[k],
                        ),
                    forall|r: int, c: int|
                        (row < r < FIELD_HEIGHT && 0 <= c < FIELD_WIDTH || r == row && 0 <= c < col)
                            && g0[r][c] != EMPTY && (r == FIELD_HEIGHT - 1 || (g0[r + 1][c] != EMPTY
                            && g0[r + 1][c] != g0[r][c])) ==> settled_ids@.contains(
                            #[trigger] g0[r][c],
                        ),
                    forall|r: int, c: int|
                        (row < r < FIELD_HEIGHT && 0 <= c < FIELD_WIDTH || r == row && 0 <= c < col)
                            && #[trigger] g0[r][c] != EMPTY && !(r == FIELD_HEIGHT - 1 || (g0[r
                            + 1][c] != EMPTY && g0[r + 1][c] != g0[r][c]))
                            ==> possible_shifts@.contains((r as usize, c as usize)),
                    forall|k: int|
                        0 <= k < possible_shifts@.len() ==> {
                            let (r, c) = #[trigger] possible_shifts@[k];
                            &&& in_field(r as int, c as int)
                            &&& (r as int > row || r as int == row && (c as int) < col)
                            &&& (r as int) < FIELD_HEIGHT - 1
                            &&& g0[r as int][c as int] != EMPTY
                            &&& (g0[r as int + 1][c as int] == EMPTY || g0[r as int + 1][c as int]
                                == g0[r as int][c as int])
                        },
                    forall|k1: int, k2: int|
                        0 <= k1 < k2 < possible_shifts@.len() ==> {
                            let (r1, c1) = #[trigger] possible_shifts@[k1];
                            let (r2, c2) = #[trigger] possible_shifts@[k2];
                            r1 > r2 || (r1 == r2 && c1 < c2)
                        },
            {
                let ghost settled_old = settled_ids@;
                let ghost shifts_old = possible_shifts@;
                let tile = field[row][col];
                proof {
                    assert(g0[row as int][col as int] == tile);
                }
                if tile != EMPTY {
                    if row == FIELD_HEIGHT - 1 {
                        settled_ids.push(tile);
                        proof {
                            assert(settled_ids@[settled_ids@.len() - 1] == tile);
                            assert(settled_ids@.contains(tile));
                        }
                    } else {
                        let below = field[row + 1][col];
                        proof {
                            assert(g0[row as int + 1][col as int] == below);
                        }
                        if below != EMPTY && below != tile {
                            settled_ids.push(tile);
                            proof {
                                assert(settled_ids@[settled_ids@.len() - 1] == tile);
                                assert(settled_ids@.contains(tile));
                            }
                        } else {
                            possible_shifts.push((row, col));
                            proof {
                                assert(possible_shifts@[possible_shifts@.len() - 1] == (row, col));
                                assert(possible_shifts@.contains((row, col)));
                            }
                        }
                    }
                }
                proof {
                    assert forall|v: u16| settled_old.contains(v) implies settled_ids@.contains(
                        v,
                    ) by {
                        let i = choose|i: int| 0 <= i < settled_old.len() && settled_old[i] == v;
                        assert(settled_ids@[i] == v);
                    }
                    assert forall|e: (usize, usize)| shifts_old.contains(e)
                        implies possible_shifts@.contains(e) by {
                        let i = choose|i: int| 0 <= i < shifts_old.len() && shifts_old[i] == e;
                        assert(possible_shifts@[i] == e);
                    }
                }
            }
        }

        // Shift every candidate cell whose piece found no support; the list
        // order (bottom row first) moves each piece down as a rigid unit,
        // each cell into a cell just vacated or empty all along.
        let mut shifted = false;
        let ghost mut shifts: nat = 0nat;
        for k in 0..possible_shifts.len()
            invariant
                field_wf(grid(field@)),
                forall|j: int|
                    k <= j < possible_shifts@.len() ==> {
                        let (r, c) = #[trigger] possible_shifts@[j];
                        grid(field@)[r as int][c as int] == g0[r as int][c as int]
                    },
                forall|j: int|
                    k <= j < possible_shifts@.len() ==> {
                        let (r, c) = #[trigger] possible_shifts@[j];
                        g0[r as int + 1][c as int] == EMPTY ==> grid(field@)[r as int + 1][c as int]
                            == EMPTY
                    },
                forall|j2: int|
                    0 <= j2 < k ==> {
                        let (r2, c2) = #[trigger] possible_shifts@[j2];
                        (!settled_ids@.contains(g0[r2 as int][c2 as int]) && exists|j3: int|
                            k <= j3 < possible_shifts@.len() && (#[trigger] possible_shifts@[j3]).0
                                as int == r2 as int - 1 && possible_shifts@[j3].1 == c2)
                            ==> grid(field@)[r2 as int][c2 as int] == EMPTY
                    },
                count_occupied(grid(field@)) == count_occupied(g0),
                forall|c: int|
                    0 <= c < FIELD_WIDTH ==> #[trigger] occupied_in_col_from(grid(field@), c, 0)
                        == occupied_in_col_from(g0, c, 0),
                total_height(grid(field@)) + shifts <= total_height(g0),
                shifted ==> shifts >= 1,
                !shifted ==> grid(field@) == g0 && shifts == 0nat,
                gravity_stable(grid(old(field)@)) ==> !shifted,
                !shifted ==> forall|j: int|
                    0 <= j < k ==> settled_ids@.contains(
                        {
                            let (r, c) = #[trigger] possible_shifts@[j];
                            g0[r as int][c as int]
                        },
                    ),
        {
            let (row, col) = possible_shifts[k];
            let tile = field[row][col];
            if !contains_id(&settled_ids, tile) {
                proof {
                    if gravity_stable(grid(old(field)@)) {
                        assert(grid(field@) == g0);
                        assert(piece_settled(g0, tile));
                        let (wr, wc) = choose|wr: int, wc: int|
                            in_field(wr, wc) && #[trigger] g0[wr][wc] == tile && (wr == FIELD_HEIGHT
                                - 1 || (g0[wr + 1][wc] != EMPTY && g0[wr + 1][wc] != tile));
                        assert(settled_ids@.contains(g0[wr][wc]));
                        assert(false);
                    }
                    // the cell below is empty by now: either it always was,
                    // or it held this piece's own cell, listed earlier and
                    // already moved out, with this very cell as its consumer
                    if g0[row as int + 1][col as int] != EMPTY {
                        assert(g0[row as int + 1][col as int] == tile);
                        assert(row as int + 1 == FIELD_HEIGHT - 1 || !(g0[row as int + 2][col
                            as int] != EMPTY && g0[row as int + 2][col as int] != tile)) by {
                            if !(row as int + 1 == FIELD_HEIGHT - 1) && g0[row as int + 2][col
                                as int] != EMPTY && g0[row as int + 2][col as int] != tile {
                                assert(settled_ids@.contains(tile));
                            }
                        }
                        if row as usize + 1 == FIELD_HEIGHT - 1 {
                            assert(settled_ids@.contains(tile));
                            assert(false);
                        }
                        assert(possible_shifts@.contains(((row + 1) as usize, col)));
                        let j2 = choose|j2: int|
                            0 <= j2 < possible_shifts@.len() && possible_shifts@[j2] == (
                            (row + 1) as usize,
                            col,
                            );
                        assert(j2 < k) by {
                            if j2 > k {
                                assert({
                                    let (ra, ca) = possible_shifts@[k as int];
                                    let (rb, cb) = possible_shifts@[j2];
                                    ra > rb || (ra == rb && ca < cb)
                                });
                                assert(false);
                            } else if j2 == k {
                                assert(false);
                            }
                        }
                        assert(possible_shifts@[k as int].0 as int == (row + 1) as int - 1);
                        assert(grid(field@)[row as int + 1][col as int] == EMPTY);
                    }
                    assert(grid(field@)[row as int + 1][col as int] == EMPTY);
                }
                let ghost g_before = grid(field@);
                field[row][col] = EMPTY;
                proof {
                    assert(grid(field@) =~= g_before.update(
                        row as int,
                        g_before[row as int].update(col as int, EMPTY),
                    ));
                    lemma_counts_cell_update(g_before, grid(field@), row as int, col as int);
                    lemma_col_occupied_cell_update(g_before, grid(field@), row as int, col as int);
                }
                let ghost g_mid = grid(field@);
                field[row + 1][col] = tile;
                proof {
                    lemma_counts_cell_update(g_mid, grid(field@), row as int + 1, col as int);
                    lemma_col_occupied_cell_update(g_mid, grid(field@), row as int + 1, col as int);
                    shifts = shifts + 1;
                }
                shifted = true;
            }
        }

        if !shifted {
            proof {
                assert forall|r: int, c: int|
                    in_field(r, c) && #[trigger] g0[r][c] != EMPTY implies piece_settled(
                    g0,
                    g0[r][c],
                ) by {
                    if r == FIELD_HEIGHT - 1 || (g0[r + 1][c] != EMPTY && g0[r + 1][c] != g0[r][c]) {
                        assert(settled_ids@.contains(g0[r][c]));
                        let k = choose|k: int|
                            0 <= k < settled_ids@.len() && settled_ids@[k] == g0[r][c];
                        assert(piece_settled(g0, settled_ids@[k]));
                    } else {
                        assert(possible_shifts@.contains((r as usize, c as usize)));
                        let j = choose|j: int|
                            0 <= j < possible_shifts@.len() && possible_shifts@[j] == (
                            r as usize,
                            c as usize,
                            );
                        assert(settled_ids@.contains(g0[r][c]));
                        let k = choose|k: int|
                            0 <= k < settled_ids@.len() && settled_ids@[k] == g0[r][c];
                        assert(piece_settled(g0, settled_ids@[k]));
                    }
                }
                assert(gravity_stable(g0));
            }
            done = true;
        }
    }
}

// ---------------------------------------------------------------------------
// Connectivity query
// ---------------------------------------------------------------------------

/// Checks whether the cell at `(row, col)` has a 4-neighbor that is occupied
/// and carries the instance id `unique_id`.
pub fn is_connected(field: &GameField, row: u8, col: u8, unique_id: &u16) -> (r: bool)
    requires
        field_wf(grid(field@)),
        in_field(row as int, col as int),
    ensures
        r == neighbor_matches(grid(field@), row as int, col as int, *unique_id),
{
    let r = row as usize;
    let c = col as usize;
    if r > 0 {
        let neighbor = field[r - 1][c];
        if neighbor != EMPTY && get_unique_id(neighbor) == *unique_id {
            return true;
        }
    }
    if r + 1 < FIELD_HEIGHT {
        let neighbor = field[r + 1][c];
        if neighbor != EMPTY && get_unique_id(neighbor) == *unique_id {
            return true;
        }
    }
    if c > 0 {
        let neighbor = field[r][c - 1];
        if neighbor != EMPTY && get_unique_id(neighbor) == *unique_id {
            return true;
        }
    }
    if c + 1 < FIELD_WIDTH {
        let neighbor = field[r][c + 1];
        if neighbor != EMPTY && get_unique_id(neighbor) == *unique_id {
            return true;
        }
    }
    false
}

// ---------------------------------------------------------------------------
// Clear & settle simulator
// ---------------------------------------------------------------------------

/// The piece-type half of a tile value fits in four bits.
pub proof fn lemma_pent_id_bound(composite_id: u16)
    by (bit_vector)
    ensures
        spec_pent_id(composite_id) < 16,
{
}

/// When no row of the board is full, no row counts as full from any start.
pub proof fn lemma_no_full_rows(g: Seq<Seq<u16>>, r: int)
    requires
        r <= FIELD_HEIGHT,
        forall|rr: int| 0 <= rr < FIELD_HEIGHT ==> !row_full(g, rr),
    ensures
        full_rows_from(g, r) == 0,
    decreases FIELD_HEIGHT - r,
{
    if 0 <= r < FIELD_HEIGHT {
        lemma_no_full_rows(g, r + 1);
    }
}

/// Whether every cell of row `row` is occupied.
pub fn row_is_full(field: &GameField, row: usize) -> (r: bool)
    requires
        field_wf(grid(field@)),
        row < FIELD_HEIGHT,
    ensures
        r == row_full(grid(field@), row as int),
{
    let mut full = true;
    for c in 0..FIELD_WIDTH
        invariant
            field_wf(grid(field@)),
            row < FIELD_HEIGHT,
            full == forall|cc: int| 0 <= cc < c ==> #[trigger] grid(field@)[row as int][cc]
                != EMPTY,
    {
        if field[row][c] == EMPTY {
            full = false;
        }
    }
    full
}

/// Under the pool-headroom hypothesis, after `relabels` fresh ids were
/// handed out, the allocator still has a free id for any piece type, and the
/// lowest free one sits below the moving waterline.
proof fn lemma_fresh_id_available(used: Seq<bool>, pent_id: u8, relabels: nat)
    requires
        used.len() == ID_SPACE,
        relabels <= 74,
        forall|i: int| 2048 + 12 * relabels <= i < ID_SPACE ==> !(#[trigger] used[i]),
    ensures
        0 <= first_free(used, pent_id as int) < 2048 + 12 * relabels + 12,
{
    let t = 2048 + 12 * relabels;
    let a = t - pent_id as int;
    let q = (a + 11) / 12;
    vstd::arithmetic::div_mod::lemma_fundamental_div_mod(a + 11, 12);
    vstd::arithmetic::div_mod::lemma_mod_bound(a + 11, 12);
    assert(a <= 12 * q <= a + 11);
    let w = pent_id as int + 12 * q;
    assert(t <= w <= t + 11);
    assert(!used[w]);
    lemma_first_free_finds(used, pent_id as int, q as nat);
}

/// A cell that touched a cell with its instance id still does after another
/// cell — one that touched none — is stamped with a different value: the
/// relabeled cell cannot have been the touching witness.
proof fn lemma_neighbor_survives_relabel(
    g1: Seq<Seq<u16>>,
    g2: Seq<Seq<u16>>,
    row: int,
    col: int,
    rr: int,
    cc: int,
)
    requires
        in_field(row, col),
        in_field(rr, cc),
        rr != row || cc != col,
        forall|r2: int, c2: int|
            in_field(r2, c2) && (r2 != row || c2 != col) ==> #[trigger] g2[r2][c2] == g1[r2][c2],
        g1[row][col] != EMPTY,
        !neighbor_matches(g1, row, col, spec_unique_id(g1[row][col])),
        g1[rr][cc] != EMPTY,
        neighbor_matches(g1, rr, cc, spec_unique_id(g1[rr][cc])),
    ensures
        neighbor_matches(g2, rr, cc, spec_unique_id(g2[rr][cc])),
{
    assert(g2[rr][cc] == g1[rr][cc]);
}

/// One pass of the simulator's row scan, bottom to top: every full row is
/// emptied and counted; in every other row, each occupied cell that no longer
/// touches a cell with its instance id is stamped with a freshly allocated id
/// of the same piece type. When `record` is set, a snapshot of the board is
/// appended to `frames` after each cleared row.
///
/// The re-identification law: on a board with no full row, whose instance
/// ids are all marked in the allocator and whose id pool has headroom, the
/// pass leaves every occupied cell either touching a cell with its instance
/// id or alone on the board with it — no cell is left stranded sharing an id
/// with cells it does not touch.
///
/// The healing is deliberately per cell, not per connected group: only a
/// cell with no same-id neighbor at all is restamped. A piece that a clear
/// splits into two multi-cell fragments therefore keeps one id across
/// disconnected islands; gravity then moves those islands as one rigid unit.
#[verifier::spinoff_prover]
#[verifier::rlimit(100)]
#[verifier::loop_isolation(false)]
pub fn clear_and_relabel(
    field: &mut GameField,
    id_manager: &mut IdManager,
    frames: &mut VecDeque<GameField>,
    record: bool,
) -> (cleared: u32)
    requires
        field_wf(grid(old(field)@)),
        old(id_manager).wf(),
    ensures
        field_wf(grid(final(field)@)),
        final(id_manager).wf(),
        cleared == full_row_count(grid(old(field)@)),
        cleared <= FIELD_HEIGHT,
        count_occupied(grid(final(field)@)) + 5 * cleared == count_occupied(grid(old(field)@)),
        forall|c: int|
            0 <= c < FIELD_WIDTH ==> #[trigger] occupied_in_col_from(grid(final(field)@), c, 0)
                + cleared == occupied_in_col_from(grid(old(field)@), c, 0),
        forall|r: int, c: int|
            in_field(r, c) ==> ((#[trigger] grid(final(field)@)[r][c]) == EMPTY <==> grid(
                old(field)@,
            )[r][c] == EMPTY || row_full(grid(old(field)@), r)),
        forall|r: int, c: int|
            in_field(r, c) && #[trigger] grid(final(field)@)[r][c] != EMPTY ==> spec_pent_id(
                grid(final(field)@)[r][c],
            ) == spec_pent_id(grid(old(field)@)[r][c]),
        (forall|r: int| 0 <= r < FIELD_HEIGHT ==> !row_full(grid(old(field)@), r)) && (forall|
            r: int,
            c: int,
        |
            in_field(r, c) && #[trigger] grid(old(field)@)[r][c] != EMPTY ==> neighbor_matches(
                grid(old(field)@),
                r,
                c,
                spec_unique_id(grid(old(field)@)[r][c]),
            )) ==> grid(final(field)@) == grid(old(field)@) && final(id_manager)@ == old(
            id_manager,
        )@ && cleared == 0,
        final(frames)@.len() >= old(frames)@.len(),
        forall|k: int|
            0 <= k < old(frames)@.len() ==> (#[trigger] final(frames)@[k]) == old(frames)@[k],
        forall|k: int|
            old(frames)@.len() <= k < final(frames)@.len() ==> field_wf(
                grid((#[trigger] final(frames)@[k])@),
            ),
        !record ==> final(frames)@ == old(frames)@,
        no_full_rows(grid(old(field)@)) && board_ids_used(grid(old(field)@), old(id_manager)@)
            && pool_headroom(old(id_manager)@) ==> identity_locally_sound(grid(final(field)@))
            && board_ids_used(grid(final(field)@), final(id_manager)@),
{
    let ghost g_init = grid(field@);
    let ghost healing = no_full_rows(g_init) && board_ids_used(g_init, old(id_manager)@)
        && pool_headroom(old(id_manager)@);
    let ghost mut relabels: nat = 0nat;
    let ghost stable_in = (forall|r: int| 0 <= r < FIELD_HEIGHT ==> !row_full(g_init, r)) && (
    forall|r: int, c: int|
        in_field(r, c) && #[trigger] g_init[r][c] != EMPTY ==> neighbor_matches(
            g_init,
            r,
            c,
            spec_unique_id(g_init[r][c]),
        ));
    let mut cleared: u32 = 0;
    let mut row = FIELD_HEIGHT;
    while row > 0
        invariant
            row <= FIELD_HEIGHT,
            field_wf(grid(field@)),
            id_manager.wf(),
            forall|rr: int, cc: int|
                in_field(rr, cc) && rr < row ==> #[trigger] grid(field@)[rr][cc] == g_init[rr][cc],
            cleared == full_rows_from(g_init, row as int),
            count_occupied(grid(field@)) + 5 * cleared == count_occupied(g_init),
            forall|rr: int, cc: int|
                in_field(rr, cc) && rr >= row ==> ((#[trigger] grid(field@)[rr][cc]) == EMPTY
                    <==> g_init[rr][cc] == EMPTY || row_full(g_init, rr)),
            forall|rr: int, cc: int|
                in_field(rr, cc) && rr >= row && #[trigger] grid(field@)[rr][cc] != EMPTY
                    ==> spec_pent_id(grid(field@)[rr][cc]) == spec_pent_id(g_init[rr][cc]),
            stable_in ==> grid(field@) == g_init && id_manager@ == old(id_manager)@ && cleared
                == 0,
            healing ==> relabels <= 5 * (FIELD_HEIGHT - row),
            healing ==> board_ids_used(grid(field@), id_manager@),
            healing ==> forall|i: int|
                2048 + 12 * relabels <= i < ID_SPACE ==> !(#[trigger] id_manager@[i]),
            healing ==> forall|rr: int, cc: int|
                in_field(rr, cc) && rr >= row && #[trigger] grid(field@)[rr][cc] != EMPTY
                    ==> neighbor_matches(
                    grid(field@),
                    rr,
                    cc,
                    spec_unique_id(grid(field@)[rr][cc]),
                ) || uid_unique(grid(field@), rr, cc),
            frames@.len() >= old(frames)@.len(),
            forall|k: int|
                0 <= k < old(frames)@.len() ==> (#[trigger] frames@[k]) == old(frames)@[k],
            forall|k: int|
                old(frames)@.len() <= k < frames@.len() ==> field_wf(
                    grid((#[trigger] frames@[k])@),
                ),
            !record ==> frames@ == old(frames)@,
        decreases row,
    {
        row -= 1;
        proof {
            assert forall|cc: int| 0 <= cc < FIELD_WIDTH implies #[trigger] grid(field@)[row
                as int][cc] == g_init[row as int][cc] by {
                assert(in_field(row as int, cc));
            }
        }
        let full = row_is_full(field, row);
        proof {
            if full {
                assert forall|cc: int| 0 <= cc < FIELD_WIDTH implies #[trigger] g_init[row
                    as int][cc] != EMPTY by {
                    assert(grid(field@)[row as int][cc] != EMPTY);
                }
                assert(row_full(g_init, row as int));
            } else {
                assert(!row_full(grid(field@), row as int));
                let cc = choose|cc: int| 0 <= cc < FIELD_WIDTH && !(#[trigger] grid(
                    field@,
                )[row as int][cc] != EMPTY);
                assert(g_init[row as int][cc] == EMPTY);
                assert(!row_full(g_init, row as int));
            }
            lemma_full_rows_bound(g_init, row as int + 1);
        }
        if full {
            proof {
                if healing {
                    assert(!row_full(g_init, row as int));
                }
            }
            for col in 0..FIELD_WIDTH
                invariant
                    !healing,
                    field_wf(grid(field@)),
                    row < FIELD_HEIGHT,
                    row_full(g_init, row as int),
                    forall|rr: int, cc: int|
                        in_field(rr, cc) && rr < row ==> #[trigger] grid(field@)[rr][cc]
                            == g_init[rr][cc],
                    forall|cc: int|
                        0 <= cc < col ==> #[trigger] grid(field@)[row as int][cc] == EMPTY,
                    forall|cc: int|
                        col <= cc < FIELD_WIDTH ==> #[trigger] grid(field@)[row as int][cc]
                            == g_init[row as int][cc],
                    forall|rr: int, cc: int|
                        in_field(rr, cc) && rr > row ==> ((#[trigger] grid(field@)[rr][cc]) == EMPTY
                            <==> g_init[rr][cc] == EMPTY || row_full(g_init, rr)),
                    forall|rr: int, cc: int|
                        in_field(rr, cc) && rr > row && #[trigger] grid(field@)[rr][cc] != EMPTY
                            ==> spec_pent_id(grid(field@)[rr][cc]) == spec_pent_id(
                            g_init[rr][cc],
                        ),
                    count_occupied(grid(field@)) + 5 * cleared + col == count_occupied(g_init),
            {
                let ghost g_before = grid(field@);
                field[row][col] = EMPTY;
                proof {
                    lemma_counts_cell_update(g_before, grid(field@), row as int, col as int);
                }
            }
            cleared = cleared + 1;
            if record {
                let snapshot = copy_field(field);
                frames.push_back(snapshot);
            }
        } else {
            for col in 0..FIELD_WIDTH
                invariant
                    field_wf(grid(field@)),
                    id_manager.wf(),
                    row < FIELD_HEIGHT,
                    !row_full(g_init, row as int),
                    forall|rr: int, cc: int|
                        in_field(rr, cc) && rr < row ==> #[trigger] grid(field@)[rr][cc]
                            == g_init[rr][cc],
                    forall|cc: int|
                        col <= cc < FIELD_WIDTH ==> #[trigger] grid(field@)[row as int][cc]
                            == g_init[row as int][cc],
                    forall|cc: int|
                        0 <= cc < col ==> ((#[trigger] grid(field@)[row as int][cc]) == EMPTY
                            <==> g_init[row as int][cc] == EMPTY),
                    forall|cc: int|
                        0 <= cc < col && #[trigger] grid(field@)[row as int][cc] != EMPTY
                            ==> spec_pent_id(grid(field@)[row as int][cc]) == spec_pent_id(
                            g_init[row as int][cc],
                        ),
                    forall|rr: int, cc: int|
                        in_field(rr, cc) && rr > row ==> ((#[trigger] grid(field@)[rr][cc]) == EMPTY
                            <==> g_init[rr][cc] == EMPTY || row_full(g_init, rr)),
                    forall|rr: int, cc: int|
                        in_field(rr, cc) && rr > row && #[trigger] grid(field@)[rr][cc] != EMPTY
                            ==> spec_pent_id(grid(field@)[rr][cc]) == spec_pent_id(
                            g_init[rr][cc],
                        ),
                    count_occupied(grid(field@)) + 5 * cleared == count_occupied(g_init),
                    stable_in ==> grid(field@) == g_init && id_manager@ == old(id_manager)@
                        && cleared == 0,
                    healing ==> relabels <= 5 * (FIELD_HEIGHT - 1 - row) + col,
                    healing ==> board_ids_used(grid(field@), id_manager@),
                    healing ==> forall|i: int|
                        2048 + 12 * relabels <= i < ID_SPACE ==> !(#[trigger] id_manager@[i]),
                    healing ==> forall|rr: int, cc: int|
                        in_field(rr, cc) && (rr > row || rr == row && cc < col) && #[trigger] grid(
                            field@,
                        )[rr][cc] != EMPTY ==> neighbor_matches(
                            grid(field@),
                            rr,
                            cc,
                            spec_unique_id(grid(field@)[rr][cc]),
                        ) || uid_unique(grid(field@), rr, cc),
            {
                let tile = field[row][col];
                if tile != EMPTY && !is_connected(field, row as u8, col as u8, &get_unique_id(tile))
                {
                    proof {
                        if stable_in {
                            assert(grid(field@) == g_init);
                            assert(neighbor_matches(
                                g_init,
                                row as int,
                                col as int,
                                spec_unique_id(g_init[row as int][col as int]),
                            ));
                            assert(false);
                        }
                    }
                    let pent_id = get_pent_id(tile);
                    proof {
                        if healing {
                            lemma_fresh_id_available(id_manager@, pent_id, relabels);
                        }
                    }
                    let ghost used_before = id_manager@;
                    let unique_id = id_manager.next_unique_id(pent_id);
                    let fresh = create_composite_id(pent_id, unique_id);
                    proof {
                        lemma_pent_id_bound(tile);
                        lemma_composite_id(pent_id, unique_id);
                        assert((pent_id % 12) as u16 == unique_id % 12);
                        assert(fresh != EMPTY);
                        assert(spec_pent_id(fresh) == pent_id);
                    }
                    let ghost g_before = grid(field@);
                    field[row][col] = fresh;
                    proof {
                        lemma_counts_cell_update(g_before, grid(field@), row as int, col as int);
                        if healing {
                            let g_after = grid(field@);
                            assert(spec_unique_id(fresh) == unique_id);
                            assert(!used_before[unique_id as int]);
                            assert(id_manager@ == used_before.update(unique_id as int, true));
                            assert forall|rr: int, cc: int|
                                in_field(rr, cc) && #[trigger] g_after[rr][cc] != EMPTY
                                implies id_manager@[spec_unique_id(g_after[rr][cc]) as int] by {
                                lemma_unique_id_bound(g_after[rr][cc]);
                                if rr != row || cc != col {
                                    assert(g_after[rr][cc] == g_before[rr][cc]);
                                    assert(used_before[spec_unique_id(g_before[rr][cc]) as int]);
                                }
                            }
                            assert forall|rr: int, cc: int|
                                in_field(rr, cc) && (rr > row || rr == row && cc <= col)
                                    && #[trigger] g_after[rr][cc] != EMPTY
                                implies neighbor_matches(
                                g_after,
                                rr,
                                cc,
                                spec_unique_id(g_after[rr][cc]),
                            ) || uid_unique(g_after, rr, cc) by {
                                if rr == row && cc == col {
                                    assert forall|r2: int, c2: int|
                                        in_field(r2, c2) && (r2 != rr || c2 != cc) && #[trigger]
                                        g_after[r2][c2] != EMPTY implies spec_unique_id(
                                        g_after[r2][c2],
                                    ) != spec_unique_id(g_after[rr][cc]) by {
                                        assert(g_after[r2][c2] == g_before[r2][c2]);
                                        assert(used_before[spec_unique_id(g_before[r2][c2]) as int]);
                                    }
                                    assert(uid_unique(g_after, rr, cc));
                                } else {
                                    let u = spec_unique_id(g_before[rr][cc]);
                                    assert(g_after[rr][cc] == g_before[rr][cc]);
                                    if neighbor_matches(g_before, rr, cc, u) {
                                        lemma_neighbor_survives_relabel(
                                            g_before,
                                            g_after,
                                            row as int,
                                            col as int,
                                            rr,
                                            cc,
                                        );
                                    } else {
                                        assert(uid_unique(g_before, rr, cc));
                                        assert forall|r2: int, c2: int|
                                            in_field(r2, c2) && (r2 != rr || c2 != cc)
                                                && #[trigger] g_after[r2][c2] != EMPTY
                                            implies spec_unique_id(g_after[r2][c2]) != u by {
                                            if r2 == row && c2 == col {
                                                assert(used_before[u as int]);
                                            } else {
                                                assert(g_after[r2][c2] == g_before[r2][c2]);
                                            }
                                        }
                                        assert(uid_unique(g_after, rr, cc));
                                    }
                                }
                            }
                            relabels = relabels + 1;
                        }
                    }
                }
            }
        }
        proof {
            assert(full_rows_from(g_init, row as int) == (if row_full(g_init, row as int) {
                1nat
            } else {
                0nat
            }) + full_rows_from(g_init, row as int + 1));
            lemma_full_rows_bound(g_init, row as int);
        }
    }
    proof {
        lemma_full_rows_bound(g_init, 0);
        assert forall|c: int|
            0 <= c < FIELD_WIDTH implies #[trigger] occupied_in_col_from(grid(field@), c, 0)
            + cleared == occupied_in_col_from(g_init, c, 0) by {
            lemma_col_count_after_clears(g_init, grid(field@), c, 0);
        }
    }
    cleared
}

/// Runs the clear-and-settle simulator on a bare board, to its fixed point:
/// full rows are cleared, separated tiles get fresh identities, pieces fall,
/// and the cycle repeats as long as a pass cleared at least one row. Returns
/// the number of rows cleared.
#[verifier::spinoff_prover]
#[verifier::loop_isolation(false)]
pub fn run_simulator(field: &mut GameField, id_manager: &mut IdManager) -> (r: u32)
    requires
        field_wf(grid(old(field)@)),
        old(id_manager).wf(),
    ensures
        field_wf(grid(final(field)@)),
        final(id_manager).wf(),
        r <= 15,
        r >= full_row_count(grid(old(field)@)),
        count_occupied(grid(final(field)@)) + 5 * r == count_occupied(grid(old(field)@)),
        forall|c: int|
            0 <= c < FIELD_WIDTH ==> #[trigger] occupied_in_col_from(grid(final(field)@), c, 0) + r
                == occupied_in_col_from(grid(old(field)@), c, 0),
        gravity_stable(grid(final(field)@)),
        simulator_stable(grid(old(field)@)) ==> r == 0 && grid(final(field)@) == grid(
            old(field)@,
        ) && final(id_manager)@ == old(id_manager)@,
{
    let ghost g_start = grid(field@);
    let mut scratch: VecDeque<GameField> = VecDeque::new();

    let first_cleared = clear_and_relabel(field, id_manager, &mut scratch, false);
    gravity(field);
    proof {
        lemma_count_occupied_bound(g_start);
        if simulator_stable(g_start) {
            lemma_no_full_rows(g_start, 0);
        }
    }
    let mut total: u32 = first_cleared;

    if first_cleared > 0 {
        let mut done = false;
        while !done
            invariant
                field_wf(grid(field@)),
                id_manager.wf(),
                total >= full_row_count(g_start),
                5 * total + count_occupied(grid(field@)) == count_occupied(g_start),
                forall|c: int|
                    0 <= c < FIELD_WIDTH ==> #[trigger] occupied_in_col_from(grid(field@), c, 0)
                        + total == occupied_in_col_from(g_start, c, 0),
                done ==> gravity_stable(grid(field@)),
            decreases count_occupied(grid(field@)), if done {
                0int
            } else {
                1int
            },
        {
            let c = clear_and_relabel(field, id_manager, &mut scratch, false);
            gravity(field);
            proof {
                lemma_count_occupied_bound(g_start);
            }
            total = total + c;
            if c == 0 {
                done = true;
            }
        }
    }
    proof {
        lemma_count_occupied_bound(g_start);
    }
    total
}

/// Runs the clear-and-settle simulator on the state's board, adding the rows
/// cleared here to the state's lifetime count. Returns `cleared_count` plus
/// the rows cleared here; with `clear_rows` unset the call is a no-op that
/// hands `cleared_count` back.
pub fn update(
    state: &mut State,
    id_manager: &mut IdManager,
    cleared_count: u32,
    clear_rows: bool,
) -> (r: u32)
    requires
        field_wf(grid(old(state).field@)),
        old(id_manager).wf(),
        cleared_count <= u32::MAX - 16,
        old(state).cleared_rows <= u32::MAX - 16,
    ensures
        field_wf(grid(final(state).field@)),
        final(id_manager).wf(),
        final(state).remaining_pieces == old(state).remaining_pieces,
        final(state).parent_state == old(state).parent_state,
        final(state).uncleared_state == old(state).uncleared_state,
        r >= cleared_count,
        r - cleared_count <= 15,
        final(state).cleared_rows == old(state).cleared_rows + (r - cleared_count),
        !clear_rows ==> r == cleared_count && *final(state) == *old(state) && *final(id_manager)
            == *old(id_manager),
        clear_rows ==> r - cleared_count >= full_row_count(grid(old(state).field@)),
        clear_rows ==> count_occupied(grid(final(state).field@)) + 5 * (r - cleared_count)
            == count_occupied(grid(old(state).field@)),
        clear_rows ==> forall|c: int|
            0 <= c < FIELD_WIDTH ==> #[trigger] occupied_in_col_from(
                grid(final(state).field@),
                c,
                0,
            ) + (r - cleared_count) == occupied_in_col_from(grid(old(state).field@), c, 0),
        clear_rows ==> gravity_stable(grid(final(state).field@)),
        clear_rows && simulator_stable(grid(old(state).field@)) ==> r == cleared_count && grid(
            final(state).field@,
        ) == grid(old(state).field@) && final(id_manager)@ == old(id_manager)@,
{
    if !clear_rows {
        return cleared_count;
    }
    let c = run_simulator(&mut state.field, id_manager);
    state.cleared_rows = state.cleared_rows + c;
    cleared_count + c
}

/// The simulator run that the animated interface uses: the same passes as
/// `update`, recording the board into `frames` as it changes — before
/// anything happens (when `cleared_count` is zero), after each cleared row,
/// after each row scan, and after each settling step. Row clears are added to
/// `total_cleared_count`; `continue_update` gates the run.
#[verifier::spinoff_prover]
#[verifier::loop_isolation(false)]
pub fn animate_update(
    field: &mut GameField,
    id_manager: &mut IdManager,
    continue_update: bool,
    cleared_count: u32,
    total_cleared_count: &mut u32,
    frames: &mut VecDeque<GameField>,
) requires
        field_wf(grid(old(field)@)),
        old(id_manager).wf(),
        *old(total_cleared_count) <= u32::MAX - 16,
    ensures
        field_wf(grid(final(field)@)),
        final(id_manager).wf(),
        *final(total_cleared_count) >= *old(total_cleared_count),
        *final(total_cleared_count) - *old(total_cleared_count) <= 15,
        continue_update ==> *final(total_cleared_count) - *old(total_cleared_count)
            >= full_row_count(grid(old(field)@)),
        continue_update ==> count_occupied(grid(final(field)@)) + 5 * (*final(total_cleared_count)
            - *old(total_cleared_count)) == count_occupied(grid(old(field)@)),
        continue_update ==> forall|c: int|
            0 <= c < FIELD_WIDTH ==> #[trigger] occupied_in_col_from(grid(final(field)@), c, 0) + (
            *final(total_cleared_count) - *old(total_cleared_count)) == occupied_in_col_from(
                grid(old(field)@),
                c,
                0,
            ),
        continue_update ==> gravity_stable(grid(final(field)@)),
        continue_update ==> final(frames)@.len() >= old(frames)@.len() + 2,
        continue_update ==> grid(final(frames)@[final(frames)@.len() - 1]@) == grid(
            final(field)@,
        ),
        continue_update && cleared_count == 0 ==> grid(
            final(frames)@[old(frames)@.len() as int]@,
        ) == grid(old(field)@),
        !continue_update ==> final(field)@ == old(field)@ && final(frames)@ == old(frames)@
            && *final(total_cleared_count) == *old(total_cleared_count) && *final(id_manager)
            == *old(id_manager),
        final(frames)@.len() >= old(frames)@.len(),
        forall|k: int|
            0 <= k < old(frames)@.len() ==> (#[trigger] final(frames)@[k]) == old(frames)@[k],
        forall|k: int|
            old(frames)@.len() <= k < final(frames)@.len() ==> field_wf(
                grid((#[trigger] final(frames)@[k])@),
            ),
{
    if !continue_update {
        return ;
    }
    let ghost g_start = grid(field@);

    if cleared_count == 0 {
        let snapshot = copy_field(field);
        frames.push_back(snapshot);
        proof {
            assert(grid(frames@[old(frames)@.len() as int]@) == g_start);
        }
    }
    let first_cleared = clear_and_relabel(field, id_manager, frames, true);
    let snapshot = copy_field(field);
    frames.push_back(snapshot);
    gravity(field);
    let snapshot = copy_field(field);
    frames.push_back(snapshot);
    proof {
        lemma_count_occupied_bound(g_start);
    }
    *total_cleared_count = *total_cleared_count + first_cleared;

    if first_cleared > 0 {
        let mut done = false;
        while !done
            invariant
                field_wf(grid(field@)),
                id_manager.wf(),
                *total_cleared_count >= *old(total_cleared_count),
                *total_cleared_count - *old(total_cleared_count) >= full_row_count(g_start),
                5 * (*total_cleared_count - *old(total_cleared_count)) + count_occupied(
                    grid(field@),
                ) == count_occupied(g_start),
                forall|c: int|
                    0 <= c < FIELD_WIDTH ==> #[trigger] occupied_in_col_from(grid(field@), c, 0) + (
                    *total_cleared_count - *old(total_cleared_count)) == occupied_in_col_from(
                        g_start,
                        c,
                        0,
                    ),
                done ==> gravity_stable(grid(field@)),
                frames@.len() >= old(frames)@.len() + 2,
                grid(frames@[frames@.len() - 1]@) == grid(field@),
                cleared_count == 0 ==> grid(frames@[old(frames)@.len() as int]@) == g_start,
                forall|k: int|
                    0 <= k < old(frames)@.len() ==> (#[trigger] frames@[k]) == old(frames)@[k],
                forall|k: int|
                    old(frames)@.len() <= k < frames@.len() ==> field_wf(
                        grid((#[trigger] frames@[k])@),
                    ),
            decreases count_occupied(grid(field@)), if done {
                0int
            } else {
                1int
            },
        {
            if cleared_count == 0 {
                let snapshot = copy_field(field);
                frames.push_back(snapshot);
            }
            let c = clear_and_relabel(field, id_manager, frames, true);
            let snapshot = copy_field(field);
            frames.push_back(snapshot);
            gravity(field);
            let snapshot = copy_field(field);
            frames.push_back(snapshot);
            proof {
                lemma_count_occupied_bound(g_start);
            }
            *total_cleared_count = *total_cleared_count + c;
            if c == 0 {
                done = true;
            }
        }
    }
    proof {
        lemma_count_occupied_bound(g_start);
    }
}

} // verus!
