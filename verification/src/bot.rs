//! Placement generation and the best-first lookahead search.

use priority_queue::PriorityQueue;
use vstd::multiset::Multiset;
use vstd::prelude::*;

pub mod heuristic;

use crate::game;
use crate::game::EMPTY;
use crate::game::FIELD_HEIGHT;
use crate::game::FIELD_WIDTH;
use crate::game::GameField;
use crate::game::field_wf;
use crate::game::grid;
use crate::pentominoes::Shape;
use crate::pentominoes::col_occupied;
use crate::pentominoes::matrix_wf;
use crate::pentominoes::shape;

verus! {

broadcast use crate::lemma_rows_view_index;

// ---------------------------------------------------------------------------
// Placement legality
// ---------------------------------------------------------------------------

/// Every set cell of the matrix, placed with its top-left corner at
/// `(row, col)`, lands on the board.
pub open spec fn placement_in_bounds(m: Seq<Seq<u8>>, row: int, col: int) -> bool {
    forall|dr: int, dc: int|
        0 <= dr < m.len() && 0 <= dc < m[0].len() && #[trigger] m[dr][dc] == 1 ==> row + dr
            < FIELD_HEIGHT && col + dc < FIELD_WIDTH
}

/// Every board cell that a set cell of the matrix lands on is empty.
pub open spec fn cells_free(g: Seq<Seq<u16>>, m: Seq<Seq<u8>>, row: int, col: int) -> bool {
    forall|dr: int, dc: int|
        0 <= dr < m.len() && 0 <= dc < m[0].len() && #[trigger] m[dr][dc] == 1 ==> g[row + dr][col
            + dc] == EMPTY
}

/// Set cell `(dr, dc)` of the piece, placed at `(row, col)`, anchors it:
/// no set cell of the piece directly below it, and it rests on the board
/// floor or on an occupied board cell.
pub open spec fn cell_anchored(
    g: Seq<Seq<u16>>,
    m: Seq<Seq<u8>>,
    row: int,
    col: int,
    dr: int,
    dc: int,
) -> bool {
    &&& m[dr][dc] == 1
    &&& (dr == m.len() - 1 || m[dr + 1][dc] == 0)
    &&& (row + dr == FIELD_HEIGHT - 1 || g[row + dr + 1][col + dc] != EMPTY)
}

/// The placement legality rule: every set cell in bounds and over an empty
/// board cell, and some cell of the piece resting on the floor or on an
/// occupied cell beneath it — a piece may overhang, but may not float free
/// of all support.
pub open spec fn can_place_spec(g: Seq<Seq<u16>>, m: Seq<Seq<u8>>, row: int, col: int) -> bool {
    &&& placement_in_bounds(m, row, col)
    &&& cells_free(g, m, row, col)
    &&& exists|dr: int, dc: int|
        0 <= dr < m.len() && 0 <= dc < m[0].len() && #[trigger] cell_anchored(g, m, row, col, dr, dc)
}

/// Decides the placement legality rule for the piece matrix `mutation` with
/// its top-left corner at `(row, col)`.
#[verifier::loop_isolation(false)]
pub fn can_place(field: &GameField, mutation: &Vec<Vec<u8>>, row: usize, col: usize) -> (r: bool)
    requires
        field_wf(grid(field@)),
        matrix_wf(shape(*mutation)),
        row <= usize::MAX - FIELD_HEIGHT,
        col <= usize::MAX - FIELD_WIDTH,
    ensures
        r == can_place_spec(grid(field@), shape(*mutation), row as int, col as int),
{
    let ghost g = grid(field@);
    let ghost m = shape(*mutation);
    let width = mutation[0].len();
    let height = mutation.len();
    let mut supported = false;

    for dc in 0..width
        invariant
            supported == exists|dr2: int, dc2: int|
                0 <= dr2 < height && 0 <= dc2 < dc && #[trigger] cell_anchored(
                    g,
                    m,
                    row as int,
                    col as int,
                    dr2,
                    dc2,
                ),
            forall|dr2: int, dc2: int|
                0 <= dr2 < height && 0 <= dc2 < dc && #[trigger] m[dr2][dc2] == 1 ==> row + dr2
                    < FIELD_HEIGHT && col + dc2 < FIELD_WIDTH && g[row + dr2][col + dc2] == EMPTY,
    {
        for dr in 0..height
            invariant
                supported == exists|dr2: int, dc2: int|
                    0 <= dr2 < height && (0 <= dc2 < dc || dc2 == dc && 0 <= dr2 < dr)
                        && #[trigger] cell_anchored(g, m, row as int, col as int, dr2, dc2),
                forall|dr2: int, dc2: int|
                    0 <= dr2 < height && 0 <= dc2 < dc && #[trigger] m[dr2][dc2] == 1 ==> row + dr2
                        < FIELD_HEIGHT && col + dc2 < FIELD_WIDTH && g[row + dr2][col + dc2]
                        == EMPTY,
                forall|dr2: int|
                    0 <= dr2 < dr && #[trigger] m[dr2][dc as int] == 1 ==> row + dr2 < FIELD_HEIGHT
                        && col + dc < FIELD_WIDTH && g[row + dr2][col + dc as int] == EMPTY,
        {
            if mutation[dr][dc] != 0 {
                let tile_row = row + dr;
                let tile_col = col + dc;

                if tile_col >= field[0].len() || tile_row >= field.len() {
                    return false;
                }
                if field[tile_row][tile_col] != EMPTY {
                    return false;
                }
                if dr == mutation.len() - 1 || mutation[dr + 1][dc] == 0 {
                    // a bottom-exposed cell of the piece: does anything
                    // carry it?
                    if tile_row == field.len() - 1 || field[tile_row + 1][tile_col] != EMPTY {
                        supported = true;
                        proof {
                            assert(cell_anchored(g, m, row as int, col as int, dr as int, dc as int));
                        }
                    }
                }
            }
        }
    }
    supported
}

/// Every bottom-exposed set cell of the placement hangs in the air: the
/// placement touches neither the floor nor any occupied cell from above.
pub open spec fn unsupported(g: Seq<Seq<u16>>, m: Seq<Seq<u8>>, row: int, col: int) -> bool {
    forall|dr: int, dc: int|
        0 <= dr < m.len() && 0 <= dc < m[0].len() && #[trigger] m[dr][dc] == 1 && (dr == m.len() - 1
            || m[dr + 1][dc] == 0) ==> row + dr < FIELD_HEIGHT - 1 && g[row + dr + 1][col + dc]
            == EMPTY
}

/// Placement legality, stated as the laws it obeys: a placement with any set
/// cell out of bounds is rejected; one overlapping an occupied cell is
/// rejected; and one in which no cell of the piece rests on the board floor
/// or on an occupied cell beneath it is rejected.
pub proof fn lemma_can_place_rejects(g: Seq<Seq<u16>>, m: Seq<Seq<u8>>, row: int, col: int)
    requires
        matrix_wf(m),
    ensures
        !placement_in_bounds(m, row, col) ==> !can_place_spec(g, m, row, col),
        !cells_free(g, m, row, col) ==> !can_place_spec(g, m, row, col),
        unsupported(g, m, row, col) ==> !can_place_spec(g, m, row, col),
{
    if unsupported(g, m, row, col) {
        assert forall|dr: int, dc: int|
            !(0 <= dr < m.len() && 0 <= dc < m[0].len() && #[trigger] cell_anchored(
                g,
                m,
                row,
                col,
                dr,
                dc,
            )) by {
            if 0 <= dr < m.len() && 0 <= dc < m[0].len() && cell_anchored(g, m, row, col, dr, dc) {
                assert(row + dr < FIELD_HEIGHT - 1 && g[row + dr + 1][col + dc] == EMPTY);
            }
        }
    }
}

// ---------------------------------------------------------------------------
// Placing a piece
// ---------------------------------------------------------------------------

/// Whether board cell `(r, c)` is covered by a set cell of the matrix placed
/// with its top-left corner at `(row, col)`.
pub open spec fn covers(m: Seq<Seq<u8>>, row: int, col: int, r: int, c: int) -> bool {
    &&& 0 <= r - row < m.len()
    &&& 0 <= c - col < m[0].len()
    &&& m[r - row][c - col] == 1
}

/// The board after stamping `tile` into every covered cell.
#[verifier::opaque]
pub open spec fn placed_grid(
    g: Seq<Seq<u16>>,
    m: Seq<Seq<u8>>,
    row: int,
    col: int,
    tile: u16,
) -> Seq<Seq<u16>> {
    Seq::new(
        FIELD_HEIGHT as nat,
        |r: int|
            Seq::new(
                FIELD_WIDTH as nat,
                |c: int|
                    if covers(m, row, col, r, c) {
                        tile
                    } else {
                        g[r][c]
                    },
            ),
    )
}

/// Stamps `composite_id` into every board cell that a set cell of the matrix
/// covers. Does not check legality: callers must have used `can_place`.
#[verifier::loop_isolation(false)]
pub fn place_piece(
    field: GameField,
    mutation: &Vec<Vec<u8>>,
    composite_id: u16,
    row: usize,
    col: usize,
) -> (out: GameField)
    requires
        field_wf(grid(field@)),
        matrix_wf(shape(*mutation)),
        placement_in_bounds(shape(*mutation), row as int, col as int),
        row <= usize::MAX - FIELD_HEIGHT,
        col <= usize::MAX - FIELD_WIDTH,
    ensures
        field_wf(grid(out@)),
        grid(out@) == placed_grid(
            grid(field@),
            shape(*mutation),
            row as int,
            col as int,
            composite_id,
        ),
{
    let ghost g0 = grid(field@);
    let ghost m = shape(*mutation);
    let mut field = field;
    let height = mutation.len();
    let width = mutation[0].len();

    for dr in 0..height
        invariant
            field_wf(grid(field@)),
            forall|r: int, c: int|
                game::in_field(r, c) ==> #[trigger] grid(field@)[r][c] == (if covers(
                    m,
                    row as int,
                    col as int,
                    r,
                    c,
                ) && r - row < dr {
                    composite_id
                } else {
                    g0[r][c]
                }),
    {
        for dc in 0..width
            invariant
                field_wf(grid(field@)),
                forall|r: int, c: int|
                    game::in_field(r, c) ==> #[trigger] grid(field@)[r][c] == (if covers(
                        m,
                        row as int,
                        col as int,
                        r,
                        c,
                    ) && (r - row < dr || (r - row == dr && c - col < dc)) {
                        composite_id
                    } else {
                        g0[r][c]
                    }),
        {
            if mutation[dr][dc] != 0 {
                field[row + dr][col + dc] = composite_id;
            }
        }
    }
    proof {
        reveal(placed_grid);
        assert(grid(field@) =~~= placed_grid(g0, m, row as int, col as int, composite_id));
    }
    field
}

} // verus!

use crate::game::IdManager;
use crate::game::State;
use crate::game::chars_equal;
use crate::game::copy_chars;
use crate::game::copy_field;
use crate::game::spec_pent_id;
use crate::pentominoes;
use crate::pentominoes::Permutations;
use crate::pentominoes::catalog_wf;
use crate::pentominoes::spec_char_to_id;

verus! {

// ---------------------------------------------------------------------------
// The search frontier, ordered by heuristic score
// ---------------------------------------------------------------------------

#[verifier::external_type_specification]
#[verifier::external_body]
#[verifier::reject_recursive_types(I)]
#[verifier::reject_recursive_types(P)]
#[verifier::reject_recursive_types(H)]
pub struct ExPriorityQueue<I, P, H>(PriorityQueue<I, P, H>);

/// The item-priority pairs a frontier queue holds.
pub uninterp spec fn pq_contents(q: PriorityQueue<usize, i32>) -> Multiset<(usize, i32)>;

/// Relies on priority_queue::PriorityQueue::new: creates an empty queue.
#[verifier::external_body]
fn pq_new() -> (q: PriorityQueue<usize, i32>)
    ensures
        pq_contents(q) == Multiset::<(usize, i32)>::empty(),
{
    PriorityQueue::new()
}

/// Relies on priority_queue::PriorityQueue::push: when no pair with this
/// item is in the queue, the pair is inserted and nothing else changes.
#[verifier::external_body]
fn pq_push(q: &mut PriorityQueue<usize, i32>, item: usize, priority: i32)
    requires
        forall|p: i32| !pq_contents(*old(q)).contains((item, p)),
    ensures
        pq_contents(*final(q)) == pq_contents(*old(q)).insert((item, priority)),
{
    q.push(item, priority);
}

/// Relies on priority_queue::PriorityQueue::pop: removes and returns a pair
/// whose priority none in the queue exceeds, or None on the empty queue.
#[verifier::external_body]
fn pq_pop(q: &mut PriorityQueue<usize, i32>) -> (r: Option<(usize, i32)>)
    ensures
        match r {
            None => pq_contents(*old(q)) == Multiset::<(usize, i32)>::empty() && pq_contents(
                *final(q),
            ) == pq_contents(*old(q)),
            Some(pair) => pq_contents(*old(q)).contains(pair) && pq_contents(*final(q))
                == pq_contents(*old(q)).remove(pair) && forall|other: (usize, i32)|
                pq_contents(*old(q)).contains(other) ==> other.1 <= pair.1,
        },
{
    q.pop()
}

// ---------------------------------------------------------------------------
// Successor generation
// ---------------------------------------------------------------------------

/// Variant `v` of piece `p` can legally be placed with its top-left corner
/// at `(row, col)`.
pub open spec fn legal_placement(
    g: Seq<Seq<u16>>,
    perms: Seq<Vec<Shape>>,
    p: int,
    v: int,
    row: int,
    col: int,
) -> bool {
    &&& 0 <= v < perms[p]@.len()
    &&& 0 <= row
    &&& 0 <= col
    &&& can_place_spec(g, shape(perms[p]@[v]), row, col)
}

/// Piece `p` has some legal placement on the board.
pub open spec fn any_legal(g: Seq<Seq<u16>>, perms: Seq<Vec<Shape>>, p: int) -> bool {
    exists|v: int, row: int, col: int| #[trigger] legal_placement(g, perms, p, v, row, col)
}

/// The board of `u` is the board of `parent` with one legal placement of
/// piece `p` stamped onto it, as tile value `tile`.
#[verifier::opaque]
pub open spec fn placed_as(
    u: State,
    parent: State,
    perms: Seq<Vec<Shape>>,
    p: int,
    v: int,
    row: int,
    col: int,
    tile: u16,
) -> bool {
    &&& legal_placement(grid(parent.field@), perms, p, v, row, col)
    &&& spec_pent_id(tile) == p
    &&& tile != EMPTY
    &&& grid(u.field@) == placed_grid(grid(parent.field@), shape(perms[p]@[v]), row, col, tile)
}

/// The board of `child` is the board of `parent` with some legal placement
/// of piece `p` stamped onto it as the tile value `tile`.
pub open spec fn placed_with(
    child: State,
    parent: State,
    perms: Seq<Vec<Shape>>,
    p: int,
    tile: u16,
) -> bool {
    exists|v: int, row: int, col: int| #[trigger] placed_as(child, parent, perms, p, v, row, col, tile)
}

/// `u` is the first-decision snapshot of one legal placement of piece `p` on
/// the parent board: the board right after the placement, before any
/// clearing, with the parent's piece queue and clear count.
pub open spec fn placement_snapshot(
    u: State,
    parent: State,
    parent_index: usize,
    perms: Seq<Vec<Shape>>,
    p: int,
) -> bool {
    &&& field_wf(grid(u.field@))
    &&& u.remaining_pieces@ == parent.remaining_pieces@
    &&& u.cleared_rows == parent.cleared_rows
    &&& u.parent_state == Some(parent_index)
    &&& u.uncleared_state is None
    &&& exists|v: int, row: int, col: int, tile: u16|
        #[trigger] placed_as(u, parent, perms, p, v, row, col, tile)
}

/// What `generate_states` promises of each child it returns: the child's
/// board is the parent's with one legal placement of piece `p` stamped onto
/// it, the queue has advanced by one, and — on the first generation — the
/// child carries a snapshot of that same just-placed board.
pub open spec fn child_result(
    child: State,
    parent: State,
    parent_index: usize,
    perms: Seq<Vec<Shape>>,
    p: int,
    first_gen: bool,
) -> bool {
    &&& field_wf(grid(child.field@))
    &&& exists|v: int, row: int, col: int, tile: u16|
        #[trigger] placed_as(child, parent, perms, p, v, row, col, tile)
    &&& child.remaining_pieces@ == parent.remaining_pieces@.skip(1)
    &&& child.cleared_rows == parent.cleared_rows
    &&& child.parent_state == Some(parent_index)
    &&& match child.uncleared_state {
        Some(u) => first_gen && placement_snapshot(*u, parent, parent_index, perms, p) && grid(
            (*u).field@,
        ) == grid(child.field@),
        None => !first_gen,
    }
}

/// Generates one child state for every legal placement of `piece` on the
/// parent board: the piece is stamped with one freshly allocated tile value,
/// the child keeps the rest of the piece queue, and — on the first
/// generation only — carries the pre-clearing snapshot that the search
/// returns once the lookahead is exhausted. Children come back in scan
/// order: variants in catalog order, rows top to bottom, columns left to
/// right.
#[verifier::spinoff_prover]
#[verifier::loop_isolation(false)]
pub fn generate_states(
    parent: &State,
    parent_index: usize,
    piece: char,
    permutations: &Permutations,
    id_manager: &mut IdManager,
    is_first_generation: bool,
) -> (states: Vec<State>)
    requires
        field_wf(grid(parent.field@)),
        catalog_wf(permutations@),
        old(id_manager).wf(),
        spec_char_to_id(piece) < 12,
        parent.remaining_pieces@.len() >= 1,
    ensures
        final(id_manager).wf(),
        forall|k: int|
            0 <= k < states@.len() ==> child_result(
                #[trigger] states@[k],
                *parent,
                parent_index,
                permutations@,
                spec_char_to_id(piece) as int,
                is_first_generation,
            ),
        states@.len() > 0 <==> any_legal(
            grid(parent.field@),
            permutations@,
            spec_char_to_id(piece) as int,
        ),
        exists|tile: u16|
            (#[trigger] spec_pent_id(tile)) == spec_char_to_id(piece) && tile != EMPTY && (
            forall|v: int, row: int, col: int|
                #[trigger] legal_placement(
                    grid(parent.field@),
                    permutations@,
                    spec_char_to_id(piece) as int,
                    v,
                    row,
                    col,
                ) ==> exists|k: int|
                    0 <= k < states@.len() && placed_as(
                        #[trigger] states@[k],
                        *parent,
                        permutations@,
                        spec_char_to_id(piece) as int,
                        v,
                        row,
                        col,
                        tile,
                    )),
{
    let ghost g = grid(parent.field@);
    let ghost perms = permutations@;
    let ghost p = spec_char_to_id(piece) as int;

    let mut states: Vec<State> = Vec::new();
    let ghost mut placements: Seq<(int, int, int)> = Seq::empty();

    let pent_id = pentominoes::char_to_id(piece);
    let unique_id = id_manager.next_unique_id(pent_id);
    let composite_id = game::create_composite_id(pent_id, unique_id);
    proof {
        game::lemma_composite_id(pent_id, unique_id);
    }

    let variants = &permutations[pent_id as usize];
    let variant_count = variants.len();
    for v in 0..variant_count
        invariant
            forall|k: int|
                0 <= k < states@.len() ==> child_result(
                    #[trigger] states@[k],
                    *parent,
                    parent_index,
                    perms,
                    p,
                    is_first_generation,
                ),
            states@.len() > 0 ==> any_legal(g, perms, p),
            placements.len() == states@.len(),
            forall|k: int|
                0 <= k < states@.len() ==> placed_as(
                    #[trigger] states@[k],
                    *parent,
                    perms,
                    p,
                    placements[k].0,
                    placements[k].1,
                    placements[k].2,
                    composite_id,
                ),
            forall|v2: int, row2: int, col2: int|
                0 <= v2 < v && #[trigger] legal_placement(g, perms, p, v2, row2, col2)
                    ==> exists|k: int| 0 <= k < placements.len() && placements[k] == (v2, row2, col2),
    {
        let mutation = &variants[v];
        let ghost m = shape(*mutation);
        let height = mutation.len();
        let width = mutation[0].len();
        let row_limit = FIELD_HEIGHT - height + 1;
        let col_limit = FIELD_WIDTH - width + 1;
        for row in 0..row_limit
            invariant
                forall|k: int|
                    0 <= k < states@.len() ==> child_result(
                        #[trigger] states@[k],
                        *parent,
                        parent_index,
                        perms,
                        p,
                        is_first_generation,
                    ),
                states@.len() > 0 ==> any_legal(g, perms, p),
                placements.len() == states@.len(),
                forall|k: int|
                    0 <= k < states@.len() ==> placed_as(
                        #[trigger] states@[k],
                        *parent,
                        perms,
                        p,
                        placements[k].0,
                        placements[k].1,
                        placements[k].2,
                        composite_id,
                    ),
                forall|v2: int, row2: int, col2: int|
                    0 <= v2 < v && #[trigger] legal_placement(g, perms, p, v2, row2, col2)
                        ==> exists|k: int|
                        0 <= k < placements.len() && placements[k] == (v2, row2, col2),
                forall|row2: int, col2: int|
                    0 <= row2 < row && #[trigger] legal_placement(g, perms, p, v as int, row2, col2)
                        ==> exists|k: int|
                        0 <= k < placements.len() && placements[k] == (v as int, row2, col2),
        {
            for col in 0..col_limit
                invariant
                    forall|k: int|
                        0 <= k < states@.len() ==> child_result(
                            #[trigger] states@[k],
                            *parent,
                            parent_index,
                            perms,
                            p,
                            is_first_generation,
                        ),
                    states@.len() > 0 ==> any_legal(g, perms, p),
                    placements.len() == states@.len(),
                    forall|k: int|
                        0 <= k < states@.len() ==> placed_as(
                            #[trigger] states@[k],
                            *parent,
                            perms,
                            p,
                            placements[k].0,
                            placements[k].1,
                            placements[k].2,
                            composite_id,
                        ),
                    forall|v2: int, row2: int, col2: int|
                        0 <= v2 < v && #[trigger] legal_placement(g, perms, p, v2, row2, col2)
                            ==> exists|k: int|
                            0 <= k < placements.len() && placements[k] == (v2, row2, col2),
                    forall|row2: int, col2: int|
                        0 <= row2 < row && #[trigger] legal_placement(
                            g,
                            perms,
                            p,
                            v as int,
                            row2,
                            col2,
                        ) ==> exists|k: int|
                            0 <= k < placements.len() && placements[k] == (v as int, row2, col2),
                    forall|col2: int|
                        0 <= col2 < col && #[trigger] legal_placement(
                            g,
                            perms,
                            p,
                            v as int,
                            row as int,
                            col2,
                        ) ==> exists|k: int|
                            0 <= k < placements.len() && placements[k] == (
                            v as int,
                            row as int,
                            col2,
                        ),
            {
                if can_place(&parent.field, mutation, row, col) {
                    let mut child_state = State {
                        parent_state: Some(parent_index),
                        uncleared_state: None,
                        field: place_piece(
                            copy_field(&parent.field),
                            mutation,
                            composite_id,
                            row,
                            col,
                        ),
                        cleared_rows: parent.cleared_rows,
                        remaining_pieces: copy_chars(&parent.remaining_pieces),
                    };

                    if is_first_generation {
                        let snapshot = State {
                            parent_state: Some(parent_index),
                            uncleared_state: None,
                            field: copy_field(&child_state.field),
                            cleared_rows: child_state.cleared_rows,
                            remaining_pieces: copy_chars(&child_state.remaining_pieces),
                        };
                        proof {
                            reveal(placed_as);
                            assert(placed_as(
                                snapshot,
                                *parent,
                                perms,
                                p,
                                v as int,
                                row as int,
                                col as int,
                                composite_id,
                            ));
                        }
                        child_state.uncleared_state = Some(Box::new(snapshot));
                    }

                    child_state.remaining_pieces.remove(0);
                    proof {
                        reveal(placed_as);
                        assert(legal_placement(g, perms, p, v as int, row as int, col as int));
                        assert(placed_as(
                            child_state,
                            *parent,
                            perms,
                            p,
                            v as int,
                            row as int,
                            col as int,
                            composite_id,
                        ));
                        assert(child_result(
                            child_state,
                            *parent,
                            parent_index,
                            perms,
                            p,
                            is_first_generation,
                        ));
                    }
                    let ghost states_old = states@;
                    let ghost placements_old = placements;
                    states.push(child_state);
                    proof {
                        placements = placements.push((v as int, row as int, col as int));
                        assert forall|v2: int, row2: int, col2: int|
                            0 <= v2 < v && #[trigger] legal_placement(g, perms, p, v2, row2, col2)
                            implies exists|k: int|
                            0 <= k < placements.len() && placements[k] == (v2, row2, col2) by {
                            let k = choose|k: int|
                                0 <= k < placements_old.len() && placements_old[k] == (
                                v2,
                                row2,
                                col2,
                                );
                            assert(placements[k] == (v2, row2, col2));
                        }
                        assert forall|row2: int, col2: int|
                            0 <= row2 < row && #[trigger] legal_placement(
                            g,
                            perms,
                            p,
                            v as int,
                            row2,
                            col2,
                        ) implies exists|k: int|
                            0 <= k < placements.len() && placements[k] == (v as int, row2, col2) by {
                            let k = choose|k: int|
                                0 <= k < placements_old.len() && placements_old[k] == (
                                v as int,
                                row2,
                                col2,
                                );
                            assert(placements[k] == (v as int, row2, col2));
                        }
                        assert forall|col2: int|
                            0 <= col2 < col && #[trigger] legal_placement(
                            g,
                            perms,
                            p,
                            v as int,
                            row as int,
                            col2,
                        ) implies exists|k: int|
                            0 <= k < placements.len() && placements[k] == (
                            v as int,
                            row as int,
                            col2,
                        ) by {
                            let k = choose|k: int|
                                0 <= k < placements_old.len() && placements_old[k] == (
                                v as int,
                                row as int,
                                col2,
                                );
                            assert(placements[k] == (v as int, row as int, col2));
                        }
                        assert forall|k: int|
                            0 <= k < states@.len() implies child_result(
                            #[trigger] states@[k],
                            *parent,
                            parent_index,
                            perms,
                            p,
                            is_first_generation,
                        ) by {
                            if k < states_old.len() {
                                assert(states@[k] == states_old[k]);
                            }
                        }
                        assert forall|k: int|
                            0 <= k < states@.len() implies placed_as(
                            #[trigger] states@[k],
                            *parent,
                            perms,
                            p,
                            placements[k].0,
                            placements[k].1,
                            placements[k].2,
                            composite_id,
                        ) by {
                            if k < states_old.len() {
                                assert(states@[k] == states_old[k]);
                            } else {
                                assert(placements[k] == (v as int, row as int, col as int));
                            }
                        }
                        assert(placements[placements.len() - 1] == (
                            v as int,
                            row as int,
                            col as int,
                        ));
                    }
                }
            }
            proof {
                assert forall|col2: int|
                    #[trigger] legal_placement(g, perms, p, v as int, row as int, col2)
                    implies exists|k: int|
                    0 <= k < placements.len() && placements[k] == (v as int, row as int, col2) by {
                    lemma_legal_origin_bounds(m, row as int, col2);
                }
            }
        }
        proof {
            assert forall|row2: int, col2: int|
                #[trigger] legal_placement(g, perms, p, v as int, row2, col2)
                implies exists|k: int|
                0 <= k < placements.len() && placements[k] == (v as int, row2, col2) by {
                lemma_legal_origin_bounds(m, row2, col2);
            }
        }
    }
    proof {
        if states@.len() == 0 {
            assert forall|v2: int, row2: int, col2: int|
                !(#[trigger] legal_placement(g, perms, p, v2, row2, col2)) by {
                if legal_placement(g, perms, p, v2, row2, col2) {
                    assert(states@.len() > 0);
                }
            }
        }
        assert forall|v2: int, row2: int, col2: int|
            #[trigger] legal_placement(g, perms, p, v2, row2, col2) implies exists|k: int|
            0 <= k < states@.len() && placed_as(
                #[trigger] states@[k],
                *parent,
                perms,
                p,
                v2,
                row2,
                col2,
                composite_id,
            ) by {
            let k = choose|k: int| 0 <= k < placements.len() && placements[k] == (v2, row2, col2);
            assert(placed_as(states@[k], *parent, perms, p, v2, row2, col2, composite_id));
        }
        assert(spec_pent_id(composite_id) == spec_char_to_id(piece));
        assert(composite_id != EMPTY);
    }
    states
}

/// A legal placement's origin leaves room for the whole matrix: tightness
/// puts a set cell in the last row and in the last column of the bounding
/// box, and those cells land on the board.
proof fn lemma_legal_origin_bounds(m: Seq<Seq<u8>>, row: int, col: int)
    requires
        matrix_wf(m),
        0 <= row,
        0 <= col,
        placement_in_bounds(m, row, col),
    ensures
        row + m.len() <= FIELD_HEIGHT,
        col + m[0].len() <= FIELD_WIDTH,
{
    assert(crate::pentominoes::row_occupied(m, m.len() - 1));
    let c0 = choose|c0: int| 0 <= c0 < m[0].len() && #[trigger] m[m.len() - 1][c0] == 1;
    assert(row + (m.len() - 1) < FIELD_HEIGHT);
    assert(col_occupied(m, m[0].len() - 1));
    let r0 = choose|r0: int| 0 <= r0 < m.len() && #[trigger] m[r0][m[0].len() - 1] == 1;
    assert(col + (m[0].len() - 1) < FIELD_WIDTH);
}

// ---------------------------------------------------------------------------
// Best-first lookahead search
// ---------------------------------------------------------------------------

/// The board of `s` is the board of `init` with one legal placement of the
/// first queued piece stamped onto it: the one-ply decision the search
/// commits.
pub open spec fn first_move_of(s: State, init: State, perms: Seq<Vec<Shape>>) -> bool {
    exists|v: int, row: int, col: int, tile: u16|
        #[trigger] placed_as(
            s,
            init,
            perms,
            spec_char_to_id(init.remaining_pieces@[0]) as int,
            v,
            row,
            col,
            tile,
        )
}

/// What holds of every node of the search arena, all through the search:
/// node 0 is the initial state; every other node points at an earlier parent
/// whose piece queue is one longer; no queue but the root's reaches the
/// lookahead length; boards are well formed; queued pieces are valid; clear
/// counts stay within what the lookahead allows; and every node one ply
/// below the root carries its first-decision snapshot.
pub open spec fn arena_inv(
    arena: Seq<State>,
    init: State,
    perms: Seq<Vec<Shape>>,
    lookahead: int,
) -> bool {
    &&& arena.len() >= 1
    &&& arena[0] == init
    &&& forall|i: int|
        0 < i < arena.len() ==> match (#[trigger] arena[i]).parent_state {
            Some(par) => par < i && arena[par as int].remaining_pieces@.len() == arena[
                i
            ].remaining_pieces@.len() + 1,
            None => false,
        }
    &&& forall|i: int|
        0 < i < arena.len() ==> (#[trigger] arena[i]).remaining_pieces@.len() < lookahead
    &&& forall|i: int| 0 <= i < arena.len() ==> field_wf(grid((#[trigger] arena[i]).field@))
    &&& forall|i: int, j: int|
        0 <= i < arena.len() && 0 <= j < arena[i].remaining_pieces@.len() ==> spec_char_to_id(
            #[trigger] arena[i].remaining_pieces@[j],
        ) < 12
    &&& forall|i: int|
        0 <= i < arena.len() ==> (#[trigger] arena[i]).cleared_rows <= init.cleared_rows + 15 * (
        lookahead - arena[i].remaining_pieces@.len())
    &&& forall|i: int|
        0 < i < arena.len() && arena[i].remaining_pieces@.len() == lookahead - 1 ==> match (
        #[trigger] arena[i]).uncleared_state {
            Some(u) => placement_snapshot(
                *u,
                init,
                0,
                perms,
                spec_char_to_id(init.remaining_pieces@[0]) as int,
            ),
            None => false,
        }
}

/// Appending a freshly generated and evaluated child below a known parent
/// keeps the arena's invariant.
proof fn lemma_arena_push(
    arena0: Seq<State>,
    child: State,
    init: State,
    perms: Seq<Vec<Shape>>,
    lookahead: int,
    parent_index: usize,
    piece: char,
)
    requires
        arena_inv(arena0, init, perms, lookahead),
        lookahead >= 1,
        (parent_index as int) < arena0.len(),
        arena0[parent_index as int].remaining_pieces@.len() >= 1,
        piece == arena0[parent_index as int].remaining_pieces@[0],
        field_wf(grid(child.field@)),
        child.remaining_pieces@ == arena0[parent_index as int].remaining_pieces@.skip(1),
        child.parent_state == Some(parent_index),
        child.cleared_rows <= arena0[parent_index as int].cleared_rows + 15,
        child.remaining_pieces@.len() == lookahead - 1 ==> match child.uncleared_state {
            Some(u) => placement_snapshot(
                *u,
                arena0[parent_index as int],
                parent_index,
                perms,
                spec_char_to_id(piece) as int,
            ),
            None => false,
        },
    ensures
        arena_inv(arena0.push(child), init, perms, lookahead),
{
    let arena = arena0.push(child);
    let pi = parent_index as int;
    let parent = arena0[pi];
    assert(parent.remaining_pieces@.len() <= lookahead);
    assert(child.remaining_pieces@.len() == parent.remaining_pieces@.len() - 1);
    assert forall|i: int| 0 <= i < arena0.len() implies arena[i] == arena0[i] by {}
    assert(arena[arena0.len() as int] == child);
    assert forall|i: int, j: int|
        0 <= i < arena.len() && 0 <= j < arena[i].remaining_pieces@.len() implies spec_char_to_id(
        #[trigger] arena[i].remaining_pieces@[j],
    ) < 12 by {
        if i == arena0.len() {
            assert(child.remaining_pieces@[j] == parent.remaining_pieces@[j + 1]);
            assert(spec_char_to_id(parent.remaining_pieces@[j + 1]) < 12);
        }
    }
    if child.remaining_pieces@.len() == lookahead - 1 {
        assert(parent.remaining_pieces@.len() == lookahead);
        assert(pi == 0);
    }
}

/// Best-first search over placements of the queued pieces. The frontier is
/// ordered by the heuristic score; a state equal to one already seen — same
/// board, same queue — is not kept. When a state has placed every queued
/// piece, the search walks back to the node that placed the first piece and
/// returns its pre-clearing snapshot: the deeper plies only evaluated that
/// one committed move. `None` means the frontier ran dry; in particular,
/// when the first queued piece has no legal placement, nothing ever extends
/// the root and the search returns `None`. Success is machine-checked as
/// owed only for a single-piece lookahead; for deeper queues the contract
/// pins any returned state but leaves `None` admissible.
#[verifier::spinoff_prover]
#[verifier::rlimit(100)]
#[verifier::loop_isolation(false)]
pub fn search(
    initial_state: State,
    permutations: &Permutations,
    id_manager: &mut IdManager,
    lookahead_size: &u8,
) -> (result: Option<State>)
    requires
        field_wf(grid(initial_state.field@)),
        catalog_wf(permutations@),
        old(id_manager).wf(),
        *lookahead_size >= 1,
        initial_state.remaining_pieces@.len() == *lookahead_size,
        forall|j: int|
            0 <= j < initial_state.remaining_pieces@.len() ==> spec_char_to_id(
                #[trigger] initial_state.remaining_pieces@[j],
            ) < 12,
        initial_state.cleared_rows <= u32::MAX - 16 - 15 * 256,
    ensures
        final(id_manager).wf(),
        match result {
            Some(s) => {
                &&& field_wf(grid(s.field@))
                &&& s.remaining_pieces@ == initial_state.remaining_pieces@
                &&& s.cleared_rows == initial_state.cleared_rows
                &&& s.uncleared_state is None
                &&& first_move_of(s, initial_state, permutations@)
                &&& any_legal(
                    grid(initial_state.field@),
                    permutations@,
                    spec_char_to_id(initial_state.remaining_pieces@[0]) as int,
                )
            },
            None => true,
        },
        *lookahead_size == 1 && any_legal(
            grid(initial_state.field@),
            permutations@,
            spec_char_to_id(initial_state.remaining_pieces@[0]) as int,
        ) ==> result is Some,
{
    let ghost init = initial_state;
    let ghost perms = permutations@;
    let lookahead = *lookahead_size;
    let ghost one_ply = lookahead as int == 1 && any_legal(
        grid(init.field@),
        perms,
        spec_char_to_id(init.remaining_pieces@[0]) as int,
    );

    let mut arena: Vec<State> = Vec::new();
    let mut queue = pq_new();

    arena.push(initial_state);
    pq_push(&mut queue, 0, 0);

    // The search terminates on its own — every kept state is new to the
    // visited set, and there are finitely many boards — but that bound lives
    // outside this proof. The budget gives the loop its measure; no
    // reachable frontier comes anywhere near it.
    let mut budget: u64 = u64::MAX;

    loop
        invariant
            arena_inv(arena@, init, perms, lookahead as int),
            id_manager.wf(),
            forall|pr: (usize, i32)|
                #[trigger] pq_contents(queue).count(pr) > 0 ==> pr.0 < arena@.len(),
            one_ply ==> (budget == u64::MAX && arena@.len() == 1 && pq_contents(queue)
                == Multiset::<(usize, i32)>::empty().insert((0usize, 0i32))) || (budget == u64::MAX
                - 1 && (exists|pr: (usize, i32)| #[trigger] pq_contents(queue).count(pr) > 0) && (
            forall|pr: (usize, i32)| #[trigger] pq_contents(queue).count(pr) > 0 ==> pr.0 >= 1)),
        decreases budget,
    {
        proof {
            if one_ply {
                assert(budget >= u64::MAX - 1);
            }
        }
        if budget == 0 {
            return None;
        }
        budget = budget - 1;

        let ghost contents_before = pq_contents(queue);
        let popped = pq_pop(&mut queue);
        let (current, _priority) = match popped {
            None => {
                proof {
                    if one_ply {
                        if contents_before == Multiset::<(usize, i32)>::empty().insert(
                            (0usize, 0i32),
                        ) {
                            assert(contents_before.count((0usize, 0i32)) == 1);
                        }
                        assert(false);
                    }
                }
                return None;
            },
            Some(pair) => pair,
        };
        if arena[current].remaining_pieces.len() == 0 {
            // A full lookahead is placed: walk back to the node that placed
            // the first piece and return its pre-clearing snapshot.
            let mut cur = current;
            for step in 1..(lookahead as usize)
                invariant
                    cur < arena@.len(),
                    arena@[cur as int].remaining_pieces@.len() == step - 1,
            {
                let parent_opt = arena[cur].parent_state;
                cur = match parent_opt {
                    Some(par) => par,
                    None => {
                        proof {
                            assert(false);
                        }
                        unreached()
                    },
                };
            }
            let node = &arena[cur];
            proof {
                assert(cur > 0);
                assert(arena@[cur as int].remaining_pieces@.len() == lookahead - 1);
            }
            match &node.uncleared_state {
                Some(u) => {
                    let result_state = State {
                        parent_state: u.parent_state,
                        uncleared_state: None,
                        field: copy_field(&u.field),
                        remaining_pieces: copy_chars(&u.remaining_pieces),
                        cleared_rows: u.cleared_rows,
                    };
                    proof {
                        reveal(placed_as);
                        let snap: State = **u;
                        let p0 = spec_char_to_id(init.remaining_pieces@[0]) as int;
                        let (v, row, col, tile) = choose|v: int, row: int, col: int, tile: u16|
                            #[trigger] placed_as(snap, init, perms, p0, v, row, col, tile);
                        assert(placed_as(result_state, init, perms, p0, v, row, col, tile));
                    }
                    return Some(result_state);
                },
                None => {
                    proof {
                        assert(false);
                    }
                    unreached()
                },
            }
        } else {
            proof {
                if one_ply {
                    // with every queued pair pointing at a placed-out node,
                    // this pop would have been terminal: the root was popped
                    if !(contents_before == Multiset::<(usize, i32)>::empty().insert(
                        (0usize, 0i32),
                    )) {
                        assert(contents_before.count((current, _priority)) > 0);
                        assert((current, _priority).0 >= 1);
                        assert(arena@[current as int].remaining_pieces@.len() == 0);
                        assert(false);
                    }
                    if (current, _priority) != (0usize, 0i32) {
                        assert(contents_before.count((current, _priority)) == 0);
                        assert(false);
                    }
                    assert(pq_contents(queue) =~= Multiset::<(usize, i32)>::empty());
                }
            }
            let piece = arena[current].remaining_pieces[0];
            let is_first_generation = arena[current].remaining_pieces.len() == lookahead as usize;

            let mut children = generate_states(
                &arena[current],
                current,
                piece,
                permutations,
                id_manager,
                is_first_generation,
            );

            let ghost parent_g = arena@[current as int];
            while children.len() > 0
                invariant
                    arena_inv(arena@, init, perms, lookahead as int),
                    id_manager.wf(),
                    forall|pr: (usize, i32)|
                        #[trigger] pq_contents(queue).count(pr) > 0 ==> pr.0 < arena@.len(),
                    (current as int) < arena@.len(),
                    arena@[current as int] == parent_g,
                    parent_g.remaining_pieces@.len() >= 1,
                    piece == parent_g.remaining_pieces@[0],
                    is_first_generation == (parent_g.remaining_pieces@.len() == lookahead as int),
                    forall|k: int|
                        0 <= k < children@.len() ==> child_result(
                            #[trigger] children@[k],
                            parent_g,
                            current,
                            perms,
                            spec_char_to_id(piece) as int,
                            is_first_generation,
                        ),
                    one_ply ==> current == 0 && parent_g == init,
                    one_ply ==> (arena@.len() == 1 && pq_contents(queue) == Multiset::<
                        (usize, i32),
                    >::empty()) || (arena@.len() >= 2 && exists|pr: (usize, i32)|
                        #[trigger] pq_contents(queue).count(pr) > 0),
                    one_ply ==> forall|pr: (usize, i32)|
                        #[trigger] pq_contents(queue).count(pr) > 0 ==> pr.0 >= 1,
                    one_ply ==> children@.len() > 0 || arena@.len() >= 2,
                decreases children@.len(),
            {
                let mut child = children.remove(0);
                let heuristic_score = heuristic::apply(&mut child, id_manager);

                proof {
                    if one_ply {
                        assert(child.remaining_pieces@ == parent_g.remaining_pieces@.skip(1));
                        assert(child.remaining_pieces@.len() == 0);
                    }
                }
                let mut duplicate = false;
                let arena_len = arena.len();
                for i in 0..arena_len
                    invariant
                        arena_len == arena@.len(),
                        one_ply && arena@.len() == 1 ==> !duplicate,
                {
                    if chars_equal(&arena[i].remaining_pieces, &child.remaining_pieces)
                        && arena[i].field == child.field {
                        duplicate = true;
                    }
                }

                if !duplicate {
                    let idx = arena.len();
                    let ghost arena_old = arena@;
                    proof {
                        lemma_arena_push(
                            arena_old,
                            child,
                            init,
                            perms,
                            lookahead as int,
                            current,
                            piece,
                        );
                    }
                    arena.push(child);
                    proof {
                        assert forall|pp: i32| !pq_contents(queue).contains((idx, pp)) by {
                            if pq_contents(queue).contains((idx, pp)) {
                                let pr = (idx, pp);
                                assert(pq_contents(queue).count(pr) > 0);
                                assert(pr.0 < arena_old.len());
                            }
                        }
                    }
                    pq_push(&mut queue, idx, heuristic_score);
                    proof {
                        assert(pq_contents(queue).count((idx, heuristic_score)) > 0);
                        let ghost queue_old_contents = pq_contents(queue).remove(
                            (idx, heuristic_score),
                        );
                        assert forall|pr: (usize, i32)|
                            #[trigger] pq_contents(queue).count(pr) > 0 implies pr.0
                            < arena@.len() by {
                            if pr != (idx, heuristic_score) {
                                assert(queue_old_contents.count(pr) > 0);
                            }
                        }
                    }
                }
            }
        }
    }
}

} // verus!
