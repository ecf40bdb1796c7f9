//! The board and the search node built around it.

use vstd::prelude::*;
use vstd::string::StringExecFns;

use crate::game::EMPTY;
use crate::game::FIELD_HEIGHT;
use crate::game::FIELD_WIDTH;
use crate::game::field_wf;
use crate::game::grid;

verus! {

broadcast use crate::lemma_rows_view_index;

/// The grid of tiles: `FIELD_HEIGHT` rows of `FIELD_WIDTH` cells, each cell
/// either `EMPTY` or a composite tile value.
pub type GameField = Vec<Vec<u16>>;

/// One node of the lookahead search: a board together with the pieces still
/// to place, the rows cleared so far, a handle to the node it was derived
/// from, and — on the nodes that placed the very first lookahead piece — a
/// snapshot of the board as it stood right after that placement, before any
/// row was cleared.
pub struct State {
    /// Handle of the parent node in the search arena; `None` on the root.
    pub parent_state: Option<usize>,
    /// Board right after the first lookahead piece was placed, before
    /// clearing; only set on nodes one ply below the root.
    pub uncleared_state: Option<Box<State>>,
    pub field: GameField,
    pub remaining_pieces: Vec<char>,
    pub cleared_rows: u32,
}

impl State {
    /// Fresh board: every cell empty, nothing cleared, no pieces queued.
    pub fn new(lookahead_size: u8) -> (s: State)
        ensures
            field_wf(grid(s.field@)),
            forall|r: int, c: int|
                0 <= r < FIELD_HEIGHT && 0 <= c < FIELD_WIDTH ==> grid(s.field@)[r][c] == EMPTY,
            s.remaining_pieces@ == Seq::<char>::empty(),
            s.cleared_rows == 0,
            s.parent_state is None,
            s.uncleared_state is None,
    {
        let s = State {
            parent_state: None,
            uncleared_state: None,
            field: new_empty_field(),
            remaining_pieces: Vec::with_capacity(lookahead_size as usize),
            cleared_rows: 0,
        };
        proof {
            assert(s.remaining_pieces@ =~= Seq::<char>::empty());
        }
        s
    }

    /// The board drawn as letters, one row per line.
    pub fn text(&self) -> (s: String)
        requires
            field_wf(grid(self.field@)),
    {
        field_text(&self.field)
    }
}

/// Builds an all-empty board.
pub fn new_empty_field() -> (f: GameField)
    ensures
        field_wf(grid(f@)),
        forall|r: int, c: int|
            0 <= r < FIELD_HEIGHT && 0 <= c < FIELD_WIDTH ==> grid(f@)[r][c] == EMPTY,
{
    let mut field: GameField = Vec::with_capacity(FIELD_HEIGHT);
    for r in 0..FIELD_HEIGHT
        invariant
            field@.len() == r,
            forall|i: int| #![auto]
                0 <= i < r ==> field@[i]@ =~= Seq::new(FIELD_WIDTH as nat, |c: int| EMPTY),
    {
        let mut row: Vec<u16> = Vec::with_capacity(FIELD_WIDTH);
        for c in 0..FIELD_WIDTH
            invariant
                row@ =~= Seq::new(c as nat, |i: int| EMPTY),
        {
            row.push(EMPTY);
        }
        proof {
            assert(row@ =~= Seq::new(FIELD_WIDTH as nat, |c: int| EMPTY));
        }
        field.push(row);
    }
    field
}

/// The board drawn as text: one line per row, an underscore for an empty
/// cell and the piece's letter for an occupied one.
#[verifier::loop_isolation(false)]
pub fn field_text(field: &GameField) -> (s: String)
    requires
        field_wf(grid(field@)),
{
    let mut s = String::new();
    for row in 0..FIELD_HEIGHT
        invariant
            true,
    {
        for col in 0..FIELD_WIDTH
            invariant
                true,
        {
            let tile = field[row][col];
            if tile == EMPTY {
                s.append("_ ");
            } else {
                match crate::game::get_pent_id(tile) {
                    0 => s.append("X "),
                    1 => s.append("I "),
                    2 => s.append("Z "),
                    3 => s.append("T "),
                    4 => s.append("U "),
                    5 => s.append("V "),
                    6 => s.append("W "),
                    7 => s.append("Y "),
                    8 => s.append("L "),
                    9 => s.append("P "),
                    10 => s.append("N "),
                    11 => s.append("F "),
                    _ => s.append("_ "),
                }
            }
        }
        s.append("\n");
    }
    s
}

/// Copies a board cell for cell.
pub fn copy_field(f: &GameField) -> (r: GameField)
    ensures
        grid(r@) == grid(f@),
        r@.len() == f@.len(),
{
    let mut out: GameField = Vec::with_capacity(f.len());
    for i in 0..f.len()
        invariant
            out@.len() == i,
            forall|k: int| #![auto] 0 <= k < i ==> out@[k]@ == f@[k]@,
    {
        let row_len = f[i].len();
        let mut row: Vec<u16> = Vec::with_capacity(row_len);
        for j in 0..row_len
            invariant
                i < f@.len(),
                row_len == f@[i as int]@.len(),
                row@ =~= f@[i as int]@.subrange(0, j as int),
        {
            row.push(f[i][j]);
            proof {
                assert(row@ =~= f@[i as int]@.subrange(0, j + 1 as int));
            }
        }
        proof {
            assert(row@ =~= f@[i as int]@);
        }
        out.push(row);
    }
    proof {
        assert(grid(out@) =~= grid(f@));
    }
    out
}

/// Whether two piece queues hold the same letters in the same order.
pub fn chars_equal(a: &Vec<char>, b: &Vec<char>) -> (r: bool)
    ensures
        r == (a@ == b@),
{
    if a.len() != b.len() {
        return false;
    }
    for i in 0..a.len()
        invariant
            a@.len() == b@.len(),
            forall|k: int| 0 <= k < i ==> a@[k] == b@[k],
    {
        if a[i] != b[i] {
            return false;
        }
    }
    proof {
        assert(a@ =~= b@);
    }
    true
}

/// Copies a piece queue element for element.
pub fn copy_chars(v: &Vec<char>) -> (r: Vec<char>)
    ensures
        r@ == v@,
{
    let mut out: Vec<char> = Vec::with_capacity(v.len());
    for i in 0..v.len()
        invariant
            out@ =~= v@.subrange(0, i as int),
    {
        out.push(v[i]);
        proof {
            assert(out@ =~= v@.subrange(0, i + 1 as int));
        }
    }
    proof {
        assert(out@ =~= v@);
    }
    out
}

} // verus!
