//! The piece catalog: the twelve pentomino shapes and their distinct
//! rotations and reflections, as boolean occupancy matrices.

use vstd::prelude::*;

use crate::game::FIELD_HEIGHT;
use crate::game::FIELD_WIDTH;
use crate::rows_view;

verus! {

broadcast use crate::lemma_rows_view_index;

/// One occupancy matrix, addressed `[row][col]` from the top-left corner of
/// the piece's bounding box.
pub type Shape = Vec<Vec<u8>>;

/// The whole catalog: for each piece type, its distinct variants.
pub type Permutations = Vec<Vec<Shape>>;

/// The matrix a `Shape` holds, as a sequence of rows.
pub open spec fn shape(m: Shape) -> Seq<Seq<u8>> {
    rows_view(m@)
}

/// Column `c` of the matrix holds at least one set cell.
pub open spec fn col_occupied(m: Seq<Seq<u8>>, c: int) -> bool {
    exists|r: int| 0 <= r < m.len() && #[trigger] m[r][c] == 1
}

/// Row `r` of the matrix holds at least one set cell.
pub open spec fn row_occupied(m: Seq<Seq<u8>>, r: int) -> bool {
    exists|c: int| 0 <= c < m[0].len() && #[trigger] m[r][c] == 1
}

/// A well-formed occupancy matrix: rectangular, of cells zero or one, no
/// larger than the board, and tight — every row and every column of the
/// bounding box holds a set cell.
pub open spec fn matrix_wf(m: Seq<Seq<u8>>) -> bool {
    &&& 1 <= m.len() <= FIELD_HEIGHT
    &&& 1 <= m[0].len() <= FIELD_WIDTH
    &&& forall|r: int| 0 <= r < m.len() ==> (#[trigger] m[r]).len() == m[0].len()
    &&& forall|r: int, c: int|
        0 <= r < m.len() && 0 <= c < m[0].len() ==> (#[trigger] m[r][c]) == 0 || m[r][c] == 1
    &&& forall|c: int| 0 <= c < m[0].len() ==> col_occupied(m, c)
    &&& forall|r: int| 0 <= r < m.len() ==> row_occupied(m, r)
}

/// Set cells of matrix row `r`, from column `c` rightwards.
pub open spec fn set_cells_in_row(m: Seq<Seq<u8>>, r: int, c: int) -> nat
    decreases m[0].len() - c when c <= m[0].len()
{
    if c < 0 || c >= m[0].len() {
        0
    } else {
        (if m[r][c] == 1 {
            1nat
        } else {
            0nat
        }) + set_cells_in_row(m, r, c + 1)
    }
}

/// Set cells of the matrix rows from `r` down.
pub open spec fn set_cells_from_row(m: Seq<Seq<u8>>, r: int) -> nat
    decreases m.len() - r when r <= m.len()
{
    if r < 0 || r >= m.len() {
        0
    } else {
        set_cells_in_row(m, r, 0) + set_cells_from_row(m, r + 1)
    }
}

/// Number of set cells of the matrix.
pub open spec fn set_cell_count(m: Seq<Seq<u8>>) -> nat {
    set_cells_from_row(m, 0)
}

/// A well-formed catalog: one entry per piece type, each with at least one
/// variant, every variant a well-formed occupancy matrix.
pub open spec fn catalog_wf(p: Seq<Vec<Shape>>) -> bool {
    &&& p.len() == 12
    &&& forall|i: int| 0 <= i < p.len() ==> (#[trigger] p[i])@.len() >= 1
    &&& forall|i: int, j: int|
        0 <= i < p.len() && 0 <= j < p[i]@.len() ==> matrix_wf(shape(#[trigger] p[i]@[j]))
    &&& forall|i: int, j: int|
        0 <= i < p.len() && 0 <= j < p[i]@.len() ==> set_cell_count(shape(#[trigger] p[i]@[j]))
            == 5
    &&& forall|i: int, j1: int, j2: int|
        0 <= i < p.len() && 0 <= j1 < j2 < p[i]@.len() ==> shape(#[trigger] p[i]@[j1]) != shape(
            #[trigger] p[i]@[j2],
        )
}

/// The piece type a display letter stands for, or 255 for any other letter.
pub open spec fn spec_char_to_id(c: char) -> u8 {
    match c {
        'X' => 0,
        'I' => 1,
        'Z' => 2,
        'T' => 3,
        'U' => 4,
        'V' => 5,
        'W' => 6,
        'Y' => 7,
        'L' => 8,
        'P' => 9,
        'N' => 10,
        'F' => 11,
        _ => 255,
    }
}

pub fn char_to_id(c: char) -> (r: u8)
    ensures
        r == spec_char_to_id(c),
{
    match c {
        'X' => 0,
        'I' => 1,
        'Z' => 2,
        'T' => 3,
        'U' => 4,
        'V' => 5,
        'W' => 6,
        'Y' => 7,
        'L' => 8,
        'P' => 9,
        'N' => 10,
        'F' => 11,
        _ => 255,
    }
}

/// The distinct rotations and reflections of the X pentomino.
#[verifier::spinoff_prover]
fn variants_x() -> (v: Vec<Shape>)
    ensures
        v@.len() == 1,
        forall|j: int| 0 <= j < v@.len() ==> matrix_wf(shape(#[trigger] v@[j])),
        forall|j: int| 0 <= j < v@.len() ==> set_cell_count(shape(#[trigger] v@[j])) == 5,
        forall|j1: int, j2: int|
            0 <= j1 < j2 < v@.len() ==> shape(#[trigger] v@[j1]) != shape(#[trigger] v@[j2]),
{
    let mut v: Vec<Shape> = Vec::new();
    let m: Shape = vec![vec![0, 1, 0], vec![1, 1, 1], vec![0, 1, 0]];
    proof {
        assert(shape(m)[0][1] == 1);
        assert(shape(m)[1][0] == 1);
        assert(shape(m)[1][2] == 1);
        assert(shape(m)[2][1] == 1);
        assert(matrix_wf(shape(m)));
        reveal_with_fuel(set_cells_in_row, 7);
        reveal_with_fuel(set_cells_from_row, 7);
        assert(set_cell_count(shape(m)) == 5);
    }
    v.push(m);
    v
}

/// The distinct rotations and reflections of the I pentomino.
#[verifier::spinoff_prover]
fn variants_i() -> (v: Vec<Shape>)
    ensures
        v@.len() == 2,
        forall|j: int| 0 <= j < v@.len() ==> matrix_wf(shape(#[trigger] v@[j])),
        forall|j: int| 0 <= j < v@.len() ==> set_cell_count(shape(#[trigger] v@[j])) == 5,
        forall|j1: int, j2: int|
            0 <= j1 < j2 < v@.len() ==> shape(#[trigger] v@[j1]) != shape(#[trigger] v@[j2]),
{
    let mut v: Vec<Shape> = Vec::new();
    let m: Shape = vec![vec![1], vec![1], vec![1], vec![1], vec![1]];
    proof {
        assert(shape(m)[0][0] == 1);
        assert(shape(m)[1][0] == 1);
        assert(shape(m)[2][0] == 1);
        assert(shape(m)[3][0] == 1);
        assert(shape(m)[4][0] == 1);
        assert(matrix_wf(shape(m)));
        reveal_with_fuel(set_cells_in_row, 7);
        reveal_with_fuel(set_cells_from_row, 7);
        assert(set_cell_count(shape(m)) == 5);
    }
    v.push(m);
    let m: Shape = vec![vec![1, 1, 1, 1, 1]];
    proof {
        assert(shape(m)[0][0] == 1);
        assert(shape(m)[0][1] == 1);
        assert(shape(m)[0][2] == 1);
        assert(shape(m)[0][3] == 1);
        assert(shape(m)[0][4] == 1);
        assert(matrix_wf(shape(m)));
        reveal_with_fuel(set_cells_in_row, 7);
        reveal_with_fuel(set_cells_from_row, 7);
        assert(set_cell_count(shape(m)) == 5);
    }
    v.push(m);
    proof {
        assert(shape(v@[0]).len() != shape(v@[1]).len());
        assert(forall|j1: int, j2: int|
            0 <= j1 < j2 < v@.len() ==> shape(#[trigger] v@[j1]) != shape(#[trigger] v@[j2]));
    }
    v
}

/// The distinct rotations and reflections of the Z pentomino.
#[verifier::spinoff_prover]
fn variants_z() -> (v: Vec<Shape>)
    ensures
        v@.len() == 4,
        forall|j: int| 0 <= j < v@.len() ==> matrix_wf(shape(#[trigger] v@[j])),
        forall|j: int| 0 <= j < v@.len() ==> set_cell_count(shape(#[trigger] v@[j])) == 5,
        forall|j1: int, j2: int|
            0 <= j1 < j2 < v@.len() ==> shape(#[trigger] v@[j1]) != shape(#[trigger] v@[j2]),
{
    let mut v: Vec<Shape> = Vec::new();
    let m: Shape = vec![vec![1, 1, 0], vec![0, 1, 0], vec![0, 1, 1]];
    proof {
        assert(shape(m)[0][0] == 1);
        assert(shape(m)[0][1] == 1);
        assert(shape(m)[1][1] == 1);
        assert(shape(m)[2][1] == 1);
        assert(shape(m)[2][2] == 1);
        assert(matrix_wf(shape(m)));
        reveal_with_fuel(set_cells_in_row, 7);
        reveal_with_fuel(set_cells_from_row, 7);
        assert(set_cell_count(shape(m)) == 5);
    }
    v.push(m);
    let m: Shape = vec![vec![0, 0, 1], vec![1, 1, 1], vec![1, 0, 0]];
    proof {
        assert(shape(m)[0][2] == 1);
        assert(shape(m)[1][0] == 1);
        assert(shape(m)[1][1] == 1);
        assert(shape(m)[2][0] == 1);
        assert(matrix_wf(shape(m)));
        reveal_with_fuel(set_cells_in_row, 7);
        reveal_with_fuel(set_cells_from_row, 7);
        assert(set_cell_count(shape(m)) == 5);
    }
    v.push(m);
    let m: Shape = vec![vec![0, 1, 1], vec![0, 1, 0], vec![1, 1, 0]];
    proof {
        assert(shape(m)[0][1] == 1);
        assert(shape(m)[0][2] == 1);
        assert(shape(m)[1][1] == 1);
        assert(shape(m)[2][0] == 1);
        assert(matrix_wf(shape(m)));
        reveal_with_fuel(set_cells_in_row, 7);
        reveal_with_fuel(set_cells_from_row, 7);
        assert(set_cell_count(shape(m)) == 5);
    }
    v.push(m);
    let m: Shape = vec![vec![1, 0, 0], vec![1, 1, 1], vec![0, 0, 1]];
    proof {
        assert(shape(m)[0][0] == 1);
        assert(shape(m)[1][0] == 1);
        assert(shape(m)[1][1] == 1);
        assert(shape(m)[1][2] == 1);
        assert(shape(m)[2][2] == 1);
        assert(matrix_wf(shape(m)));
        reveal_with_fuel(set_cells_in_row, 7);
        reveal_with_fuel(set_cells_from_row, 7);
        assert(set_cell_count(shape(m)) == 5);
    }
    v.push(m);
    proof {
        assert(shape(v@[0])[0][0] != shape(v@[1])[0][0]);
        assert(shape(v@[0])[0][0] != shape(v@[2])[0][0]);
        assert(shape(v@[0])[0][1] != shape(v@[3])[0][1]);
        assert(shape(v@[1])[0][1] != shape(v@[2])[0][1]);
        assert(shape(v@[1])[0][0] != shape(v@[3])[0][0]);
        assert(shape(v@[2])[0][0] != shape(v@[3])[0][0]);
        assert(forall|j1: int, j2: int|
            0 <= j1 < j2 < v@.len() ==> shape(#[trigger] v@[j1]) != shape(#[trigger] v@[j2]));
    }
    v
}

/// The distinct rotations and reflections of the T pentomino.
#[verifier::spinoff_prover]
fn variants_t() -> (v: Vec<Shape>)
    ensures
        v@.len() == 4,
        forall|j: int| 0 <= j < v@.len() ==> matrix_wf(shape(#[trigger] v@[j])),
        forall|j: int| 0 <= j < v@.len() ==> set_cell_count(shape(#[trigger] v@[j])) == 5,
        forall|j1: int, j2: int|
            0 <= j1 < j2 < v@.len() ==> shape(#[trigger] v@[j1]) != shape(#[trigger] v@[j2]),
{
    let mut v: Vec<Shape> = Vec::new();
    let m: Shape = vec![vec![1, 1, 1], vec![0, 1, 0], vec![0, 1, 0]];
    proof {
        assert(shape(m)[0][0] == 1);
        assert(shape(m)[0][1] == 1);
        assert(shape(m)[0][2] == 1);
        assert(shape(m)[1][1] == 1);
        assert(shape(m)[2][1] == 1);
        assert(matrix_wf(shape(m)));
        reveal_with_fuel(set_cells_in_row, 7);
        reveal_with_fuel(set_cells_from_row, 7);
        assert(set_cell_count(shape(m)) == 5);
    }
    v.push(m);
    let m: Shape = vec![vec![0, 0, 1], vec![1, 1, 1], vec![0, 0, 1]];
    proof {
        assert(shape(m)[0][2] == 1);
        assert(shape(m)[1][0] == 1);
        assert(shape(m)[1][1] == 1);
        assert(shape(m)[2][2] == 1);
        assert(matrix_wf(shape(m)));
        reveal_with_fuel(set_cells_in_row, 7);
        reveal_with_fuel(set_cells_from_row, 7);
        assert(set_cell_count(shape(m)) == 5);
    }
    v.push(m);
    let m: Shape = vec![vec![0, 1, 0], vec![0, 1, 0], vec![1, 1, 1]];
    proof {
        assert(shape(m)[0][1] == 1);
        assert(shape(m)[1][1] == 1);
        assert(shape(m)[2][0] == 1);
        assert(shape(m)[2][2] == 1);
        assert(matrix_wf(shape(m)));
        reveal_with_fuel(set_cells_in_row, 7);
        reveal_with_fuel(set_cells_from_row, 7);
        assert(set_cell_count(shape(m)) == 5);
    }
    v.push(m);
    let m: Shape = vec![vec![1, 0, 0], vec![1, 1, 1], vec![1, 0, 0]];
    proof {
        assert(shape(m)[0][0] == 1);
        assert(shape(m)[1][0] == 1);
        assert(shape(m)[1][1] == 1);
        assert(shape(m)[1][2] == 1);
        assert(shape(m)[2][0] == 1);
        assert(matrix_wf(shape(m)));
        reveal_with_fuel(set_cells_in_row, 7);
        reveal_with_fuel(set_cells_from_row, 7);
        assert(set_cell_count(shape(m)) == 5);
    }
    v.push(m);
    proof {
        assert(shape(v@[0])[0][0] != shape(v@[1])[0][0]);
        assert(shape(v@[0])[0][0] != shape(v@[2])[0][0]);
        assert(shape(v@[0])[0][1] != shape(v@[3])[0][1]);
        assert(shape(v@[1])[0][1] != shape(v@[2])[0][1]);
        assert(shape(v@[1])[0][0] != shape(v@[3])[0][0]);
        assert(shape(v@[2])[0][0] != shape(v@[3])[0][0]);
        assert(forall|j1: int, j2: int|
            0 <= j1 < j2 < v@.len() ==> shape(#[trigger] v@[j1]) != shape(#[trigger] v@[j2]));
    }
    v
}

/// The distinct rotations and reflections of the U pentomino.
#[verifier::spinoff_prover]
fn variants_u() -> (v: Vec<Shape>)
    ensures
        v@.len() == 4,
        forall|j: int| 0 <= j < v@.len() ==> matrix_wf(shape(#[trigger] v@[j])),
        forall|j: int| 0 <= j < v@.len() ==> set_cell_count(shape(#[trigger] v@[j])) == 5,
        forall|j1: int, j2: int|
            0 <= j1 < j2 < v@.len() ==> shape(#[trigger] v@[j1]) != shape(#[trigger] v@[j2]),
{
    let mut v: Vec<Shape> = Vec::new();
    let m: Shape = vec![vec![1, 0, 1], vec![1, 1, 1]];
    proof {
        assert(shape(m)[0][0] == 1);
        assert(shape(m)[0][2] == 1);
        assert(shape(m)[1][0] == 1);
        assert(shape(m)[1][1] == 1);
        assert(matrix_wf(shape(m)));
        reveal_with_fuel(set_cells_in_row, 7);
        reveal_with_fuel(set_cells_from_row, 7);
        assert(set_cell_count(shape(m)) == 5);
    }
    v.push(m);
    let m: Shape = vec![vec![1, 1], vec![1, 0], vec![1, 1]];
    proof {
        assert(shape(m)[0][0] == 1);
        assert(shape(m)[0][1] == 1);
        assert(shape(m)[1][0] == 1);
        assert(shape(m)[2][0] == 1);
        assert(matrix_wf(shape(m)));
        reveal_with_fuel(set_cells_in_row, 7);
        reveal_with_fuel(set_cells_from_row, 7);
        assert(set_cell_count(shape(m)) == 5);
    }
    v.push(m);
    let m: Shape = vec![vec![1, 1, 1], vec![1, 0, 1]];
    proof {
        assert(shape(m)[0][0] == 1);
        assert(shape(m)[0][1] == 1);
        assert(shape(m)[0][2] == 1);
        assert(shape(m)[1][0] == 1);
        assert(matrix_wf(shape(m)));
        reveal_with_fuel(set_cells_in_row, 7);
        reveal_with_fuel(set_cells_from_row, 7);
        assert(set_cell_count(shape(m)) == 5);
    }
    v.push(m);
    let m: Shape = vec![vec![1, 1], vec![0, 1], vec![1, 1]];
    proof {
        assert(shape(m)[0][0] == 1);
        assert(shape(m)[0][1] == 1);
        assert(shape(m)[1][1] == 1);
        assert(shape(m)[2][0] == 1);
        assert(matrix_wf(shape(m)));
        reveal_with_fuel(set_cells_in_row, 7);
        reveal_with_fuel(set_cells_from_row, 7);
        assert(set_cell_count(shape(m)) == 5);
    }
    v.push(m);
    proof {
        assert(shape(v@[0]).len() != shape(v@[1]).len());
        assert(shape(v@[0])[0][1] != shape(v@[2])[0][1]);
        assert(shape(v@[0]).len() != shape(v@[3]).len());
        assert(shape(v@[1]).len() != shape(v@[2]).len());
        assert(shape(v@[1])[1][0] != shape(v@[3])[1][0]);
        assert(shape(v@[2]).len() != shape(v@[3]).len());
        assert(forall|j1: int, j2: int|
            0 <= j1 < j2 < v@.len() ==> shape(#[trigger] v@[j1]) != shape(#[trigger] v@[j2]));
    }
    v
}

/// The distinct rotations and reflections of the V pentomino.
#[verifier::spinoff_prover]
fn variants_v() -> (v: Vec<Shape>)
    ensures
        v@.len() == 4,
        forall|j: int| 0 <= j < v@.len() ==> matrix_wf(shape(#[trigger] v@[j])),
        forall|j: int| 0 <= j < v@.len() ==> set_cell_count(shape(#[trigger] v@[j])) == 5,
        forall|j1: int, j2: int|
            0 <= j1 < j2 < v@.len() ==> shape(#[trigger] v@[j1]) != shape(#[trigger] v@[j2]),
{
    let mut v: Vec<Shape> = Vec::new();
    let m: Shape = vec![vec![1, 0, 0], vec![1, 0, 0], vec![1, 1, 1]];
    proof {
        assert(shape(m)[0][0] == 1);
        assert(shape(m)[1][0] == 1);
        assert(shape(m)[2][0] == 1);
        assert(shape(m)[2][1] == 1);
        assert(shape(m)[2][2] == 1);
        assert(matrix_wf(shape(m)));
        reveal_with_fuel(set_cells_in_row, 7);
        reveal_with_fuel(set_cells_from_row, 7);
        assert(set_cell_count(shape(m)) == 5);
    }
    v.push(m);
    let m: Shape = vec![vec![1, 1, 1], vec![1, 0, 0], vec![1, 0, 0]];
    proof {
        assert(shape(m)[0][0] == 1);
        assert(shape(m)[0][1] == 1);
        assert(shape(m)[0][2] == 1);
        assert(shape(m)[1][0] == 1);
        assert(shape(m)[2][0] == 1);
        assert(matrix_wf(shape(m)));
        reveal_with_fuel(set_cells_in_row, 7);
        reveal_with_fuel(set_cells_from_row, 7);
        assert(set_cell_count(shape(m)) == 5);
    }
    v.push(m);
    let m: Shape = vec![vec![1, 1, 1], vec![0, 0, 1], vec![0, 0, 1]];
    proof {
        assert(shape(m)[0][0] == 1);
        assert(shape(m)[0][1] == 1);
        assert(shape(m)[0][2] == 1);
        assert(shape(m)[1][2] == 1);
        assert(shape(m)[2][2] == 1);
        assert(matrix_wf(shape(m)));
        reveal_with_fuel(set_cells_in_row, 7);
        reveal_with_fuel(set_cells_from_row, 7);
        assert(set_cell_count(shape(m)) == 5);
    }
    v.push(m);
    let m: Shape = vec![vec![0, 0, 1], vec![0, 0, 1], vec![1, 1, 1]];
    proof {
        assert(shape(m)[0][2] == 1);
        assert(shape(m)[1][2] == 1);
        assert(shape(m)[2][0] == 1);
        assert(shape(m)[2][1] == 1);
        assert(matrix_wf(shape(m)));
        reveal_with_fuel(set_cells_in_row, 7);
        reveal_with_fuel(set_cells_from_row, 7);
        assert(set_cell_count(shape(m)) == 5);
    }
    v.push(m);
    proof {
        assert(shape(v@[0])[0][1] != shape(v@[1])[0][1]);
        assert(shape(v@[0])[0][1] != shape(v@[2])[0][1]);
        assert(shape(v@[0])[0][0] != shape(v@[3])[0][0]);
        assert(shape(v@[1])[1][0] != shape(v@[2])[1][0]);
        assert(shape(v@[1])[0][0] != shape(v@[3])[0][0]);
        assert(shape(v@[2])[0][0] != shape(v@[3])[0][0]);
        assert(forall|j1: int, j2: int|
            0 <= j1 < j2 < v@.len() ==> shape(#[trigger] v@[j1]) != shape(#[trigger] v@[j2]));
    }
    v
}

/// The distinct rotations and reflections of the W pentomino.
#[verifier::spinoff_prover]
fn variants_w() -> (v: Vec<Shape>)
    ensures
        v@.len() == 4,
        forall|j: int| 0 <= j < v@.len() ==> matrix_wf(shape(#[trigger] v@[j])),
        forall|j: int| 0 <= j < v@.len() ==> set_cell_count(shape(#[trigger] v@[j])) == 5,
        forall|j1: int, j2: int|
            0 <= j1 < j2 < v@.len() ==> shape(#[trigger] v@[j1]) != shape(#[trigger] v@[j2]),
{
    let mut v: Vec<Shape> = Vec::new();
    let m: Shape = vec![vec![1, 0, 0], vec![1, 1, 0], vec![0, 1, 1]];
    proof {
        assert(shape(m)[0][0] == 1);
        assert(shape(m)[1][0] == 1);
        assert(shape(m)[1][1] == 1);
        assert(shape(m)[2][1] == 1);
        assert(shape(m)[2][2] == 1);
        assert(matrix_wf(shape(m)));
        reveal_with_fuel(set_cells_in_row, 7);
        reveal_with_fuel(set_cells_from_row, 7);
        assert(set_cell_count(shape(m)) == 5);
    }
    v.push(m);
    let m: Shape = vec![vec![0, 1, 1], vec![1, 1, 0], vec![1, 0, 0]];
    proof {
        assert(shape(m)[0][1] == 1);
        assert(shape(m)[0][2] == 1);
        assert(shape(m)[1][0] == 1);
        assert(shape(m)[2][0] == 1);
        assert(matrix_wf(shape(m)));
        reveal_with_fuel(set_cells_in_row, 7);
        reveal_with_fuel(set_cells_from_row, 7);
        assert(set_cell_count(shape(m)) == 5);
    }
    v.push(m);
    let m: Shape = vec![vec![1, 1, 0], vec![0, 1, 1], vec![0, 0, 1]];
    proof {
        assert(shape(m)[0][0] == 1);
        assert(shape(m)[0][1] == 1);
        assert(shape(m)[1][1] == 1);
        assert(shape(m)[1][2] == 1);
        assert(shape(m)[2][2] == 1);
        assert(matrix_wf(shape(m)));
        reveal_with_fuel(set_cells_in_row, 7);
        reveal_with_fuel(set_cells_from_row, 7);
        assert(set_cell_count(shape(m)) == 5);
    }
    v.push(m);
    let m: Shape = vec![vec![0, 0, 1], vec![0, 1, 1], vec![1, 1, 0]];
    proof {
        assert(shape(m)[0][2] == 1);
        assert(shape(m)[1][1] == 1);
        assert(shape(m)[2][0] == 1);
        assert(matrix_wf(shape(m)));
        reveal_with_fuel(set_cells_in_row, 7);
        reveal_with_fuel(set_cells_from_row, 7);
        assert(set_cell_count(shape(m)) == 5);
    }
    v.push(m);
    proof {
        assert(shape(v@[0])[0][0] != shape(v@[1])[0][0]);
        assert(shape(v@[0])[0][1] != shape(v@[2])[0][1]);
        assert(shape(v@[0])[0][0] != shape(v@[3])[0][0]);
        assert(shape(v@[1])[0][0] != shape(v@[2])[0][0]);
        assert(shape(v@[1])[0][1] != shape(v@[3])[0][1]);
        assert(shape(v@[2])[0][0] != shape(v@[3])[0][0]);
        assert(forall|j1: int, j2: int|
            0 <= j1 < j2 < v@.len() ==> shape(#[trigger] v@[j1]) != shape(#[trigger] v@[j2]));
    }
    v
}

/// The distinct rotations and reflections of the Y pentomino.
#[verifier::spinoff_prover]
fn variants_y() -> (v: Vec<Shape>)
    ensures
        v@.len() == 8,
        forall|j: int| 0 <= j < v@.len() ==> matrix_wf(shape(#[trigger] v@[j])),
        forall|j: int| 0 <= j < v@.len() ==> set_cell_count(shape(#[trigger] v@[j])) == 5,
        forall|j1: int, j2: int|
            0 <= j1 < j2 < v@.len() ==> shape(#[trigger] v@[j1]) != shape(#[trigger] v@[j2]),
{
    let mut v: Vec<Shape> = Vec::new();
    let m: Shape = vec![vec![0, 1], vec![1, 1], vec![0, 1], vec![0, 1]];
    proof {
        assert(shape(m)[0][1] == 1);
        assert(shape(m)[1][0] == 1);
        assert(shape(m)[2][1] == 1);
        assert(shape(m)[3][1] == 1);
        assert(matrix_wf(shape(m)));
        reveal_with_fuel(set_cells_in_row, 7);
        reveal_with_fuel(set_cells_from_row, 7);
        assert(set_cell_count(shape(m)) == 5);
    }
    v.push(m);
    let m: Shape = vec![vec![0, 0, 1, 0], vec![1, 1, 1, 1]];
    proof {
        assert(shape(m)[0][2] == 1);
        assert(shape(m)[1][0] == 1);
        assert(shape(m)[1][1] == 1);
        assert(shape(m)[1][3] == 1);
        assert(matrix_wf(shape(m)));
        reveal_with_fuel(set_cells_in_row, 7);
        reveal_with_fuel(set_cells_from_row, 7);
        assert(set_cell_count(shape(m)) == 5);
    }
    v.push(m);
    let m: Shape = vec![vec![1, 0], vec![1, 0], vec![1, 1], vec![1, 0]];
    proof {
        assert(shape(m)[0][0] == 1);
        assert(shape(m)[1][0] == 1);
        assert(shape(m)[2][0] == 1);
        assert(shape(m)[2][1] == 1);
        assert(shape(m)[3][0] == 1);
        assert(matrix_wf(shape(m)));
        reveal_with_fuel(set_cells_in_row, 7);
        reveal_with_fuel(set_cells_from_row, 7);
        assert(set_cell_count(shape(m)) == 5);
    }
    v.push(m);
    let m: Shape = vec![vec![1, 1, 1, 1], vec![0, 1, 0, 0]];
    proof {
        assert(shape(m)[0][0] == 1);
        assert(shape(m)[0][1] == 1);
        assert(shape(m)[0][2] == 1);
        assert(shape(m)[0][3] == 1);
        assert(shape(m)[1][1] == 1);
        assert(matrix_wf(shape(m)));
        reveal_with_fuel(set_cells_in_row, 7);
        reveal_with_fuel(set_cells_from_row, 7);
        assert(set_cell_count(shape(m)) == 5);
    }
    v.push(m);
    let m: Shape = vec![vec![1, 0], vec![1, 1], vec![1, 0], vec![1, 0]];
    proof {
        assert(shape(m)[0][0] == 1);
        assert(shape(m)[1][0] == 1);
        assert(shape(m)[1][1] == 1);
        assert(shape(m)[2][0] == 1);
        assert(shape(m)[3][0] == 1);
        assert(matrix_wf(shape(m)));
        reveal_with_fuel(set_cells_in_row, 7);
        reveal_with_fuel(set_cells_from_row, 7);
        assert(set_cell_count(shape(m)) == 5);
    }
    v.push(m);
    let m: Shape = vec![vec![1, 1, 1, 1], vec![0, 0, 1, 0]];
    proof {
        assert(shape(m)[0][0] == 1);
        assert(shape(m)[0][1] == 1);
        assert(shape(m)[0][2] == 1);
        assert(shape(m)[0][3] == 1);
        assert(shape(m)[1][2] == 1);
        assert(matrix_wf(shape(m)));
        reveal_with_fuel(set_cells_in_row, 7);
        reveal_with_fuel(set_cells_from_row, 7);
        assert(set_cell_count(shape(m)) == 5);
    }
    v.push(m);
    let m: Shape = vec![vec![0, 1], vec![0, 1], vec![1, 1], vec![0, 1]];
    proof {
        assert(shape(m)[0][1] == 1);
        assert(shape(m)[1][1] == 1);
        assert(shape(m)[2][0] == 1);
        assert(shape(m)[3][1] == 1);
        assert(matrix_wf(shape(m)));
        reveal_with_fuel(set_cells_in_row, 7);
        reveal_with_fuel(set_cells_from_row, 7);
        assert(set_cell_count(shape(m)) == 5);
    }
    v.push(m);
    let m: Shape = vec![vec![0, 1, 0, 0], vec![1, 1, 1, 1]];
    proof {
        assert(shape(m)[0][1] == 1);
        assert(shape(m)[1][0] == 1);
        assert(shape(m)[1][2] == 1);
        assert(shape(m)[1][3] == 1);
        assert(matrix_wf(shape(m)));
        reveal_with_fuel(set_cells_in_row, 7);
        reveal_with_fuel(set_cells_from_row, 7);
        assert(set_cell_count(shape(m)) == 5);
    }
    v.push(m);
    proof {
        assert(shape(v@[0]).len() != shape(v@[1]).len());
        assert(shape(v@[0])[0][0] != shape(v@[2])[0][0]);
        assert(shape(v@[0]).len() != shape(v@[3]).len());
        assert(shape(v@[0])[0][0] != shape(v@[4])[0][0]);
        assert(shape(v@[0]).len() != shape(v@[5]).len());
        assert(shape(v@[0])[1][0] != shape(v@[6])[1][0]);
        assert(shape(v@[0]).len() != shape(v@[7]).len());
        assert(shape(v@[1]).len() != shape(v@[2]).len());
        assert(shape(v@[1])[0][0] != shape(v@[3])[0][0]);
        assert(shape(v@[1]).len() != shape(v@[4]).len());
        assert(shape(v@[1])[0][0] != shape(v@[5])[0][0]);
        assert(shape(v@[1]).len() != shape(v@[6]).len());
        assert(shape(v@[1])[0][1] != shape(v@[7])[0][1]);
        assert(shape(v@[2]).len() != shape(v@[3]).len());
        assert(shape(v@[2])[1][1] != shape(v@[4])[1][1]);
        assert(shape(v@[2]).len() != shape(v@[5]).len());
        assert(shape(v@[2])[0][0] != shape(v@[6])[0][0]);
        assert(shape(v@[2]).len() != shape(v@[7]).len());
        assert(shape(v@[3]).len() != shape(v@[4]).len());
        assert(shape(v@[3])[1][1] != shape(v@[5])[1][1]);
        assert(shape(v@[3]).len() != shape(v@[6]).len());
        assert(shape(v@[3])[0][0] != shape(v@[7])[0][0]);
        assert(shape(v@[4]).len() != shape(v@[5]).len());
        assert(shape(v@[4])[0][0] != shape(v@[6])[0][0]);
        assert(shape(v@[4]).len() != shape(v@[7]).len());
        assert(shape(v@[5]).len() != shape(v@[6]).len());
        assert(shape(v@[5])[0][0] != shape(v@[7])[0][0]);
        assert(shape(v@[6]).len() != shape(v@[7]).len());
        assert(forall|j1: int, j2: int|
            0 <= j1 < j2 < v@.len() ==> shape(#[trigger] v@[j1]) != shape(#[trigger] v@[j2]));
    }
    v
}

/// The distinct rotations and reflections of the L pentomino.
#[verifier::spinoff_prover]
fn variants_l() -> (v: Vec<Shape>)
    ensures
        v@.len() == 8,
        forall|j: int| 0 <= j < v@.len() ==> matrix_wf(shape(#[trigger] v@[j])),
        forall|j: int| 0 <= j < v@.len() ==> set_cell_count(shape(#[trigger] v@[j])) == 5,
        forall|j1: int, j2: int|
            0 <= j1 < j2 < v@.len() ==> shape(#[trigger] v@[j1]) != shape(#[trigger] v@[j2]),
{
    let mut v: Vec<Shape> = Vec::new();
    let m: Shape = vec![vec![1, 0], vec![1, 0], vec![1, 0], vec![1, 1]];
    proof {
        assert(shape(m)[0][0] == 1);
        assert(shape(m)[1][0] == 1);
        assert(shape(m)[2][0] == 1);
        assert(shape(m)[3][0] == 1);
        assert(shape(m)[3][1] == 1);
        assert(matrix_wf(shape(m)));
        reveal_with_fuel(set_cells_in_row, 7);
        reveal_with_fuel(set_cells_from_row, 7);
        assert(set_cell_count(shape(m)) == 5);
    }
    v.push(m);
    let m: Shape = vec![vec![1, 1, 1, 1], vec![1, 0, 0, 0]];
    proof {
        assert(shape(m)[0][0] == 1);
        assert(shape(m)[0][1] == 1);
        assert(shape(m)[0][2] == 1);
        assert(shape(m)[0][3] == 1);
        assert(shape(m)[1][0] == 1);
        assert(matrix_wf(shape(m)));
        reveal_with_fuel(set_cells_in_row, 7);
        reveal_with_fuel(set_cells_from_row, 7);
        assert(set_cell_count(shape(m)) == 5);
    }
    v.push(m);
    let m: Shape = vec![vec![1, 1], vec![0, 1], vec![0, 1], vec![0, 1]];
    proof {
        assert(shape(m)[0][0] == 1);
        assert(shape(m)[0][1] == 1);
        assert(shape(m)[1][1] == 1);
        assert(shape(m)[2][1] == 1);
        assert(shape(m)[3][1] == 1);
        assert(matrix_wf(shape(m)));
        reveal_with_fuel(set_cells_in_row, 7);
        reveal_with_fuel(set_cells_from_row, 7);
        assert(set_cell_count(shape(m)) == 5);
    }
    v.push(m);
    let m: Shape = vec![vec![0, 0, 0, 1], vec![1, 1, 1, 1]];
    proof {
        assert(shape(m)[0][3] == 1);
        assert(shape(m)[1][0] == 1);
        assert(shape(m)[1][1] == 1);
        assert(shape(m)[1][2] == 1);
        assert(matrix_wf(shape(m)));
        reveal_with_fuel(set_cells_in_row, 7);
        reveal_with_fuel(set_cells_from_row, 7);
        assert(set_cell_count(shape(m)) == 5);
    }
    v.push(m);
    let m: Shape = vec![vec![0, 1], vec![0, 1], vec![0, 1], vec![1, 1]];
    proof {
        assert(shape(m)[0][1] == 1);
        assert(shape(m)[1][1] == 1);
        assert(shape(m)[2][1] == 1);
        assert(shape(m)[3][0] == 1);
        assert(matrix_wf(shape(m)));
        reveal_with_fuel(set_cells_in_row, 7);
        reveal_with_fuel(set_cells_from_row, 7);
        assert(set_cell_count(shape(m)) == 5);
    }
    v.push(m);
    let m: Shape = vec![vec![1, 0, 0, 0], vec![1, 1, 1, 1]];
    proof {
        assert(shape(m)[0][0] == 1);
        assert(shape(m)[1][0] == 1);
        assert(shape(m)[1][1] == 1);
        assert(shape(m)[1][2] == 1);
        assert(shape(m)[1][3] == 1);
        assert(matrix_wf(shape(m)));
        reveal_with_fuel(set_cells_in_row, 7);
        reveal_with_fuel(set_cells_from_row, 7);
        assert(set_cell_count(shape(m)) == 5);
    }
    v.push(m);
    let m: Shape = vec![vec![1, 1], vec![1, 0], vec![1, 0], vec![1, 0]];
    proof {
        assert(shape(m)[0][0] == 1);
        assert(shape(m)[0][1] == 1);
        assert(shape(m)[1][0] == 1);
        assert(shape(m)[2][0] == 1);
        assert(shape(m)[3][0] == 1);
        assert(matrix_wf(shape(m)));
        reveal_with_fuel(set_cells_in_row, 7);
        reveal_with_fuel(set_cells_from_row, 7);
        assert(set_cell_count(shape(m)) == 5);
    }
    v.push(m);
    let m: Shape = vec![vec![1, 1, 1, 1], vec![0, 0, 0, 1]];
    proof {
        assert(shape(m)[0][0] == 1);
        assert(shape(m)[0][1] == 1);
        assert(shape(m)[0][2] == 1);
        assert(shape(m)[0][3] == 1);
        assert(shape(m)[1][3] == 1);
        assert(matrix_wf(shape(m)));
        reveal_with_fuel(set_cells_in_row, 7);
        reveal_with_fuel(set_cells_from_row, 7);
        assert(set_cell_count(shape(m)) == 5);
    }
    v.push(m);
    proof {
        assert(shape(v@[0]).len() != shape(v@[1]).len());
        assert(shape(v@[0])[0][1] != shape(v@[2])[0][1]);
        assert(shape(v@[0]).len() != shape(v@[3]).len());
        assert(shape(v@[0])[0][0] != shape(v@[4])[0][0]);
        assert(shape(v@[0]).len() != shape(v@[5]).len());
        assert(shape(v@[0])[0][1] != shape(v@[6])[0][1]);
        assert(shape(v@[0]).len() != shape(v@[7]).len());
        assert(shape(v@[1]).len() != shape(v@[2]).len());
        assert(shape(v@[1])[0][0] != shape(v@[3])[0][0]);
        assert(shape(v@[1]).len() != shape(v@[4]).len());
        assert(shape(v@[1])[0][1] != shape(v@[5])[0][1]);
        assert(shape(v@[1]).len() != shape(v@[6]).len());
        assert(shape(v@[1])[1][0] != shape(v@[7])[1][0]);
        assert(shape(v@[2]).len() != shape(v@[3]).len());
        assert(shape(v@[2])[0][0] != shape(v@[4])[0][0]);
        assert(shape(v@[2]).len() != shape(v@[5]).len());
        assert(shape(v@[2])[1][0] != shape(v@[6])[1][0]);
        assert(shape(v@[2]).len() != shape(v@[7]).len());
        assert(shape(v@[3]).len() != shape(v@[4]).len());
        assert(shape(v@[3])[0][0] != shape(v@[5])[0][0]);
        assert(shape(v@[3]).len() != shape(v@[6]).len());
        assert(shape(v@[3])[0][0] != shape(v@[7])[0][0]);
        assert(shape(v@[4]).len() != shape(v@[5]).len());
        assert(shape(v@[4])[0][0] != shape(v@[6])[0][0]);
        assert(shape(v@[4]).len() != shape(v@[7]).len());
        assert(shape(v@[5]).len() != shape(v@[6]).len());
        assert(shape(v@[5])[0][1] != shape(v@[7])[0][1]);
        assert(shape(v@[6]).len() != shape(v@[7]).len());
        assert(forall|j1: int, j2: int|
            0 <= j1 < j2 < v@.len() ==> shape(#[trigger] v@[j1]) != shape(#[trigger] v@[j2]));
    }
    v
}

/// The distinct rotations and reflections of the P pentomino.
#[verifier::spinoff_prover]
fn variants_p() -> (v: Vec<Shape>)
    ensures
        v@.len() == 8,
        forall|j: int| 0 <= j < v@.len() ==> matrix_wf(shape(#[trigger] v@[j])),
        forall|j: int| 0 <= j < v@.len() ==> set_cell_count(shape(#[trigger] v@[j])) == 5,
        forall|j1: int, j2: int|
            0 <= j1 < j2 < v@.len() ==> shape(#[trigger] v@[j1]) != shape(#[trigger] v@[j2]),
{
    let mut v: Vec<Shape> = Vec::new();
    let m: Shape = vec![vec![1, 1], vec![1, 1], vec![1, 0]];
    proof {
        assert(shape(m)[0][0] == 1);
        assert(shape(m)[0][1] == 1);
        assert(shape(m)[1][0] == 1);
        assert(shape(m)[2][0] == 1);
        assert(matrix_wf(shape(m)));
        reveal_with_fuel(set_cells_in_row, 7);
        reveal_with_fuel(set_cells_from_row, 7);
        assert(set_cell_count(shape(m)) == 5);
    }
    v.push(m);
    let m: Shape = vec![vec![1, 1, 1], vec![0, 1, 1]];
    proof {
        assert(shape(m)[0][0] == 1);
        assert(shape(m)[0][1] == 1);
        assert(shape(m)[0][2] == 1);
        assert(shape(m)[1][1] == 1);
        assert(matrix_wf(shape(m)));
        reveal_with_fuel(set_cells_in_row, 7);
        reveal_with_fuel(set_cells_from_row, 7);
        assert(set_cell_count(shape(m)) == 5);
    }
    v.push(m);
    let m: Shape = vec![vec![0, 1], vec![1, 1], vec![1, 1]];
    proof {
        assert(shape(m)[0][1] == 1);
        assert(shape(m)[1][0] == 1);
        assert(shape(m)[2][0] == 1);
        assert(matrix_wf(shape(m)));
        reveal_with_fuel(set_cells_in_row, 7);
        reveal_with_fuel(set_cells_from_row, 7);
        assert(set_cell_count(shape(m)) == 5);
    }
    v.push(m);
    let m: Shape = vec![vec![1, 1, 0], vec![1, 1, 1]];
    proof {
        assert(shape(m)[0][0] == 1);
        assert(shape(m)[0][1] == 1);
        assert(shape(m)[1][0] == 1);
        assert(shape(m)[1][2] == 1);
        assert(matrix_wf(shape(m)));
        reveal_with_fuel(set_cells_in_row, 7);
        reveal_with_fuel(set_cells_from_row, 7);
        assert(set_cell_count(shape(m)) == 5);
    }
    v.push(m);
    let m: Shape = vec![vec![1, 1], vec![1, 1], vec![0, 1]];
    proof {
        assert(shape(m)[0][0] == 1);
        assert(shape(m)[0][1] == 1);
        assert(shape(m)[1][0] == 1);
        assert(shape(m)[2][1] == 1);
        assert(matrix_wf(shape(m)));
        reveal_with_fuel(set_cells_in_row, 7);
        reveal_with_fuel(set_cells_from_row, 7);
        assert(set_cell_count(shape(m)) == 5);
    }
    v.push(m);
    let m: Shape = vec![vec![0, 1, 1], vec![1, 1, 1]];
    proof {
        assert(shape(m)[0][1] == 1);
        assert(shape(m)[0][2] == 1);
        assert(shape(m)[1][0] == 1);
        assert(matrix_wf(shape(m)));
        reveal_with_fuel(set_cells_in_row, 7);
        reveal_with_fuel(set_cells_from_row, 7);
        assert(set_cell_count(shape(m)) == 5);
    }
    v.push(m);
    let m: Shape = vec![vec![1, 0], vec![1, 1], vec![1, 1]];
    proof {
        assert(shape(m)[0][0] == 1);
        assert(shape(m)[1][0] == 1);
        assert(shape(m)[1][1] == 1);
        assert(shape(m)[2][0] == 1);
        assert(matrix_wf(shape(m)));
        reveal_with_fuel(set_cells_in_row, 7);
        reveal_with_fuel(set_cells_from_row, 7);
        assert(set_cell_count(shape(m)) == 5);
    }
    v.push(m);
    let m: Shape = vec![vec![1, 1, 1], vec![1, 1, 0]];
    proof {
        assert(shape(m)[0][0] == 1);
        assert(shape(m)[0][1] == 1);
        assert(shape(m)[0][2] == 1);
        assert(shape(m)[1][0] == 1);
        assert(matrix_wf(shape(m)));
        reveal_with_fuel(set_cells_in_row, 7);
        reveal_with_fuel(set_cells_from_row, 7);
        assert(set_cell_count(shape(m)) == 5);
    }
    v.push(m);
    proof {
        assert(shape(v@[0]).len() != shape(v@[1]).len());
        assert(shape(v@[0])[0][0] != shape(v@[2])[0][0]);
        assert(shape(v@[0]).len() != shape(v@[3]).len());
        assert(shape(v@[0])[2][0] != shape(v@[4])[2][0]);
        assert(shape(v@[0]).len() != shape(v@[5]).len());
        assert(shape(v@[0])[0][1] != shape(v@[6])[0][1]);
        assert(shape(v@[0]).len() != shape(v@[7]).len());
        assert(shape(v@[1]).len() != shape(v@[2]).len());
        assert(shape(v@[1])[0][2] != shape(v@[3])[0][2]);
        assert(shape(v@[1]).len() != shape(v@[4]).len());
        assert(shape(v@[1])[0][0] != shape(v@[5])[0][0]);
        assert(shape(v@[1]).len() != shape(v@[6]).len());
        assert(shape(v@[1])[1][0] != shape(v@[7])[1][0]);
        assert(shape(v@[2]).len() != shape(v@[3]).len());
        assert(shape(v@[2])[0][0] != shape(v@[4])[0][0]);
        assert(shape(v@[2]).len() != shape(v@[5]).len());
        assert(shape(v@[2])[0][0] != shape(v@[6])[0][0]);
        assert(shape(v@[2]).len() != shape(v@[7]).len());
        assert(shape(v@[3]).len() != shape(v@[4]).len());
        assert(shape(v@[3])[0][0] != shape(v@[5])[0][0]);
        assert(shape(v@[3]).len() != shape(v@[6]).len());
        assert(shape(v@[3])[0][2] != shape(v@[7])[0][2]);
        assert(shape(v@[4]).len() != shape(v@[5]).len());
        assert(shape(v@[4])[0][1] != shape(v@[6])[0][1]);
        assert(shape(v@[4]).len() != shape(v@[7]).len());
        assert(shape(v@[5]).len() != shape(v@[6]).len());
        assert(shape(v@[5])[0][0] != shape(v@[7])[0][0]);
        assert(shape(v@[6]).len() != shape(v@[7]).len());
        assert(forall|j1: int, j2: int|
            0 <= j1 < j2 < v@.len() ==> shape(#[trigger] v@[j1]) != shape(#[trigger] v@[j2]));
    }
    v
}

/// The distinct rotations and reflections of the N pentomino.
#[verifier::spinoff_prover]
fn variants_n() -> (v: Vec<Shape>)
    ensures
        v@.len() == 8,
        forall|j: int| 0 <= j < v@.len() ==> matrix_wf(shape(#[trigger] v@[j])),
        forall|j: int| 0 <= j < v@.len() ==> set_cell_count(shape(#[trigger] v@[j])) == 5,
        forall|j1: int, j2: int|
            0 <= j1 < j2 < v@.len() ==> shape(#[trigger] v@[j1]) != shape(#[trigger] v@[j2]),
{
    let mut v: Vec<Shape> = Vec::new();
    let m: Shape = vec![vec![0, 1], vec![0, 1], vec![1, 1], vec![1, 0]];
    proof {
        assert(shape(m)[0][1] == 1);
        assert(shape(m)[1][1] == 1);
        assert(shape(m)[2][0] == 1);
        assert(shape(m)[3][0] == 1);
        assert(matrix_wf(shape(m)));
        reveal_with_fuel(set_cells_in_row, 7);
        reveal_with_fuel(set_cells_from_row, 7);
        assert(set_cell_count(shape(m)) == 5);
    }
    v.push(m);
    let m: Shape = vec![vec![1, 1, 0, 0], vec![0, 1, 1, 1]];
    proof {
        assert(shape(m)[0][0] == 1);
        assert(shape(m)[0][1] == 1);
        assert(shape(m)[1][1] == 1);
        assert(shape(m)[1][2] == 1);
        assert(shape(m)[1][3] == 1);
        assert(matrix_wf(shape(m)));
        reveal_with_fuel(set_cells_in_row, 7);
        reveal_with_fuel(set_cells_from_row, 7);
        assert(set_cell_count(shape(m)) == 5);
    }
    v.push(m);
    let m: Shape = vec![vec![0, 1], vec![1, 1], vec![1, 0], vec![1, 0]];
    proof {
        assert(shape(m)[0][1] == 1);
        assert(shape(m)[1][0] == 1);
        assert(shape(m)[2][0] == 1);
        assert(shape(m)[3][0] == 1);
        assert(matrix_wf(shape(m)));
        reveal_with_fuel(set_cells_in_row, 7);
        reveal_with_fuel(set_cells_from_row, 7);
        assert(set_cell_count(shape(m)) == 5);
    }
    v.push(m);
    let m: Shape = vec![vec![1, 1, 1, 0], vec![0, 0, 1, 1]];
    proof {
        assert(shape(m)[0][0] == 1);
        assert(shape(m)[0][1] == 1);
        assert(shape(m)[0][2] == 1);
        assert(shape(m)[1][2] == 1);
        assert(shape(m)[1][3] == 1);
        assert(matrix_wf(shape(m)));
        reveal_with_fuel(set_cells_in_row, 7);
        reveal_with_fuel(set_cells_from_row, 7);
        assert(set_cell_count(shape(m)) == 5);
    }
    v.push(m);
    let m: Shape = vec![vec![1, 0], vec![1, 0], vec![1, 1], vec![0, 1]];
    proof {
        assert(shape(m)[0][0] == 1);
        assert(shape(m)[1][0] == 1);
        assert(shape(m)[2][0] == 1);
        assert(shape(m)[2][1] == 1);
        assert(shape(m)[3][1] == 1);
        assert(matrix_wf(shape(m)));
        reveal_with_fuel(set_cells_in_row, 7);
        reveal_with_fuel(set_cells_from_row, 7);
        assert(set_cell_count(shape(m)) == 5);
    }
    v.push(m);
    let m: Shape = vec![vec![0, 1, 1, 1], vec![1, 1, 0, 0]];
    proof {
        assert(shape(m)[0][1] == 1);
        assert(shape(m)[0][2] == 1);
        assert(shape(m)[0][3] == 1);
        assert(shape(m)[1][0] == 1);
        assert(matrix_wf(shape(m)));
        reveal_with_fuel(set_cells_in_row, 7);
        reveal_with_fuel(set_cells_from_row, 7);
        assert(set_cell_count(shape(m)) == 5);
    }
    v.push(m);
    let m: Shape = vec![vec![1, 0], vec![1, 1], vec![0, 1], vec![0, 1]];
    proof {
        assert(shape(m)[0][0] == 1);
        assert(shape(m)[1][0] == 1);
        assert(shape(m)[1][1] == 1);
        assert(shape(m)[2][1] == 1);
        assert(shape(m)[3][1] == 1);
        assert(matrix_wf(shape(m)));
        reveal_with_fuel(set_cells_in_row, 7);
        reveal_with_fuel(set_cells_from_row, 7);
        assert(set_cell_count(shape(m)) == 5);
    }
    v.push(m);
    let m: Shape = vec![vec![0, 0, 1, 1], vec![1, 1, 1, 0]];
    proof {
        assert(shape(m)[0][2] == 1);
        assert(shape(m)[0][3] == 1);
        assert(shape(m)[1][0] == 1);
        assert(shape(m)[1][1] == 1);
        assert(matrix_wf(shape(m)));
        reveal_with_fuel(set_cells_in_row, 7);
        reveal_with_fuel(set_cells_from_row, 7);
        assert(set_cell_count(shape(m)) == 5);
    }
    v.push(m);
    proof {
        assert(shape(v@[0]).len() != shape(v@[1]).len());
        assert(shape(v@[0])[1][0] != shape(v@[2])[1][0]);
        assert(shape(v@[0]).len() != shape(v@[3]).len());
        assert(shape(v@[0])[0][0] != shape(v@[4])[0][0]);
        assert(shape(v@[0]).len() != shape(v@[5]).len());
        assert(shape(v@[0])[0][0] != shape(v@[6])[0][0]);
        assert(shape(v@[0]).len() != shape(v@[7]).len());
        assert(shape(v@[1]).len() != shape(v@[2]).len());
        assert(shape(v@[1])[0][2] != shape(v@[3])[0][2]);
        assert(shape(v@[1]).len() != shape(v@[4]).len());
        assert(shape(v@[1])[0][0] != shape(v@[5])[0][0]);
        assert(shape(v@[1]).len() != shape(v@[6]).len());
        assert(shape(v@[1])[0][0] != shape(v@[7])[0][0]);
        assert(shape(v@[2]).len() != shape(v@[3]).len());
        assert(shape(v@[2])[0][0] != shape(v@[4])[0][0]);
        assert(shape(v@[2]).len() != shape(v@[5]).len());
        assert(shape(v@[2])[0][0] != shape(v@[6])[0][0]);
        assert(shape(v@[2]).len() != shape(v@[7]).len());
        assert(shape(v@[3]).len() != shape(v@[4]).len());
        assert(shape(v@[3])[0][0] != shape(v@[5])[0][0]);
        assert(shape(v@[3]).len() != shape(v@[6]).len());
        assert(shape(v@[3])[0][0] != shape(v@[7])[0][0]);
        assert(shape(v@[4]).len() != shape(v@[5]).len());
        assert(shape(v@[4])[1][1] != shape(v@[6])[1][1]);
        assert(shape(v@[4]).len() != shape(v@[7]).len());
        assert(shape(v@[5]).len() != shape(v@[6]).len());
        assert(shape(v@[5])[0][1] != shape(v@[7])[0][1]);
        assert(shape(v@[6]).len() != shape(v@[7]).len());
        assert(forall|j1: int, j2: int|
            0 <= j1 < j2 < v@.len() ==> shape(#[trigger] v@[j1]) != shape(#[trigger] v@[j2]));
    }
    v
}

/// The distinct rotations and reflections of the F pentomino.
#[verifier::spinoff_prover]
fn variants_f() -> (v: Vec<Shape>)
    ensures
        v@.len() == 8,
        forall|j: int| 0 <= j < v@.len() ==> matrix_wf(shape(#[trigger] v@[j])),
        forall|j: int| 0 <= j < v@.len() ==> set_cell_count(shape(#[trigger] v@[j])) == 5,
        forall|j1: int, j2: int|
            0 <= j1 < j2 < v@.len() ==> shape(#[trigger] v@[j1]) != shape(#[trigger] v@[j2]),
{
    let mut v: Vec<Shape> = Vec::new();
    let m: Shape = vec![vec![0, 1, 1], vec![1, 1, 0], vec![0, 1, 0]];
    proof {
        assert(shape(m)[0][1] == 1);
        assert(shape(m)[0][2] == 1);
        assert(shape(m)[1][0] == 1);
        assert(shape(m)[2][1] == 1);
        assert(matrix_wf(shape(m)));
        reveal_with_fuel(set_cells_in_row, 7);
        reveal_with_fuel(set_cells_from_row, 7);
        assert(set_cell_count(shape(m)) == 5);
    }
    v.push(m);
    let m: Shape = vec![vec![0, 1, 0], vec![1, 1, 1], vec![0, 0, 1]];
    proof {
        assert(shape(m)[0][1] == 1);
        assert(shape(m)[1][0] == 1);
        assert(shape(m)[1][2] == 1);
        assert(shape(m)[2][2] == 1);
        assert(matrix_wf(shape(m)));
        reveal_with_fuel(set_cells_in_row, 7);
        reveal_with_fuel(set_cells_from_row, 7);
        assert(set_cell_count(shape(m)) == 5);
    }
    v.push(m);
    let m: Shape = vec![vec![0, 1, 0], vec![0, 1, 1], vec![1, 1, 0]];
    proof {
        assert(shape(m)[0][1] == 1);
        assert(shape(m)[1][1] == 1);
        assert(shape(m)[1][2] == 1);
        assert(shape(m)[2][0] == 1);
        assert(matrix_wf(shape(m)));
        reveal_with_fuel(set_cells_in_row, 7);
        reveal_with_fuel(set_cells_from_row, 7);
        assert(set_cell_count(shape(m)) == 5);
    }
    v.push(m);
    let m: Shape = vec![vec![1, 0, 0], vec![1, 1, 1], vec![0, 1, 0]];
    proof {
        assert(shape(m)[0][0] == 1);
        assert(shape(m)[1][0] == 1);
        assert(shape(m)[1][1] == 1);
        assert(shape(m)[1][2] == 1);
        assert(shape(m)[2][1] == 1);
        assert(matrix_wf(shape(m)));
        reveal_with_fuel(set_cells_in_row, 7);
        reveal_with_fuel(set_cells_from_row, 7);
        assert(set_cell_count(shape(m)) == 5);
    }
    v.push(m);
    let m: Shape = vec![vec![1, 1, 0], vec![0, 1, 1], vec![0, 1, 0]];
    proof {
        assert(shape(m)[0][0] == 1);
        assert(shape(m)[0][1] == 1);
        assert(shape(m)[1][1] == 1);
        assert(shape(m)[1][2] == 1);
        assert(shape(m)[2][1] == 1);
        assert(matrix_wf(shape(m)));
        reveal_with_fuel(set_cells_in_row, 7);
        reveal_with_fuel(set_cells_from_row, 7);
        assert(set_cell_count(shape(m)) == 5);
    }
    v.push(m);
    let m: Shape = vec![vec![0, 0, 1], vec![1, 1, 1], vec![0, 1, 0]];
    proof {
        assert(shape(m)[0][2] == 1);
        assert(shape(m)[1][0] == 1);
        assert(shape(m)[1][1] == 1);
        assert(shape(m)[2][1] == 1);
        assert(matrix_wf(shape(m)));
        reveal_with_fuel(set_cells_in_row, 7);
        reveal_with_fuel(set_cells_from_row, 7);
        assert(set_cell_count(shape(m)) == 5);
    }
    v.push(m);
    let m: Shape = vec![vec![0, 1, 0], vec![1, 1, 0], vec![0, 1, 1]];
    proof {
        assert(shape(m)[0][1] == 1);
        assert(shape(m)[1][0] == 1);
        assert(shape(m)[2][1] == 1);
        assert(shape(m)[2][2] == 1);
        assert(matrix_wf(shape(m)));
        reveal_with_fuel(set_cells_in_row, 7);
        reveal_with_fuel(set_cells_from_row, 7);
        assert(set_cell_count(shape(m)) == 5);
    }
    v.push(m);
    let m: Shape = vec![vec![0, 1, 0], vec![1, 1, 1], vec![1, 0, 0]];
    proof {
        assert(shape(m)[0][1] == 1);
        assert(shape(m)[1][0] == 1);
        assert(shape(m)[1][2] == 1);
        assert(shape(m)[2][0] == 1);
        assert(matrix_wf(shape(m)));
        reveal_with_fuel(set_cells_in_row, 7);
        reveal_with_fuel(set_cells_from_row, 7);
        assert(set_cell_count(shape(m)) == 5);
    }
    v.push(m);
    proof {
        assert(shape(v@[0])[0][2] != shape(v@[1])[0][2]);
        assert(shape(v@[0])[0][2] != shape(v@[2])[0][2]);
        assert(shape(v@[0])[0][0] != shape(v@[3])[0][0]);
        assert(shape(v@[0])[0][0] != shape(v@[4])[0][0]);
        assert(shape(v@[0])[0][1] != shape(v@[5])[0][1]);
        assert(shape(v@[0])[0][2] != shape(v@[6])[0][2]);
        assert(shape(v@[0])[0][2] != shape(v@[7])[0][2]);
        assert(shape(v@[1])[1][0] != shape(v@[2])[1][0]);
        assert(shape(v@[1])[0][0] != shape(v@[3])[0][0]);
        assert(shape(v@[1])[0][0] != shape(v@[4])[0][0]);
        assert(shape(v@[1])[0][1] != shape(v@[5])[0][1]);
        assert(shape(v@[1])[1][2] != shape(v@[6])[1][2]);
        assert(shape(v@[1])[2][0] != shape(v@[7])[2][0]);
        assert(shape(v@[2])[0][0] != shape(v@[3])[0][0]);
        assert(shape(v@[2])[0][0] != shape(v@[4])[0][0]);
        assert(shape(v@[2])[0][1] != shape(v@[5])[0][1]);
        assert(shape(v@[2])[1][0] != shape(v@[6])[1][0]);
        assert(shape(v@[2])[1][0] != shape(v@[7])[1][0]);
        assert(shape(v@[3])[0][1] != shape(v@[4])[0][1]);
        assert(shape(v@[3])[0][0] != shape(v@[5])[0][0]);
        assert(shape(v@[3])[0][0] != shape(v@[6])[0][0]);
        assert(shape(v@[3])[0][0] != shape(v@[7])[0][0]);
        assert(shape(v@[4])[0][0] != shape(v@[5])[0][0]);
        assert(shape(v@[4])[0][0] != shape(v@[6])[0][0]);
        assert(shape(v@[4])[0][0] != shape(v@[7])[0][0]);
        assert(shape(v@[5])[0][1] != shape(v@[6])[0][1]);
        assert(shape(v@[5])[0][1] != shape(v@[7])[0][1]);
        assert(shape(v@[6])[1][2] != shape(v@[7])[1][2]);
        assert(forall|j1: int, j2: int|
            0 <= j1 < j2 < v@.len() ==> shape(#[trigger] v@[j1]) != shape(#[trigger] v@[j2]));
    }
    v
}

/// Builds the whole catalog: for each piece type, in the order the type ids
/// give, its distinct rotations and reflections — as many as the piece's
/// symmetry leaves distinct.
pub fn load_permutations() -> (p: Permutations)
    ensures
        catalog_wf(p@),
        p@.len() == 12,
        p@[0]@.len() == 1,
        p@[1]@.len() == 2,
        p@[2]@.len() == 4,
        p@[3]@.len() == 4,
        p@[4]@.len() == 4,
        p@[5]@.len() == 4,
        p@[6]@.len() == 4,
        p@[7]@.len() == 8,
        p@[8]@.len() == 8,
        p@[9]@.len() == 8,
        p@[10]@.len() == 8,
        p@[11]@.len() == 8,
{
    let mut p: Permutations = Vec::with_capacity(12);
    p.push(variants_x());
    p.push(variants_i());
    p.push(variants_z());
    p.push(variants_t());
    p.push(variants_u());
    p.push(variants_v());
    p.push(variants_w());
    p.push(variants_y());
    p.push(variants_l());
    p.push(variants_p());
    p.push(variants_n());
    p.push(variants_f());
    p
}

} // verus!
