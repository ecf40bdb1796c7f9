//! The piece catalog held as a database value: for each of the twelve piece
//! ids, in order, the distinct rotations and reflections of that piece as
//! occupancy matrices.

use vstd::prelude::*;

use crate::pentominoes;

verus! {

pub struct PentominoDB {
    pub data: Vec<Vec<Vec<Vec<u8>>>>,
}

impl PentominoDB {
    pub fn new() -> (db: PentominoDB)
        ensures
            pentominoes::catalog_wf(db.data@),
            db.data@.len() == 12,
            db.data@[0]@.len() == 1,
            db.data@[1]@.len() == 2,
            db.data@[2]@.len() == 4,
            db.data@[3]@.len() == 4,
            db.data@[4]@.len() == 4,
            db.data@[5]@.len() == 4,
            db.data@[6]@.len() == 4,
            db.data@[7]@.len() == 8,
            db.data@[8]@.len() == 8,
            db.data@[9]@.len() == 8,
            db.data@[10]@.len() == 8,
            db.data@[11]@.len() == 8,
    {
        let data = PentominoDB::load_pentominoes();
        PentominoDB { data }
    }

    /// Returns the variant table: first index the piece id, second the
    /// variant, then the occupancy matrix itself.
    pub fn load_pentominoes() -> (data: Vec<Vec<Vec<Vec<u8>>>>)
        ensures
            pentominoes::catalog_wf(data@),
            data@.len() == 12,
            data@[0]@.len() == 1,
            data@[1]@.len() == 2,
            data@[2]@.len() == 4,
            data@[3]@.len() == 4,
            data@[4]@.len() == 4,
            data@[5]@.len() == 4,
            data@[6]@.len() == 4,
            data@[7]@.len() == 8,
            data@[8]@.len() == 8,
            data@[9]@.len() == 8,
            data@[10]@.len() == 8,
            data@[11]@.len() == 8,
    {
        pentominoes::load_permutations()
    }
}

} // verus!
