//! Tile-identity codec fronts of this layering.

use vstd::prelude::*;

use crate::game;
use crate::game::spec_composite_id;
use crate::game::spec_pent_id;
use crate::game::spec_unique_id;
use crate::pentominoes::spec_char_to_id;

verus! {

/// The piece type a display letter stands for, or 255 for any other letter.
pub fn char_to_id(c: char) -> (r: u8)
    ensures
        r == spec_char_to_id(c),
{
    crate::pentominoes::char_to_id(c)
}

// composite_id (16 bits) = pent_id (4 bits) + unique_id (12 bits)
pub fn create_composite_id(pent_id: u8, unique_id: u16) -> (r: u16)
    ensures
        r == spec_composite_id(pent_id, unique_id),
{
    game::create_composite_id(pent_id, unique_id)
}

pub fn get_pent_id(composite_id: u16) -> (r: u8)
    ensures
        r == spec_pent_id(composite_id),
{
    game::get_pent_id(composite_id)
}

pub fn get_unique_id(composite_id: u16) -> (r: u16)
    ensures
        r == spec_unique_id(composite_id),
{
    game::get_unique_id(composite_id)
}

} // verus!
