//! Tile-identity helpers working on a bare usage table.

use vstd::prelude::*;

use crate::game::ID_SPACE;
use crate::game::first_free;
use crate::game::spec_composite_id;
use crate::game::spec_pent_id;
use crate::game::spec_unique_id;
use crate::pentominoes::spec_char_to_id;

verus! {

/// Hands out the lowest unused id congruent to `pent_id` modulo 12 and marks
/// it used. When that whole residue class is exhausted, the usage tracking
/// is reset wholesale and allocation retries from the clean table:
/// `pent_id` itself comes back, marked used. Ids handed out before the reset
/// may be handed out again after it.
pub fn next_unique_id(used_ids: &mut Vec<bool>, pent_id: &u8) -> (r: u16)
    requires
        old(used_ids)@.len() == ID_SPACE,
    ensures
        final(used_ids)@.len() == ID_SPACE,
        r < ID_SPACE,
        r as int % 12 == *pent_id as int % 12,
        final(used_ids)@[r as int],
        first_free(old(used_ids)@, *pent_id as int) >= 0 ==> {
            &&& r == first_free(old(used_ids)@, *pent_id as int)
            &&& !old(used_ids)@[r as int]
            &&& final(used_ids)@ == old(used_ids)@.update(r as int, true)
        },
        first_free(old(used_ids)@, *pent_id as int) < 0 ==> {
            &&& r == *pent_id as u16
            &&& forall|i: int| 0 <= i < ID_SPACE && i != r as int ==> !final(used_ids)@[i]
        },
{
    // next_id = pent_id + multiple of 12
    let mut next_id: usize = *pent_id as usize;

    loop
        invariant
            used_ids@ == old(used_ids)@,
            used_ids@.len() == ID_SPACE,
            *pent_id as int <= next_id < ID_SPACE + 12,
            next_id % 12 == *pent_id as usize % 12,
            first_free(used_ids@, next_id as int) == first_free(old(used_ids)@, *pent_id as int),
        decreases ID_SPACE + 12 - next_id,
    {
        // if next_id is larger than 12 bits, the pool is exhausted for this
        // piece type: clear all usage tracking and retry from pent_id
        if (next_id & 0xF000) != 0 {
            proof {
                assert(next_id >= 4096) by (bit_vector)
                    requires next_id & 0xF000 != 0usize, next_id < 4096 + 12;
            }
            for i in 0..ID_SPACE
                invariant
                    used_ids@.len() == ID_SPACE,
                    forall|k: int| 0 <= k < i ==> !used_ids@[k],
            {
                used_ids[i] = false;
            }
            used_ids[*pent_id as usize] = true;
            return *pent_id as u16;
        }
        proof {
            assert(next_id < 4096) by (bit_vector)
                requires next_id & 0xF000 == 0usize, next_id < 4096 + 12;
        }
        if !used_ids[next_id] {
            used_ids[next_id] = true;
            return next_id as u16;
        }
        next_id += 12;
    }
}

// composite_id (16 bits) = pent_id (4 bits) + unique_id (12 bits)
pub fn create_composite_id(pent_id: &u8, unique_id: &u16) -> (r: u16)
    ensures
        r == spec_composite_id(*pent_id, *unique_id),
{
    ((*pent_id as u16) << 12) | (*unique_id & 0x0FFF)
}

pub fn get_pent_id(composite_id: u16) -> (r: u8)
    ensures
        r == spec_pent_id(composite_id),
{
    (composite_id >> 12) as u8
}

pub fn get_unique_id(composite_id: u16) -> (r: u16)
    ensures
        r == spec_unique_id(composite_id),
{
    composite_id & 0x0FFF
}

/// The piece type a display letter stands for, or 255 for any other letter.
pub fn char_to_id(c: char) -> (r: u8)
    ensures
        r == spec_char_to_id(c),
{
    crate::pentominoes::char_to_id(c)
}

} // verus!
