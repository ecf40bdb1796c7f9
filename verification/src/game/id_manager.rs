//! Allocator for the per-instance half of a tile value.

use vstd::prelude::*;

verus! {

/// Number of instance ids the twelve-bit field can hold.
pub const ID_SPACE: usize = 4096;

/// Tracks which instance ids are in use, so that two pieces that are on the
/// board at the same time never share one.
pub struct IdManager {
    used_ids: Vec<bool>,
}

impl View for IdManager {
    type V = Seq<bool>;

    closed spec fn view(&self) -> Seq<bool> {
        self.used_ids@
    }
}

/// The first unused id at or above `i` that is congruent to `i` modulo 12,
/// or -1 when every such id below `ID_SPACE` is taken.
pub open spec fn first_free(used: Seq<bool>, i: int) -> int
    decreases ID_SPACE + 12 - i when i >= 0
{
    if i >= ID_SPACE {
        -1
    } else if !used[i] {
        i
    } else {
        first_free(used, i + 12)
    }
}

pub proof fn lemma_first_free(used: Seq<bool>, i: int)
    requires
        0 <= i,
    ensures
        first_free(used, i) >= 0 ==> {
            &&& i <= first_free(used, i) < ID_SPACE
            &&& first_free(used, i) % 12 == i % 12
            &&& !used[first_free(used, i)]
        },
    decreases ID_SPACE + 12 - i,
{
    if i < ID_SPACE && used[i] {
        lemma_first_free(used, i + 12);
    }
}

/// When some id of the residue class at or above `start` is unused, the
/// first free id exists and is no larger than that witness.
pub proof fn lemma_first_free_finds(used: Seq<bool>, start: int, k: nat)
    requires
        0 <= start,
        start + 12 * k < ID_SPACE,
        !used[start + 12 * k],
    ensures
        0 <= first_free(used, start) <= start + 12 * k,
    decreases k,
{
    if used[start] {
        lemma_first_free_finds(used, start + 12, (k - 1) as nat);
    }
}

impl IdManager {
    pub open spec fn wf(&self) -> bool {
        self@.len() == ID_SPACE
    }

    /// All ids start out unused.
    pub fn default() -> (m: IdManager)
        ensures
            m.wf(),
            forall|i: int| 0 <= i < ID_SPACE ==> !m@[i],
    {
        let mut used_ids: Vec<bool> = Vec::with_capacity(ID_SPACE);
        for i in 0..ID_SPACE
            invariant
                used_ids@.len() == i,
                forall|k: int| 0 <= k < i ==> !used_ids@[k],
        {
            used_ids.push(false);
        }
        IdManager { used_ids }
    }

    /// Same as `default`.
    pub fn new() -> (m: IdManager)
        ensures
            m.wf(),
            forall|i: int| 0 <= i < ID_SPACE ==> !m@[i],
    {
        IdManager::default()
    }

    /// Hands out the lowest unused id congruent to `pent_id` modulo 12 and
    /// marks it used. When that whole residue class is exhausted, the usage
    /// tracking is reset wholesale and allocation retries from the clean
    /// pool: `pent_id` itself comes back, marked used. Ids handed out before
    /// the reset may be handed out again after it.
    pub fn next_unique_id(&mut self, pent_id: u8) -> (r: u16)
        requires
            old(self).wf(),
        ensures
            final(self).wf(),
            r < ID_SPACE,
            r as int % 12 == pent_id as int % 12,
            final(self)@[r as int],
            first_free(old(self)@, pent_id as int) >= 0 ==> {
                &&& r == first_free(old(self)@, pent_id as int)
                &&& !old(self)@[r as int]
                &&& final(self)@ == old(self)@.update(r as int, true)
            },
            first_free(old(self)@, pent_id as int) < 0 ==> {
                &&& r == pent_id as u16
                &&& forall|i: int| 0 <= i < ID_SPACE && i != r as int ==> !final(self)@[i]
            },
    {
        let mut next_id: usize = pent_id as usize;

        loop
            invariant
                self.wf(),
                self@ == old(self)@,
                pent_id as int <= next_id < ID_SPACE + 12,
                next_id % 12 == pent_id as usize % 12,
                first_free(self@, next_id as int) == first_free(old(self)@, pent_id as int),
            decreases ID_SPACE + 12 - next_id,
        {
            if (next_id & 0xF000) != 0 {
                proof {
                    assert(next_id >= 4096) by (bit_vector)
                        requires next_id & 0xF000 != 0usize, next_id < 4096 + 12;
                }
                for i in 0..ID_SPACE
                    invariant
                        self.wf(),
                        forall|k: int| 0 <= k < i ==> !self@[k],
                {
                    self.used_ids[i] = false;
                }
                self.used_ids[pent_id as usize] = true;
                return pent_id as u16;
            }
            proof {
                assert(next_id < 4096) by (bit_vector)
                    requires next_id & 0xF000 == 0usize, next_id < 4096 + 12;
            }
            if !self.used_ids[next_id] {
                self.used_ids[next_id] = true;
                return next_id as u16;
            }
            next_id += 12;
        }
    }
}

} // verus!
