//! The shuffled-bag generator that supplies the upcoming pieces.

use rand::seq::SliceRandom;
use std::collections::VecDeque;
use vstd::prelude::*;

use crate::pentominoes::spec_char_to_id;

verus! {

/// A letter that names one of the twelve pieces.
pub open spec fn valid_piece_char(c: char) -> bool {
    spec_char_to_id(c) < 12
}

/// Relies on rand's `SliceRandom::shuffle` with `rand::thread_rng`: permutes
/// the elements in place; whatever order comes out, the elements are the
/// same.
#[verifier::external_body]
fn shuffle_chars(v: &mut Vec<char>)
    ensures
        final(v)@.to_multiset() == old(v)@.to_multiset(),
        final(v)@.len() == old(v)@.len(),
{
    v.shuffle(&mut rand::thread_rng());
}

/// Supplies the ordered list of upcoming piece types. Pieces are drawn from
/// a shuffled bag of all twelve letters that is refilled when it empties;
/// a sliding window of `stack_size` upcoming pieces is kept ready.
pub struct NextShapes {
    all_shapes: Vec<char>,
    available_shapes: Vec<char>,
    next_up_shapes: VecDeque<char>,
    stack_size: usize,
}

impl NextShapes {
    /// All queues hold piece letters only, the bag template is the full
    /// alphabet, and the upcoming window has its configured length.
    pub closed spec fn wf(&self) -> bool {
        &&& self.all_shapes@.len() == 12
        &&& forall|i: int|
            0 <= i < self.all_shapes@.len() ==> valid_piece_char(#[trigger] self.all_shapes@[i])
        &&& forall|i: int|
            0 <= i < self.available_shapes@.len() ==> valid_piece_char(
                #[trigger] self.available_shapes@[i],
            )
        &&& forall|i: int|
            0 <= i < self.next_up_shapes@.len() ==> valid_piece_char(
                #[trigger] self.next_up_shapes@[i],
            )
        &&& self.next_up_shapes@.len() == self.stack_size
    }

    /// The configured length of the upcoming window.
    pub closed spec fn spec_stack_size(&self) -> int {
        self.stack_size as int
    }

    /// The current window of upcoming pieces, oldest first, for contracts.
    pub closed spec fn spec_window(&self) -> Seq<char> {
        self.next_up_shapes@
    }

    pub fn new(lookahead_size: u8) -> (r: NextShapes)
        ensures
            r.wf(),
            r.spec_stack_size() == lookahead_size as int,
    {
        let all_shapes: Vec<char> = vec![
            'X',
            'V',
            'Z',
            'W',
            'I',
            'T',
            'Y',
            'L',
            'N',
            'P',
            'U',
            'F',
        ];
        let mut next_shapes = NextShapes {
            all_shapes,
            available_shapes: Vec::new(),
            next_up_shapes: VecDeque::new(),
            stack_size: lookahead_size as usize,
        };
        next_shapes.generate_next_up_shapes();
        next_shapes
    }

    fn generate_next_up_shapes(&mut self)
        requires
            old(self).all_shapes@.len() == 12,
            forall|i: int|
                0 <= i < old(self).all_shapes@.len() ==> valid_piece_char(
                    #[trigger] old(self).all_shapes@[i],
                ),
            forall|i: int|
                0 <= i < old(self).available_shapes@.len() ==> valid_piece_char(
                    #[trigger] old(self).available_shapes@[i],
                ),
        ensures
            final(self).wf(),
            final(self).stack_size == old(self).stack_size,
    {
        self.next_up_shapes.clear();
        let stack_size = self.stack_size;
        for _k in 0..stack_size
            invariant
                self.next_up_shapes@.len() == _k,
                self.stack_size == stack_size,
                self.all_shapes@.len() == 12,
                forall|i: int|
                    0 <= i < self.all_shapes@.len() ==> valid_piece_char(
                        #[trigger] self.all_shapes@[i],
                    ),
                forall|i: int|
                    0 <= i < self.available_shapes@.len() ==> valid_piece_char(
                        #[trigger] self.available_shapes@[i],
                    ),
                forall|i: int|
                    0 <= i < self.next_up_shapes@.len() ==> valid_piece_char(
                        #[trigger] self.next_up_shapes@[i],
                    ),
        {
            let next = self.get_next_shape_from_pool();
            self.next_up_shapes.push_back(next);
        }
    }

    /// Draws the next letter from the bag, refilling it first if it is
    /// empty.
    fn get_next_shape_from_pool(&mut self) -> (c: char)
        requires
            old(self).all_shapes@.len() == 12,
            forall|i: int|
                0 <= i < old(self).all_shapes@.len() ==> valid_piece_char(
                    #[trigger] old(self).all_shapes@[i],
                ),
            forall|i: int|
                0 <= i < old(self).available_shapes@.len() ==> valid_piece_char(
                    #[trigger] old(self).available_shapes@[i],
                ),
        ensures
            valid_piece_char(c),
            final(self).all_shapes == old(self).all_shapes,
            final(self).next_up_shapes == old(self).next_up_shapes,
            final(self).stack_size == old(self).stack_size,
            forall|i: int|
                0 <= i < final(self).available_shapes@.len() ==> valid_piece_char(
                    #[trigger] final(self).available_shapes@[i],
                ),
    {
        if self.available_shapes.len() == 0 {
            self.refresh();
        }
        self.available_shapes.remove(0)
    }

    /// Refills the bag with all twelve letters in a fresh random order.
    fn refresh(&mut self)
        requires
            old(self).all_shapes@.len() == 12,
            forall|i: int|
                0 <= i < old(self).all_shapes@.len() ==> valid_piece_char(
                    #[trigger] old(self).all_shapes@[i],
                ),
        ensures
            final(self).available_shapes@.len() == 12,
            forall|i: int|
                0 <= i < final(self).available_shapes@.len() ==> valid_piece_char(
                    #[trigger] final(self).available_shapes@[i],
                ),
            final(self).all_shapes == old(self).all_shapes,
            final(self).next_up_shapes == old(self).next_up_shapes,
            final(self).stack_size == old(self).stack_size,
    {
        self.available_shapes.clear();
        self.available_shapes.extend_from_slice(self.all_shapes.as_slice());
        let ghost before = self.available_shapes@;
        shuffle_chars(&mut self.available_shapes);
        proof {
            assert forall|i: int|
                0 <= i < self.available_shapes@.len() implies valid_piece_char(
                #[trigger] self.available_shapes@[i],
            ) by {
                let c = self.available_shapes@[i];
                assert(self.available_shapes@.to_multiset().contains(c)) by {
                    self.available_shapes@.to_multiset_ensures();
                }
                assert(before.to_multiset().contains(c));
                assert(before.contains(c)) by {
                    before.to_multiset_ensures();
                }
            }
        }
    }

    /// Hands out the current window of upcoming pieces, oldest first, and
    /// slides it forward by one: the front piece leaves, a fresh one from
    /// the bag joins at the back.
    pub fn get_next_stack(&mut self) -> (next_stack: Vec<char>)
        requires
            old(self).wf(),
            old(self).spec_stack_size() >= 1,
        ensures
            final(self).wf(),
            final(self).spec_stack_size() == old(self).spec_stack_size(),
            next_stack@.len() == old(self).spec_stack_size(),
            next_stack@ == old(self).spec_window(),
            exists|c: char|
                #[trigger] valid_piece_char(c) && final(self).spec_window() == old(
                    self,
                ).spec_window().skip(1).push(c),
            forall|i: int|
                0 <= i < next_stack@.len() ==> valid_piece_char(#[trigger] next_stack@[i]),
    {
        let stack_size = self.stack_size;
        let mut next_stack: Vec<char> = Vec::with_capacity(stack_size);

        for i in 0..stack_size
            invariant
                old(self).wf(),
                self == old(self),
                stack_size == self.stack_size,
                next_stack@ =~= self.next_up_shapes@.subrange(0, i as int),
                forall|k: int|
                    0 <= k < next_stack@.len() ==> valid_piece_char(#[trigger] next_stack@[k]),
        {
            next_stack.push(self.next_up_shapes[i]);
            proof {
                assert(next_stack@ =~= self.next_up_shapes@.subrange(0, i + 1 as int));
            }
        }
        proof {
            assert(next_stack@ =~= old(self).spec_window());
        }

        let ghost q0 = self.next_up_shapes@;
        self.next_up_shapes.pop_front();
        let ghost q1 = self.next_up_shapes@;
        let next = self.get_next_shape_from_pool();
        self.next_up_shapes.push_back(next);
        proof {
            assert forall|k: int|
                0 <= k < self.next_up_shapes@.len() implies valid_piece_char(
                #[trigger] self.next_up_shapes@[k],
            ) by {
                if k < q1.len() {
                    assert(self.next_up_shapes@[k] == q0[k + 1]);
                } else {
                    assert(self.next_up_shapes@[k] == next);
                }
            }
            assert(self.next_up_shapes@ =~= q0.skip(1).push(next));
        }

        next_stack
    }
}

} // verus!
