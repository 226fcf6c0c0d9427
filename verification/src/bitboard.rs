//! A 64-bit mask over board coordinates: membership test, set, clear,
//! and enumeration as a sequence of coordinates in ascending index order.

use vstd::prelude::*;
use crate::square::Square;
use crate::square::square_from_i32;

verus! {

/// Bit `i` of the mask is set. False outside 0..64.
pub open spec fn bb_has(v: u64, i: int) -> bool {
    0 <= i < 64 && (v >> (i as u64)) & 1u64 == 1u64
}

/// The mask with bit `i` set.
pub open spec fn bb_set(v: u64, i: int) -> u64 {
    v | (1u64 << (i as u64))
}

/// The mask with bit `i` cleared.
pub open spec fn bb_clear(v: u64, i: int) -> u64 {
    v & !(1u64 << (i as u64))
}

proof fn lemma_set_bit_u64(v: u64, i: u64, j: u64)
    by (bit_vector)
    requires
        i < 64,
        j < 64,
    ensures
        (((v | (1u64 << i)) >> j) & 1u64 == 1u64) == (((v >> j) & 1u64 == 1u64) || i == j),
{
}

proof fn lemma_clear_bit_u64(v: u64, i: u64, j: u64)
    by (bit_vector)
    requires
        i < 64,
        j < 64,
    ensures
        (((v & !(1u64 << i)) >> j) & 1u64 == 1u64) == (((v >> j) & 1u64 == 1u64) && i != j),
{
}

pub proof fn lemma_bb_set(v: u64, i: int)
    requires
        0 <= i < 64,
    ensures
        forall|j: int|
            0 <= j < 64 ==> #[trigger] bb_has(bb_set(v, i), j) == (bb_has(v, j) || j == i),
{
    assert forall|j: int| 0 <= j < 64 implies #[trigger] bb_has(bb_set(v, i), j) == (bb_has(v, j)
        || j == i) by {
        lemma_set_bit_u64(v, i as u64, j as u64);
        assert(bb_set(v, i) == v | (1u64 << (i as u64)));
        assert(bb_has(bb_set(v, i), j) == (((v | (1u64 << (i as u64))) >> (j as u64)) & 1u64
            == 1u64));
        assert(bb_has(v, j) == ((v >> (j as u64)) & 1u64 == 1u64));
        assert((j == i) == ((j as u64) == (i as u64)));
        assert(bb_has(bb_set(v, i), j) == (bb_has(v, j) || j == i));
    }
}

pub proof fn lemma_bb_clear(v: u64, i: int)
    requires
        0 <= i < 64,
    ensures
        forall|j: int|
            0 <= j < 64 ==> #[trigger] bb_has(bb_clear(v, i), j) == (bb_has(v, j) && j != i),
{
    assert forall|j: int| 0 <= j < 64 implies #[trigger] bb_has(bb_clear(v, i), j) == (bb_has(
        v,
        j,
    ) && j != i) by {
        lemma_clear_bit_u64(v, i as u64, j as u64);
        assert(bb_clear(v, i) == v & !(1u64 << (i as u64)));
        assert(bb_has(bb_clear(v, i), j) == (((v & !(1u64 << (i as u64))) >> (j as u64)) & 1u64
            == 1u64));
    }
}

pub proof fn lemma_bb_zero()
    ensures
        forall|j: int| 0 <= j < 64 ==> !bb_has(0u64, j),
{
    assert forall|j: int| 0 <= j < 64 implies !bb_has(0u64, j) by {
        let ju = j as u64;
        assert(((0u64 >> ju) & 1u64) != 1u64) by (bit_vector)
            requires
                ju < 64,
        ;
    }
}

fn is_bit(value: u64, bit: i32) -> (b: bool)
    requires
        0 <= bit < 64,
    ensures
        b == bb_has(value, bit as int),
{
    (value >> (bit as u64)) & 1u64 == 1u64
}

#[derive(Copy, Clone, PartialEq, Eq, Structural, Debug)]
pub struct BitBoard {
    pub value: u64,
}

impl BitBoard {
    pub fn new(value: u64) -> (bb: BitBoard)
        ensures
            bb.value == value,
    {
        BitBoard { value }
    }

    /// Membership test; an off-board coordinate is never a member.
    pub fn get_square(&self, square: Square) -> (b: bool)
        ensures
            b == (square.valid() && bb_has(self.value, square.index())),
    {
        if square.is_valid() {
            is_bit(self.value, square.to_i32())
        } else {
            false
        }
    }

    pub fn set_square(&mut self, square: Square)
        requires
            square.valid(),
        ensures
            final(self).value == bb_set(old(self).value, square.index()),
            forall|j: int|
                0 <= j < 64 ==> bb_has(final(self).value, j) == (bb_has(old(self).value, j) || j
                    == square.index()),
    {
        proof {
            lemma_bb_set(self.value, square.index());
        }
        self.value = self.value | (1u64 << (square.to_i32() as u64));
    }

    pub fn remove_square(&mut self, square: Square)
        requires
            square.valid(),
        ensures
            final(self).value == bb_clear(old(self).value, square.index()),
            forall|j: int|
                0 <= j < 64 ==> bb_has(final(self).value, j) == (bb_has(old(self).value, j) && j
                    != square.index()),
    {
        proof {
            lemma_bb_clear(self.value, square.index());
        }
        self.value = self.value & !(1u64 << (square.to_i32() as u64));
    }

    /// All member coordinates, in ascending linear-index order.
    pub fn to_squares(&self) -> (sqs: Vec<Square>)
        ensures
            forall|k: int|
                0 <= k < sqs@.len() ==> (#[trigger] sqs@[k]).valid() && bb_has(
                    self.value,
                    sqs@[k].index(),
                ),
            forall|k1: int, k2: int|
                0 <= k1 < k2 < sqs@.len() ==> sqs@[k1].index() < sqs@[k2].index(),
            forall|i: int|
                0 <= i < 64 && bb_has(self.value, i) ==> exists|k: int|
                    0 <= k < sqs@.len() && (#[trigger] sqs@[k]).index() == i,
    {
        let mut vec: Vec<Square> = Vec::new();
        for i in 0i32..64i32
            invariant
                forall|k: int|
                    0 <= k < vec@.len() ==> (#[trigger] vec@[k]).valid() && bb_has(
                        self.value,
                        vec@[k].index(),
                    ) && vec@[k].index() < i,
                forall|k1: int, k2: int|
                    0 <= k1 < k2 < vec@.len() ==> vec@[k1].index() < vec@[k2].index(),
                forall|j: int|
                    0 <= j < i && bb_has(self.value, j) ==> exists|k: int|
                        0 <= k < vec@.len() && (#[trigger] vec@[k]).index() == j,
        {
            if is_bit(self.value, i) {
                let square: Square = square_from_i32(i);
                let ghost prev: Seq<Square> = vec@;
                vec.push(square);
                proof {
                    assert forall|j: int| 0 <= j < i + 1 && bb_has(self.value, j) implies exists|
                        k: int,
                    | 0 <= k < vec@.len() && (#[trigger] vec@[k]).index() == j by {
                        if j < i {
                            let k0 = choose|k: int|
                                0 <= k < prev.len() && (#[trigger] prev[k]).index() == j;
                            assert(vec@[k0].index() == j);
                        } else {
                            assert(vec@[vec@.len() - 1].index() == j);
                        }
                    }
                }
            }
        }
        vec
    }
}

} // verus!
