//! Single bits of a 32-bit register word.
use vstd::prelude::*;

verus! {

/// Whether bit `index` of `word` is set.
pub open spec fn bit(word: u32, index: u32) -> bool {
    word & (1u32 << index) != 0
}

/// `word` with bit `index` set to `value` and every other bit kept.
pub open spec fn with_bit(word: u32, index: u32, value: bool) -> u32 {
    if value {
        word | (1u32 << index)
    } else {
        word & !(1u32 << index)
    }
}

/// Tests bit `index` of `word`.
pub fn test_bit(word: u32, index: u32) -> (set: bool)
    requires
        index < 32,
    ensures
        set == bit(word, index),
{
    word & (1u32 << index) != 0
}

/// Returns `word` with bit `index` set to `value`.
pub fn assign_bit(word: u32, index: u32, value: bool) -> (r: u32)
    requires
        index < 32,
    ensures
        r == with_bit(word, index, value),
{
    if value {
        word | (1u32 << index)
    } else {
        word & !(1u32 << index)
    }
}

/// Assigning one bit decides that bit and leaves the others alone.
pub proof fn lemma_with_bit(word: u32, index: u32, value: bool, other: u32)
    requires
        index < 32,
        other < 32,
    ensures
        bit(with_bit(word, index, value), other) == if index == other {
            value
        } else {
            bit(word, other)
        },
{
    assert((word | (1u32 << index)) & (1u32 << other) != 0 <==> (index == other || word & (1u32
        << other) != 0)) by (bit_vector)
        requires
            index < 32,
            other < 32,
    ;
    assert((word & !(1u32 << index)) & (1u32 << other) != 0 <==> (index != other && word & (1u32
        << other) != 0)) by (bit_vector)
        requires
            index < 32,
            other < 32,
    ;
}

} // verus!
