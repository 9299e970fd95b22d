//! Operations on a single bitmap word.
//!
//! A word holds 64 slots. Bit value 1 means the slot is taken, 0 means it is
//! free. Everything here is a pure function of its arguments, so these are the
//! places where the rules of the bitmap are stated exactly.

use vstd::prelude::*;
use vstd::std_specs::bits::axiom_u64_trailing_zeros;
use vstd::std_specs::bits::u64_trailing_zeros;

verus! {

/// Number of slots in one bitmap word.
pub const WORD_BITS: usize = 64;

/// The word in which every slot is taken.
pub const WORD_ALL_ONES: u64 = 0xffff_ffff_ffff_ffff;

/// Whether slot `bit` of `word` is taken. Positions past the word are never taken.
pub open spec fn bit_is_set(word: u64, bit: nat) -> bool {
    bit < 64 && (word >> (bit as u64)) & 1 == 1
}

/// `bit` is the lowest free slot of `word`: it is free and everything below it is taken.
pub open spec fn is_lowest_free(word: u64, bit: nat) -> bool {
    &&& bit < 64
    &&& !bit_is_set(word, bit)
    &&& forall|j: nat| j < bit ==> bit_is_set(word, j)
}

/// The position of the lowest free slot of `word`; 64 when every slot is taken.
pub open spec fn spec_lowest_free(word: u64) -> nat {
    u64_trailing_zeros(!word) as nat
}

/// A word that is not full has a lowest free slot, and `spec_lowest_free` is it.
pub proof fn lemma_lowest_free(word: u64)
    ensures
        word == WORD_ALL_ONES <==> spec_lowest_free(word) == 64,
        word != WORD_ALL_ONES ==> is_lowest_free(word, spec_lowest_free(word)),
        forall|bit: nat| is_lowest_free(word, bit) ==> bit == spec_lowest_free(word),
{
    let inverted: u64 = !word;
    axiom_u64_trailing_zeros(inverted);
    assert(inverted == 0 <==> word == 0xffff_ffff_ffff_ffffu64) by (bit_vector)
        requires
            inverted == !word,
    ;
    let low = spec_lowest_free(word);
    assert forall|j: nat| j < low implies bit_is_set(word, j) by {
        let jj: u64 = j as u64;
        assert((inverted >> jj) & 1 == 0);
        assert((word >> jj) & 1 == 1) by (bit_vector)
            requires
                inverted == !word,
                jj < 64,
                (inverted >> jj) & 1 == 0,
        ;
    }
    if word != WORD_ALL_ONES {
        let b: u64 = low as u64;
        assert((word >> b) & 1 != 1) by (bit_vector)
            requires
                inverted == !word,
                b < 64,
                (inverted >> b) & 1 == 1,
        ;
    }
    assert forall|bit: nat| is_lowest_free(word, bit) implies bit == low by {
        if bit < low {
            assert(bit_is_set(word, bit));
        } else if low < bit {
            assert(bit_is_set(word, low));
        }
    }
}

/// Reads slot `bit` of `word`.
pub fn test_bit(word: u64, bit: usize) -> (r: bool)
    requires
        bit < WORD_BITS,
    ensures
        r == bit_is_set(word, bit as nat),
{
    (word >> bit) & 1 == 1
}

/// The lowest free slot of `word`, or `None` when every slot is taken.
pub fn lowest_free(word: u64) -> (r: Option<u32>)
    ensures
        r is None <==> word == WORD_ALL_ONES,
        r matches Some(bit) ==> bit == spec_lowest_free(word) && is_lowest_free(word, bit as nat),
{
    proof {
        lemma_lowest_free(word);
    }
    if word == WORD_ALL_ONES {
        None
    } else {
        Some((!word).trailing_zeros())
    }
}

/// `after` is `before` with slot `bit` taken and every other slot as it was.
pub open spec fn sets_only(before: u64, after: u64, bit: nat) -> bool {
    forall|j: nat| j < 64 ==> (#[trigger] bit_is_set(after, j) <==> j == bit || bit_is_set(before, j))
}

/// `after` is `before` with slot `bit` free and every other slot as it was.
pub open spec fn clears_only(before: u64, after: u64, bit: nat) -> bool {
    forall|j: nat| j < 64 ==> (#[trigger] bit_is_set(after, j) <==> j != bit && bit_is_set(before, j))
}

/// The word `word` with slot `bit` taken.
pub open spec fn spec_with_bit_set(word: u64, bit: nat) -> u64 {
    word | (1u64 << (bit as u64))
}

/// The word `word` with slot `bit` free.
pub open spec fn spec_with_bit_cleared(word: u64, bit: nat) -> u64 {
    word & !(1u64 << (bit as u64))
}

/// Setting a bit with `|` takes that slot and touches no other.
pub proof fn lemma_with_bit_set(word: u64, bit: nat)
    requires
        bit < 64,
    ensures
        sets_only(word, spec_with_bit_set(word, bit), bit),
{
    let b: u64 = bit as u64;
    let after = spec_with_bit_set(word, bit);
    assert forall|j: nat| j < 64 implies (#[trigger] bit_is_set(after, j) <==> j == bit
        || bit_is_set(word, j)) by {
        let jj: u64 = j as u64;
        assert(((word | (1u64 << b)) >> jj) & 1 == 1 <==> jj == b || (word >> jj) & 1 == 1)
            by (bit_vector)
            requires
                jj < 64,
                b < 64,
        ;
    }
}

/// Clearing a bit with `& !` frees that slot and touches no other.
pub proof fn lemma_with_bit_cleared(word: u64, bit: nat)
    requires
        bit < 64,
    ensures
        clears_only(word, spec_with_bit_cleared(word, bit), bit),
{
    let b: u64 = bit as u64;
    let after = spec_with_bit_cleared(word, bit);
    assert forall|j: nat| j < 64 implies (#[trigger] bit_is_set(after, j) <==> j != bit
        && bit_is_set(word, j)) by {
        let jj: u64 = j as u64;
        assert(((word & !(1u64 << b)) >> jj) & 1 == 1 <==> jj != b && (word >> jj) & 1 == 1)
            by (bit_vector)
            requires
                jj < 64,
                b < 64,
        ;
    }
}

/// Takes slot `bit` of `word`.
pub fn with_bit_set(word: u64, bit: usize) -> (r: u64)
    requires
        bit < WORD_BITS,
    ensures
        r == spec_with_bit_set(word, bit as nat),
        sets_only(word, r, bit as nat),
{
    proof {
        lemma_with_bit_set(word, bit as nat);
    }
    word | (1u64 << bit)
}

/// Frees slot `bit` of `word`.
pub fn with_bit_cleared(word: u64, bit: usize) -> (r: u64)
    requires
        bit < WORD_BITS,
    ensures
        r == spec_with_bit_cleared(word, bit as nat),
        clears_only(word, r, bit as nat),
{
    proof {
        lemma_with_bit_cleared(word, bit as nat);
    }
    word & !(1u64 << bit)
}

} // verus!
