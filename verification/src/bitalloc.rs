//! The allocator itself: a vector of atomic bitmap words, a shared search
//! hint, and two statistics counters.

use std::sync::atomic::AtomicU64;
use std::sync::atomic::AtomicUsize;
use vstd::prelude::*;
use crate::cell::advance_hint;
use crate::cell::load_hint;
use crate::cell::load_word;
use crate::cell::new_counter;
use crate::cell::new_hint;
use crate::cell::new_word;
use crate::cell::read_counter;
use crate::cell::retreat_hint;
use crate::cell::tally;
use crate::cell::update_word;
use crate::cell::WordUpdate;
use crate::word::bit_is_set;
use crate::word::is_lowest_free;
use crate::word::lemma_lowest_free;
use crate::word::lowest_free;
use crate::word::spec_lowest_free;
use crate::word::test_bit;
use crate::word::WORD_ALL_ONES;
use crate::word::WORD_BITS;

verus! {

/// Why a request was turned down.
#[derive(Clone, Copy, Debug, PartialEq, Eq)]
pub enum BitAllocError {
    /// The index lies at or past the end of the bitmap.
    IndexOutOfRange,
}

impl BitAllocError {
    /// The error in words.
    pub fn message(self) -> (r: &'static str)
        ensures
            r@ == "Bitalloc clear_bit index out of range."@,
    {
        match self {
            BitAllocError::IndexOutOfRange => "Bitalloc clear_bit index out of range.",
        }
    }
}

/// The number of whole words needed to hold `bits` slots.
pub open spec fn words_for(bits: nat) -> nat {
    (bits + 63) / 64
}

/// The global index of slot `bit` in word `word`.
pub open spec fn spec_bit_index(word: nat, bit: nat) -> nat {
    word * 64 + bit
}

/// The index of the slot that a successful claim took: `previous` is the word
/// as the claim found it, at position `word` of the bitmap, and the slot taken
/// is its lowest free one.
pub fn claimed_index(word: usize, previous: u64) -> (r: usize)
    requires
        previous != WORD_ALL_ONES,
        word * 64 + 63 <= usize::MAX,
    ensures
        r == spec_bit_index(word as nat, spec_lowest_free(previous)),
        is_lowest_free(previous, (r - word * 64) as nat),
        word * 64 <= r < word * 64 + 64,
{
    proof {
        lemma_lowest_free(previous);
    }
    match lowest_free(previous) {
        Some(bit) => word * WORD_BITS + bit as usize,
        None => word * WORD_BITS,
    }
}

/// What one scan for a free slot met: the word index at which it started
/// and, in order, the words it examined, each as the claim on it found it.
pub struct Scan {
    /// The search hint as the scan read it.
    pub start: nat,
    /// The words examined, from `start` on.
    pub seen: Seq<u64>,
}

impl Scan {
    /// The scan went on only past full words: every word but the last it
    /// examined was full.
    pub open spec fn passed_only_full_words(self) -> bool {
        forall|k: int| 0 <= k < self.seen.len() - 1 ==> self.seen[k] == WORD_ALL_ONES
    }

    /// The slot that the scan claimed: the lowest free slot of the last word
    /// it examined, unless that word was full too or it examined none.
    pub open spec fn claimed(self) -> Option<nat> {
        if self.seen.len() > 0 && self.seen.last() != WORD_ALL_ONES {
            Some(
                spec_bit_index(
                    (self.start + self.seen.len() - 1) as nat,
                    spec_lowest_free(self.seen.last()),
                ),
            )
        } else {
            None
        }
    }
}

/// A fixed-capacity bitmap of slots that any number of threads may claim and
/// release at once. Capacity is fixed when the allocator is made.
pub struct BitAlloc {
    /// Index of the word at which the next scan for a free slot starts.
    search_pos: AtomicUsize,
    /// The bitmap.
    b: Vec<AtomicU64>,
    /// Statistics: calls of `alloc_bit`.
    alloc_count: AtomicU64,
    /// Statistics: words examined by those calls.
    search_count: AtomicU64,
}

impl BitAlloc {
    /// Every slot index fits the machine's index type.
    #[verifier::type_invariant]
    spec fn addressable(&self) -> bool {
        self.b@.len() * 64 <= usize::MAX
    }

    /// Number of words in the bitmap.
    pub closed spec fn word_count(&self) -> nat {
        self.b@.len()
    }

    /// Number of slots in the bitmap: 64 for each word.
    pub open spec fn capacity(&self) -> nat {
        self.word_count() * 64
    }

    /// Which word and which position in it hold slot `index`.
    pub fn word_bit(index: usize) -> (r: (usize, usize))
        ensures
            r.0 == index / 64,
            r.1 == index % 64,
            index == spec_bit_index(r.0 as nat, r.1 as nat),
    {
        (index / WORD_BITS, index % WORD_BITS)
    }

    /// An allocator with room for at least `size` slots, all of them free:
    /// `size` rounded up to whole words.
    pub fn new(size: usize) -> (r: Self)
        requires
            size + 63 <= usize::MAX,
        ensures
            r.word_count() == words_for(size as nat),
            size <= r.capacity() < size + 64,
    {
        let word_count: usize = (size + (WORD_BITS - 1)) / WORD_BITS;
        let mut b: Vec<AtomicU64> = Vec::new();
        while b.len() < word_count
            invariant
                b@.len() <= word_count,
            decreases word_count - b@.len(),
        {
            b.push(new_word());
        }
        BitAlloc { search_pos: new_hint(), b, alloc_count: new_counter(), search_count: new_counter() }
    }

    /// Length, in slots.
    pub fn len(&self) -> (r: usize)
        ensures
            r == self.capacity(),
    {
        proof {
            use_type_invariant(self);
        }
        self.b.len() * WORD_BITS
    }

    /// Reads one slot. An index past the end reads as free.
    ///
    /// The answer is what one atomic read of the slot's word saw; other
    /// threads may have changed the word since.
    pub fn get_bit(&self, ix: usize) -> (r: bool)
        ensures
            ix >= self.capacity() ==> !r,
    {
        self.get_bit_observed(ix).0
    }

    /// Reads one slot, and tells which word value the answer was read from:
    /// the slot's word as one atomic read saw it, or `None` for an index past
    /// the end. The answer is that slot of that word.
    pub fn get_bit_observed(&self, ix: usize) -> (r: (bool, Ghost<Option<u64>>))
        ensures
            r.1@ is Some <==> ix < self.capacity(),
            r.0 == (r.1@ matches Some(seen) && bit_is_set(seen, (ix % 64) as nat)),
    {
        let (word, bit) = Self::word_bit(ix);
        if word < self.b.len() {
            let seen: u64 = load_word(&self.b[word]);
            (test_bit(seen, bit), Ghost(Some(seen)))
        } else {
            (false, Ghost(None))
        }
    }

    /// Frees one slot. Fails, and changes nothing, exactly when `ix` lies
    /// past the end. Freeing a slot that is already free succeeds.
    pub fn clear_bit(&self, ix: usize) -> (r: Result<(), BitAllocError>)
        ensures
            r is Err <==> ix >= self.capacity(),
            r is Err ==> r == Err::<(), BitAllocError>(BitAllocError::IndexOutOfRange),
    {
        let (word, bit) = Self::word_bit(ix);
        if word < self.b.len() {
            let _ = update_word(&self.b[word], WordUpdate::Release(bit));
            retreat_hint(&self.search_pos, word);
            Ok(())
        } else {
            Err(BitAllocError::IndexOutOfRange)
        }
    }

    /// Claims one free slot and returns its index, or `None` when the scan
    /// from the search hint to the end of the bitmap found every word full.
    pub fn alloc_bit(&self) -> (r: Option<usize>)
        ensures
            r matches Some(ix) ==> ix < self.capacity(),
    {
        self.alloc_bit_observed().0
    }

    /// Claims one free slot as `alloc_bit` does, and tells what the scan met.
    ///
    /// The scan starts at the search hint and takes the words in increasing
    /// order. On each it tries one atomic claim; a full word sends it on to
    /// the next. It returns the lowest free slot of the first word that was
    /// not full when the claim reached it, and `None` only after it has
    /// examined every word from the hint to the end.
    pub fn alloc_bit_observed(&self) -> (r: (Option<usize>, Ghost<Scan>))
        ensures
            r.1@.passed_only_full_words(),
            r.0 is Some <==> r.1@.claimed() is Some,
            r.0 matches Some(ix) ==> r.1@.claimed() == Some(ix as nat) && ix < self.capacity(),
            r.1@.start + r.1@.seen.len() <= self.word_count() || r.1@.seen.len() == 0,
            r.0 is None ==> r.1@.start + r.1@.seen.len() >= self.word_count(),
    {
        proof {
            use_type_invariant(self);
        }
        tally(&self.alloc_count);
        let start_pos: usize = load_hint(&self.search_pos);
        let words: usize = self.b.len();
        let mut word: usize = start_pos;
        let ghost mut seen: Seq<u64> = Seq::empty();
        while word < words
            invariant
                words == self.b@.len(),
                words * 64 <= usize::MAX,
                start_pos <= word,
                word <= words || word == start_pos,
                seen.len() == word - start_pos,
                forall|k: int| 0 <= k < seen.len() ==> seen[k] == WORD_ALL_ONES,
            decreases words - word,
        {
            tally(&self.search_count);
            match update_word(&self.b[word], WordUpdate::Claim) {
                Ok(previous) => {
                    advance_hint(&self.search_pos, start_pos, word);
                    proof {
                        seen = seen.push(previous);
                    }
                    return (
                        Some(claimed_index(word, previous)),
                        Ghost(Scan { start: start_pos as nat, seen }),
                    );
                },
                Err(previous) => {
                    proof {
                        seen = seen.push(previous);
                    }
                },
            }
            word = word + 1;
        }
        (None, Ghost(Scan { start: start_pos as nat, seen }))
    }

    /// Statistics: how many times `alloc_bit` was called.
    pub fn alloc_count(&self) -> u64 {
        read_counter(&self.alloc_count)
    }

    /// Statistics: how many words those calls examined.
    pub fn search_count(&self) -> u64 {
        read_counter(&self.search_count)
    }
}

} // verus!
