//! The atomic cells of the allocator: bitmap words, the search hint and the
//! statistics counters.
//!
//! Other threads may change a cell between any two operations, so nothing
//! here speaks of what a cell holds "now". What is known is what one atomic
//! operation observed, and what it put in place of it.

use std::sync::atomic::AtomicU64;
use std::sync::atomic::AtomicUsize;
use std::sync::atomic::Ordering;
use vstd::prelude::*;
use crate::word::lowest_free;
use crate::word::spec_lowest_free;
use crate::word::spec_with_bit_cleared;
use crate::word::spec_with_bit_set;
use crate::word::with_bit_cleared;
use crate::word::with_bit_set;
use crate::word::WORD_ALL_ONES;

verus! {

/// One atomic change to a bitmap word.
#[derive(Clone, Copy, Debug, PartialEq, Eq)]
pub enum WordUpdate {
    /// Take the lowest free slot of the word.
    Claim,
    /// Free the slot at this position of the word.
    Release(usize),
}

impl WordUpdate {
    /// A release names a position inside the word.
    pub open spec fn valid(self) -> bool {
        match self {
            WordUpdate::Claim => true,
            WordUpdate::Release(bit) => bit < 64,
        }
    }

    /// The word that replaces `word`, or `None` where the update leaves the
    /// word alone: a claim on a full word.
    pub open spec fn spec_apply(self, word: u64) -> Option<u64> {
        match self {
            WordUpdate::Claim => if word == WORD_ALL_ONES {
                None
            } else {
                Some(spec_with_bit_set(word, spec_lowest_free(word)))
            },
            WordUpdate::Release(bit) => Some(spec_with_bit_cleared(word, bit as nat)),
        }
    }

    /// Computes the word that replaces `word` under this update.
    pub fn apply(self, word: u64) -> (r: Option<u64>)
        requires
            self.valid(),
        ensures
            r == self.spec_apply(word),
    {
        match self {
            WordUpdate::Claim => match lowest_free(word) {
                Some(bit) => Some(with_bit_set(word, bit as usize)),
                None => None,
            },
            WordUpdate::Release(bit) => Some(with_bit_cleared(word, bit)),
        }
    }
}

/// A bitmap word with every slot free.
pub(crate) fn new_word() -> AtomicU64 {
    AtomicU64::new(0)
}

/// A statistics counter at zero.
pub(crate) fn new_counter() -> AtomicU64 {
    AtomicU64::new(0)
}

/// A search hint that points at the first word.
pub(crate) fn new_hint() -> AtomicUsize {
    AtomicUsize::new(0)
}

/// Reads a bitmap word, sequentially consistent.
pub(crate) fn load_word(cell: &AtomicU64) -> u64 {
    cell.load(Ordering::SeqCst)
}

/// Applies `update` to a bitmap word in one atomic step, retrying while other
/// threads get in between.
///
/// Calls `AtomicU64::fetch_update` with sequentially consistent orderings and
/// `update.apply` as the function. As std documents it, the result is
/// `Ok(previous)` when the function gave a new word for `previous`, which was
/// then stored in its place, and `Err(previous)` when it gave none and the
/// word was left alone. The contract claims exactly that much.
#[verifier::external_body]
pub(crate) fn update_word(cell: &AtomicU64, update: WordUpdate) -> (r: Result<u64, u64>)
    requires
        update.valid(),
    ensures
        r matches Ok(previous) ==> update.spec_apply(previous) is Some,
        r matches Err(previous) ==> update.spec_apply(previous) is None,
{
    cell.fetch_update(Ordering::SeqCst, Ordering::SeqCst, |word| update.apply(word))
}

/// Reads the search hint.
pub(crate) fn load_hint(hint: &AtomicUsize) -> usize {
    hint.load(Ordering::SeqCst)
}

/// Moves the hint from `from` to `to` if it still reads `from`. When another
/// thread moved it meanwhile, the hint stays as that thread left it.
pub(crate) fn advance_hint(hint: &AtomicUsize, from: usize, to: usize) {
    let _ = hint.compare_exchange(from, to, Ordering::Relaxed, Ordering::Relaxed);
}

/// Lowers the hint to `word` if it points past it.
pub(crate) fn retreat_hint(hint: &AtomicUsize, word: usize) {
    let _ = hint.fetch_min(word, Ordering::Relaxed);
}

/// Adds one to a statistics counter. The counter wraps at the end of its range.
pub(crate) fn tally(counter: &AtomicU64) {
    let _ = counter.fetch_add(1, Ordering::Relaxed);
}

/// Reads a statistics counter.
pub(crate) fn read_counter(counter: &AtomicU64) -> u64 {
    counter.load(Ordering::Relaxed)
}

} // verus!
