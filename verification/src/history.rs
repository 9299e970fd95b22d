//! What holds when many callers use the allocator at once.
//!
//! Every change to a bitmap word is one atomic update, so however the callers
//! interleave, the updates to the bitmap happen in some order, one after the
//! other. This module takes any such order and shows that no slot is handed
//! out twice: between two claims that return the same slot lies a release of
//! that slot. The search hint plays no part in this.
//!
//! What the hint promises a single caller, that a scan from it misses no
//! free slot, it does not promise here. A release may land between a scan's
//! pass over a word and the same scan's move of the hint; the hint then
//! stands past a free slot, and that slot waits until a later release moves
//! the hint back.

use vstd::prelude::*;
use crate::bitalloc::spec_bit_index;
use crate::cell::WordUpdate;
use crate::word::bit_is_set;
use crate::word::lemma_lowest_free;
use crate::word::lemma_with_bit_cleared;
use crate::word::lemma_with_bit_set;
use crate::word::spec_lowest_free;
use crate::word::WORD_ALL_ONES;

verus! {

/// Whether slot `ix` is taken in a bitmap of these words. Slots past the end
/// are never taken.
pub open spec fn slot_taken(words: Seq<u64>, ix: nat) -> bool {
    ix < words.len() * 64 && bit_is_set(words[(ix / 64) as int], ix % 64)
}

/// One atomic update of one bitmap word.
pub struct Step {
    /// Index of the word.
    pub word: nat,
    /// What is done to it.
    pub update: WordUpdate,
}

impl Step {
    /// The bitmap after this step. A step on a word outside the bitmap, and
    /// a claim on a full word, change nothing.
    pub open spec fn after(self, words: Seq<u64>) -> Seq<u64> {
        if self.word < words.len() {
            match self.update.spec_apply(words[self.word as int]) {
                Some(replaced) => words.update(self.word as int, replaced),
                None => words,
            }
        } else {
            words
        }
    }

    /// The slot that this step hands out when it meets the bitmap `words`:
    /// for a claim on a word that is not full, the lowest free slot of that
    /// word.
    pub open spec fn claims(self, words: Seq<u64>) -> Option<nat> {
        if self.update == WordUpdate::Claim && self.word < words.len() && words[self.word as int]
            != WORD_ALL_ONES {
            Some(spec_bit_index(self.word, spec_lowest_free(words[self.word as int])))
        } else {
            None
        }
    }

    /// The slot that this step releases, if it is a release.
    pub open spec fn releases(self) -> Option<nat> {
        match self.update {
            WordUpdate::Release(bit) => Some(spec_bit_index(self.word, bit as nat)),
            WordUpdate::Claim => None,
        }
    }
}

/// Every release in `steps` names a position inside its word.
pub open spec fn all_valid(steps: Seq<Step>) -> bool {
    forall|k: int| 0 <= k < steps.len() ==> (#[trigger] steps[k]).update.valid()
}

/// The bitmap after the first `done` steps of `steps`, starting from `start`.
pub open spec fn state_after(start: Seq<u64>, steps: Seq<Step>, done: nat) -> Seq<u64>
    decreases done,
{
    if done == 0 {
        start
    } else {
        steps[done - 1].after(state_after(start, steps, (done - 1) as nat))
    }
}

/// No step changes the number of words.
pub proof fn lemma_length_kept(start: Seq<u64>, steps: Seq<Step>, done: nat)
    ensures
        state_after(start, steps, done).len() == start.len(),
    decreases done,
{
    if done > 0 {
        lemma_length_kept(start, steps, (done - 1) as nat);
    }
}

/// A step that claims slot `ix` finds it free and leaves it taken.
pub proof fn lemma_claim_takes_free_slot(step: Step, words: Seq<u64>, ix: nat)
    requires
        step.claims(words) == Some(ix),
    ensures
        !slot_taken(words, ix),
        slot_taken(step.after(words), ix),
{
    let word = words[step.word as int];
    let low = spec_lowest_free(word);
    lemma_lowest_free(word);
    lemma_with_bit_set(word, low);
    assert(ix / 64 == step.word && ix % 64 == low);
    assert(bit_is_set(step.after(words)[step.word as int], low));
}

/// Only a release of slot `ix` can free slot `ix`.
pub proof fn lemma_only_release_frees(step: Step, words: Seq<u64>, ix: nat)
    requires
        step.update.valid(),
        slot_taken(words, ix),
        step.releases() != Some(ix),
    ensures
        slot_taken(step.after(words), ix),
{
    if step.word < words.len() && step.word == ix / 64 {
        let word = words[step.word as int];
        match step.update {
            WordUpdate::Claim => {
                if word != WORD_ALL_ONES {
                    lemma_lowest_free(word);
                    lemma_with_bit_set(word, spec_lowest_free(word));
                    assert(bit_is_set(step.after(words)[step.word as int], ix % 64));
                }
            },
            WordUpdate::Release(bit) => {
                lemma_with_bit_cleared(word, bit as nat);
                assert(bit as nat != ix % 64);
                assert(bit_is_set(step.after(words)[step.word as int], ix % 64));
            },
        }
    }
}

/// A taken slot stays taken until a step releases it.
pub proof fn lemma_taken_until_released(
    start: Seq<u64>,
    steps: Seq<Step>,
    ix: nat,
    from: nat,
    to: nat,
)
    requires
        all_valid(steps),
        from <= to <= steps.len(),
        slot_taken(state_after(start, steps, from), ix),
        forall|k: int| from <= k < to ==> (#[trigger] steps[k]).releases() != Some(ix),
    ensures
        slot_taken(state_after(start, steps, to), ix),
    decreases to - from,
{
    if from < to {
        lemma_taken_until_released(start, steps, ix, from, (to - 1) as nat);
        lemma_only_release_frees(steps[to - 1], state_after(start, steps, (to - 1) as nat), ix);
    }
}

/// No slot is handed out twice. In any order of atomic updates, if step
/// `first` and a later step `second` both claim slot `ix`, some step between
/// them released `ix`.
pub proof fn lemma_no_double_allocation(
    start: Seq<u64>,
    steps: Seq<Step>,
    first: nat,
    second: nat,
    ix: nat,
)
    requires
        all_valid(steps),
        first < second < steps.len(),
        steps[first as int].claims(state_after(start, steps, first)) == Some(ix),
        steps[second as int].claims(state_after(start, steps, second)) == Some(ix),
    ensures
        exists|between: int|
            first < between < second && (#[trigger] steps[between]).releases() == Some(ix),
{
    lemma_claim_takes_free_slot(steps[first as int], state_after(start, steps, first), ix);
    lemma_claim_takes_free_slot(steps[second as int], state_after(start, steps, second), ix);
    assert(state_after(start, steps, first + 1) == steps[first as int].after(
        state_after(start, steps, first),
    ));
    if forall|k: int| first + 1 <= k < second ==> (#[trigger] steps[k]).releases() != Some(ix) {
        lemma_taken_until_released(start, steps, ix, first + 1, second);
    }
}

} // verus!
