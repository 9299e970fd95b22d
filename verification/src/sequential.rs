//! What the allocator does when one caller at a time uses it.
//!
//! The bitmap is a sequence of words and the search hint a word index. An
//! allocation or a release by a single caller, with nobody in between, is a
//! function from one such state to the next, made of the same atomic steps
//! that the allocator performs. The theorems of this module are about those
//! functions: the hint never passes a free slot, an allocation takes the
//! lowest free slot, a bitmap of `N` slots serves exactly `N` allocations, a
//! released slot comes back, and a run of allocations examines hardly more
//! words than it takes slots.
//!
//! The last theorems tie the allocator's own operations to this account:
//! when what an operation read is what the state held, it returns what the
//! state says.

use vstd::prelude::*;
use crate::bitalloc::spec_bit_index;
use crate::bitalloc::Scan;
use crate::cell::WordUpdate;
use crate::history::slot_taken;
use crate::history::Step;
use crate::word::bit_is_set;
use crate::word::lemma_lowest_free;
use crate::word::lemma_with_bit_cleared;
use crate::word::lemma_with_bit_set;
use crate::word::spec_lowest_free;
use crate::word::WORD_ALL_ONES;

verus! {

/// The shared state of an allocator at one moment.
pub struct Bitmap {
    /// The bitmap words, in order.
    pub words: Seq<u64>,
    /// The word index at which the next scan starts.
    pub hint: nat,
}

impl Bitmap {
    /// A bitmap of `words` words with every slot free and the hint at the start.
    pub open spec fn fresh(words: nat) -> Bitmap {
        Bitmap { words: Seq::new(words, |i: int| 0u64), hint: 0 }
    }

    /// Number of slots.
    pub open spec fn capacity(self) -> nat {
        self.words.len() * 64
    }

    /// Whether slot `ix` is taken. Slots past the end are never taken.
    pub open spec fn bit(self, ix: nat) -> bool {
        slot_taken(self.words, ix)
    }

    /// Every slot is taken.
    pub open spec fn saturated(self) -> bool {
        forall|ix: nat| ix < self.capacity() ==> self.bit(ix)
    }

    /// The hint is at or before the word of every free slot: all words before
    /// it are full.
    pub open spec fn hint_sound(self) -> bool {
        &&& self.hint <= self.words.len()
        &&& forall|w: int| 0 <= w < self.hint ==> self.words[w] == WORD_ALL_ONES
    }

    /// The first word at or after `from` that has a free slot, or the number
    /// of words when there is none.
    pub open spec fn first_open(self, from: nat) -> nat
        decreases self.words.len() - from,
    {
        if from >= self.words.len() {
            self.words.len()
        } else if self.words[from as int] != WORD_ALL_ONES {
            from
        } else {
            self.first_open(from + 1)
        }
    }

    /// What an allocation returns: the lowest free slot of the first word at
    /// or after the hint that has one.
    pub open spec fn alloc_result(self) -> Option<nat> {
        let w = self.first_open(self.hint);
        if w < self.words.len() {
            Some(spec_bit_index(w, spec_lowest_free(self.words[w as int])))
        } else {
            None
        }
    }

    /// The state after an allocation: one atomic claim on the first open
    /// word, after which the hint stands at that word. A failed allocation
    /// changes nothing.
    pub open spec fn after_alloc(self) -> Bitmap {
        let w = self.first_open(self.hint);
        if w < self.words.len() {
            Bitmap { words: Step { word: w, update: WordUpdate::Claim }.after(self.words), hint: w }
        } else {
            self
        }
    }

    /// How many words an allocation examines: from the hint to the word it
    /// claims in, or to the end.
    pub open spec fn words_examined(self) -> nat {
        let w = self.first_open(self.hint);
        if w < self.words.len() {
            (w - self.hint + 1) as nat
        } else {
            (self.words.len() - self.hint) as nat
        }
    }

    /// The state after releasing slot `ix`: one atomic release on its word,
    /// after which the hint is no later than that word. Out of range, nothing
    /// changes.
    pub open spec fn after_clear(self, ix: nat) -> Bitmap {
        if ix < self.capacity() {
            let w = ix / 64;
            Bitmap {
                words: Step { word: w, update: WordUpdate::Release((ix % 64) as usize) }.after(
                    self.words,
                ),
                hint: if w < self.hint {
                    w
                } else {
                    self.hint
                },
            }
        } else {
            self
        }
    }

    /// The state after `count` allocations in a row.
    pub open spec fn after_allocs(self, count: nat) -> Bitmap
        decreases count,
    {
        if count == 0 {
            self
        } else {
            self.after_allocs((count - 1) as nat).after_alloc()
        }
    }

    /// How many words `count` allocations in a row examine in all.
    pub open spec fn words_examined_by(self, count: nat) -> nat
        decreases count,
    {
        if count == 0 {
            0
        } else {
            self.words_examined_by((count - 1) as nat) + self.after_allocs(
                (count - 1) as nat,
            ).words_examined()
        }
    }
}

/// Where `first_open` lands: nothing between `from` and it has a free slot,
/// and it has one unless it is the end.
pub proof fn lemma_first_open(s: Bitmap, from: nat)
    requires
        from <= s.words.len(),
    ensures
        from <= s.first_open(from) <= s.words.len(),
        forall|w: int| from <= w < s.first_open(from) ==> s.words[w] == WORD_ALL_ONES,
        s.first_open(from) < s.words.len() ==> s.words[s.first_open(from) as int] != WORD_ALL_ONES,
    decreases s.words.len() - from,
{
    if from < s.words.len() && s.words[from as int] == WORD_ALL_ONES {
        lemma_first_open(s, from + 1);
    }
}

/// A full word has every slot taken, and only a full word has.
pub proof fn lemma_full_word(word: u64)
    ensures
        word == WORD_ALL_ONES <==> (forall|j: nat| j < 64 ==> bit_is_set(word, j)),
{
    lemma_lowest_free(word);
    if word == WORD_ALL_ONES {
        assert forall|j: nat| j < 64 implies bit_is_set(word, j) by {
            let jj: u64 = j as u64;
            assert((0xffff_ffff_ffff_ffffu64 >> jj) & 1 == 1) by (bit_vector)
                requires
                    jj < 64,
            ;
        }
    } else {
        assert(!bit_is_set(word, spec_lowest_free(word)));
    }
}

/// A fresh bitmap has the capacity it was made with, no slot taken, and a
/// sound hint.
pub proof fn lemma_fresh(words: nat)
    ensures
        Bitmap::fresh(words).capacity() == words * 64,
        Bitmap::fresh(words).hint_sound(),
        forall|ix: nat| !Bitmap::fresh(words).bit(ix),
{
    let s = Bitmap::fresh(words);
    assert forall|ix: nat| !s.bit(ix) by {
        if ix < s.capacity() {
            let j: u64 = (ix % 64) as u64;
            assert(s.words[(ix / 64) as int] == 0u64);
            assert((0u64 >> j) & 1 != 1) by (bit_vector);
        }
    }
}

/// An allocation that finds a slot takes a free one inside the bitmap, the
/// lowest free slot of its word, and changes no other slot.
pub proof fn lemma_alloc_takes_free_slot(s: Bitmap)
    requires
        s.hint <= s.words.len(),
        s.alloc_result() is Some,
    ensures
        s.alloc_result().unwrap() < s.capacity(),
        !s.bit(s.alloc_result().unwrap()),
        s.after_alloc().bit(s.alloc_result().unwrap()),
        forall|ix: nat| ix != s.alloc_result().unwrap() ==> (s.after_alloc().bit(ix) <==> s.bit(ix)),
        s.after_alloc().words.len() == s.words.len(),
{
    lemma_first_open(s, s.hint);
    let w = s.first_open(s.hint);
    let word = s.words[w as int];
    let low = spec_lowest_free(word);
    let got = s.alloc_result().unwrap();
    let t = s.after_alloc();
    lemma_lowest_free(word);
    lemma_with_bit_set(word, low);
    assert(got == w * 64 + low);
    assert(got / 64 == w && got % 64 == low);
    assert forall|ix: nat| ix != got implies (t.bit(ix) <==> s.bit(ix)) by {
        if ix < s.capacity() {
            if ix / 64 == w {
                assert(ix % 64 != low);
                assert(bit_is_set(t.words[w as int], ix % 64) <==> bit_is_set(word, ix % 64));
            }
        }
    }
    assert(bit_is_set(t.words[w as int], low));
}

/// With a sound hint, an allocation takes the lowest free slot of the whole
/// bitmap.
pub proof fn lemma_alloc_takes_lowest_free(s: Bitmap)
    requires
        s.hint_sound(),
        s.alloc_result() is Some,
    ensures
        forall|ix: nat| ix < s.alloc_result().unwrap() ==> s.bit(ix),
{
    lemma_first_open(s, s.hint);
    let w = s.first_open(s.hint);
    let word = s.words[w as int];
    let low = spec_lowest_free(word);
    let got = s.alloc_result().unwrap();
    lemma_lowest_free(word);
    assert forall|ix: nat| ix < got implies s.bit(ix) by {
        let v = ix / 64;
        if v < w {
            assert(s.words[v as int] == WORD_ALL_ONES);
            lemma_full_word(s.words[v as int]);
        } else {
            assert(v == w);
            assert(ix % 64 < low);
        }
    }
}

/// With a sound hint, an allocation fails exactly when every slot is taken.
pub proof fn lemma_alloc_fails_iff_saturated(s: Bitmap)
    requires
        s.hint_sound(),
    ensures
        s.alloc_result() is None <==> s.saturated(),
{
    lemma_first_open(s, s.hint);
    let w = s.first_open(s.hint);
    if s.alloc_result() is None {
        assert forall|ix: nat| ix < s.capacity() implies s.bit(ix) by {
            let v = ix / 64;
            assert(s.words[v as int] == WORD_ALL_ONES);
            lemma_full_word(s.words[v as int]);
        }
    } else {
        lemma_alloc_takes_free_slot(s);
        assert(!s.bit(s.alloc_result().unwrap()));
    }
}

/// An allocation leaves the hint sound.
pub proof fn lemma_alloc_keeps_hint_sound(s: Bitmap)
    requires
        s.hint_sound(),
    ensures
        s.after_alloc().hint_sound(),
        s.hint <= s.after_alloc().hint,
{
    lemma_first_open(s, s.hint);
}

/// A release frees its slot and changes no other; out of range it changes
/// nothing at all.
pub proof fn lemma_clear_frees_slot(s: Bitmap, ix: nat)
    ensures
        ix >= s.capacity() ==> s.after_clear(ix) == s,
        !s.after_clear(ix).bit(ix),
        forall|other: nat| other != ix ==> (s.after_clear(ix).bit(other) <==> s.bit(other)),
        s.after_clear(ix).words.len() == s.words.len(),
{
    if ix < s.capacity() {
        let w = ix / 64;
        let word = s.words[w as int];
        let t = s.after_clear(ix);
        lemma_with_bit_cleared(word, ix % 64);
        assert(!bit_is_set(t.words[w as int], ix % 64));
        assert forall|other: nat| other != ix implies (t.bit(other) <==> s.bit(other)) by {
            if other < s.capacity() && other / 64 == w {
                assert(other % 64 != ix % 64);
                assert(bit_is_set(t.words[w as int], other % 64) <==> bit_is_set(
                    word,
                    other % 64,
                ));
            }
        }
    }
}

/// A release leaves the hint sound: it moves the hint back to the word of
/// the freed slot when the hint had passed it.
pub proof fn lemma_clear_keeps_hint_sound(s: Bitmap, ix: nat)
    requires
        s.hint_sound(),
    ensures
        s.after_clear(ix).hint_sound(),
        ix < s.capacity() ==> s.after_clear(ix).hint <= ix / 64,
{
}

/// Allocations in a row leave the hint sound and the number of words as it was.
pub proof fn lemma_allocs_keep_hint_sound(s: Bitmap, count: nat)
    requires
        s.hint_sound(),
    ensures
        s.after_allocs(count).hint_sound(),
        s.after_allocs(count).words.len() == s.words.len(),
        s.hint <= s.after_allocs(count).hint,
    decreases count,
{
    if count > 0 {
        let before = s.after_allocs((count - 1) as nat);
        lemma_allocs_keep_hint_sound(s, (count - 1) as nat);
        lemma_alloc_keeps_hint_sound(before);
        lemma_first_open(before, before.hint);
    }
}

/// One allocation and then `count` more are `count + 1` allocations.
pub proof fn lemma_allocs_unfold_front(s: Bitmap, count: nat)
    ensures
        s.after_alloc().after_allocs(count) == s.after_allocs(count + 1),
    decreases count,
{
    if count > 0 {
        lemma_allocs_unfold_front(s, (count - 1) as nat);
        assert(s.after_allocs(count + 1) == s.after_allocs(count).after_alloc());
    } else {
        assert(s.after_allocs(1) == s.after_allocs(0).after_alloc());
    }
}

/// A fresh bitmap of `N` slots hands out the slots `0, 1, 2, ...` in that
/// order: after `count` allocations exactly the slots below `count` are
/// taken, the next allocation returns `count`, and once all `N` are taken the
/// next allocation fails. So exactly `N` allocations succeed.
pub proof fn lemma_fresh_serves_every_slot_once(words: nat, count: nat)
    requires
        count <= words * 64,
    ensures
        Bitmap::fresh(words).after_allocs(count).hint_sound(),
        Bitmap::fresh(words).after_allocs(count).capacity() == words * 64,
        forall|ix: nat| Bitmap::fresh(words).after_allocs(count).bit(ix) <==> ix < count,
        count < words * 64 ==> Bitmap::fresh(words).after_allocs(count).alloc_result() == Some(
            count,
        ),
        count == words * 64 ==> Bitmap::fresh(words).after_allocs(count).alloc_result() is None,
    decreases count,
{
    let start = Bitmap::fresh(words);
    let s = start.after_allocs(count);
    lemma_fresh(words);
    lemma_allocs_keep_hint_sound(start, count);
    if count == 0 {
        assert(s == start);
    } else {
        let before = start.after_allocs((count - 1) as nat);
        lemma_fresh_serves_every_slot_once(words, (count - 1) as nat);
        assert(before.alloc_result() == Some((count - 1) as nat));
        lemma_alloc_takes_free_slot(before);
        assert(s == before.after_alloc());
        assert forall|ix: nat| s.bit(ix) <==> ix < count by {
            if ix != count - 1 {
                assert(s.bit(ix) <==> before.bit(ix));
            }
        }
    }
    lemma_alloc_fails_iff_saturated(s);
    if count < words * 64 {
        assert(!s.bit(count));
        let got = s.alloc_result().unwrap();
        lemma_alloc_takes_free_slot(s);
        lemma_alloc_takes_lowest_free(s);
        if got < count {
            assert(s.bit(got));
        }
        if count < got {
            assert(s.bit(count));
        }
    } else {
        assert(s.saturated());
    }
}

/// A released slot is eligible again. Right after the release, an allocation
/// succeeds and returns a slot no higher than the released one; it returns
/// the released slot itself when nothing below it is free.
pub proof fn lemma_released_slot_is_eligible(s: Bitmap, ix: nat)
    requires
        s.hint_sound(),
        ix < s.capacity(),
    ensures
        s.after_clear(ix).alloc_result() is Some,
        s.after_clear(ix).alloc_result().unwrap() <= ix,
        (forall|below: nat| below < ix ==> s.bit(below)) ==> s.after_clear(ix).alloc_result()
            == Some(ix),
{
    let t = s.after_clear(ix);
    lemma_clear_frees_slot(s, ix);
    lemma_clear_keeps_hint_sound(s, ix);
    lemma_alloc_fails_iff_saturated(t);
    assert(!t.bit(ix));
    lemma_lowest_slot_bounds(t, ix);
    let got = t.alloc_result().unwrap();
    lemma_alloc_takes_free_slot(t);
    if forall|below: nat| below < ix ==> s.bit(below) {
        if got < ix {
            assert(s.bit(got));
            assert(t.bit(got));
        }
    }
}

/// While slot `ix` is free, an allocation succeeds and returns a slot no
/// higher than `ix`.
pub proof fn lemma_lowest_slot_bounds(s: Bitmap, ix: nat)
    requires
        s.hint_sound(),
        ix < s.capacity(),
        !s.bit(ix),
    ensures
        s.alloc_result() is Some,
        s.alloc_result().unwrap() <= ix,
{
    lemma_alloc_fails_iff_saturated(s);
    lemma_alloc_takes_lowest_free(s);
    if ix < s.alloc_result().unwrap() {
        assert(s.bit(ix));
    }
}

/// A free slot is handed out after the free slots below it: with slot `ix`
/// free, there is a number of allocations after which the next allocation
/// returns `ix`. The number is the result; it is at most the distance from
/// the slot that the first allocation returns to `ix`.
pub proof fn lemma_free_slot_is_reached(s: Bitmap, ix: nat) -> (count: nat)
    requires
        s.hint_sound(),
        ix < s.capacity(),
        !s.bit(ix),
    ensures
        s.alloc_result() is Some,
        count == 0 <==> s.alloc_result() == Some(ix),
        count + s.alloc_result().unwrap() <= ix,
        s.after_allocs(count).alloc_result() == Some(ix),
    decreases ix - s.alloc_result().unwrap(),
{
    lemma_lowest_slot_bounds(s, ix);
    let got = s.alloc_result().unwrap();
    if got == ix {
        0
    } else {
        let t = s.after_alloc();
        lemma_alloc_takes_free_slot(s);
        lemma_alloc_takes_lowest_free(s);
        lemma_alloc_keeps_hint_sound(s);
        assert(t.capacity() == s.capacity());
        assert(!t.bit(ix));
        lemma_lowest_slot_bounds(t, ix);
        lemma_alloc_takes_free_slot(t);
        let next = t.alloc_result().unwrap();
        if next < got {
            assert(s.bit(next));
            assert(t.bit(next));
        }
        assert(next != got);
        let rest = lemma_free_slot_is_reached(t, ix);
        lemma_allocs_unfold_front(s, rest);
        rest + 1
    }
}

/// Reuse after release: once slot `ix` is released, allocations hand it out
/// again, after the free slots below it. The result is the number of
/// allocations that come first; the one after them returns `ix`.
pub proof fn lemma_released_slot_comes_back(s: Bitmap, ix: nat) -> (count: nat)
    requires
        s.hint_sound(),
        ix < s.capacity(),
    ensures
        count <= ix,
        s.after_clear(ix).after_allocs(count).alloc_result() == Some(ix),
{
    lemma_clear_frees_slot(s, ix);
    lemma_clear_keeps_hint_sound(s, ix);
    lemma_free_slot_is_reached(s.after_clear(ix), ix)
}

/// The first `count` allocations from `s` all find a slot.
pub open spec fn allocs_succeed(s: Bitmap, count: nat) -> bool {
    forall|done: nat| done < count ==> (#[trigger] s.after_allocs(done)).alloc_result() is Some
}

/// A run of successful allocations with no release in between examines one
/// word for each allocation, plus one for each word that the hint moves
/// forward. However long the run, the surplus over one word per allocation
/// is less than the number of words in the bitmap.
pub proof fn lemma_scan_cost(s: Bitmap, count: nat)
    requires
        s.hint_sound(),
        allocs_succeed(s, count),
    ensures
        s.words_examined_by(count) == count + s.after_allocs(count).hint - s.hint,
        count > 0 ==> s.words_examined_by(count) < count + s.words.len(),
        s.words_examined_by(count) <= count + s.words.len(),
    decreases count,
{
    lemma_allocs_keep_hint_sound(s, count);
    if count > 0 {
        let before = s.after_allocs((count - 1) as nat);
        assert(allocs_succeed(s, (count - 1) as nat));
        lemma_scan_cost(s, (count - 1) as nat);
        lemma_allocs_keep_hint_sound(s, (count - 1) as nat);
        assert(before.alloc_result() is Some);
        lemma_first_open(before, before.hint);
    }
}

/// Filling a fresh bitmap slot by slot examines fewer than eleven words for
/// every ten allocations.
pub proof fn lemma_fill_cost(words: nat)
    requires
        words > 0,
    ensures
        allocs_succeed(Bitmap::fresh(words), words * 64),
        10 * Bitmap::fresh(words).words_examined_by(words * 64) < 11 * (words * 64),
{
    let start = Bitmap::fresh(words);
    lemma_fresh(words);
    assert forall|done: nat| done < words * 64 implies (#[trigger] start.after_allocs(
        done,
    )).alloc_result() is Some by {
        lemma_fresh_serves_every_slot_once(words, done);
    }
    lemma_scan_cost(start, words * 64);
}

/// The scan ran on the bitmap `s` with nobody in between: it started at the
/// hint of `s`, and each word it examined was the word of `s` at that place.
pub open spec fn scan_met(s: Bitmap, scan: Scan) -> bool {
    &&& scan.start == s.hint
    &&& scan.start + scan.seen.len() <= s.words.len()
    &&& forall|k: int| 0 <= k < scan.seen.len() ==> scan.seen[k] == s.words[scan.start + k]
}

/// Skipping full words does not change where the first open word is.
pub proof fn lemma_first_open_skips_full(s: Bitmap, from: nat, to: nat)
    requires
        from <= to <= s.words.len(),
        forall|w: int| from <= w < to ==> s.words[w] == WORD_ALL_ONES,
    ensures
        s.first_open(from) == s.first_open(to),
    decreases to - from,
{
    if from < to {
        lemma_first_open_skips_full(s, from + 1, to);
    }
}

/// A scan that nobody disturbed returns what the single-caller allocation
/// returns, and examines as many words.
pub proof fn lemma_undisturbed_scan(s: Bitmap, scan: Scan)
    requires
        s.hint <= s.words.len(),
        scan_met(s, scan),
        scan.passed_only_full_words(),
        scan.claimed() is None ==> scan.start + scan.seen.len() >= s.words.len(),
    ensures
        scan.claimed() == s.alloc_result(),
        scan.seen.len() == s.words_examined(),
{
    let n = scan.seen.len();
    if n == 0 {
        assert(s.first_open(s.hint) == s.words.len());
    } else if scan.seen.last() != WORD_ALL_ONES {
        let last = (s.hint + n - 1) as nat;
        assert forall|w: int| s.hint <= w < last implies s.words[w] == WORD_ALL_ONES by {
            assert(scan.seen[w - s.hint] == s.words[w]);
        }
        lemma_first_open_skips_full(s, s.hint, last);
        assert(scan.seen[n - 1] == s.words[last as int]);
    } else {
        let end = s.words.len();
        assert forall|w: int| s.hint <= w < end implies s.words[w] == WORD_ALL_ONES by {
            assert(scan.seen[w - s.hint] == s.words[w]);
        }
        lemma_first_open_skips_full(s, s.hint, end);
    }
}

/// A read that nobody disturbed tells whether the slot is taken: when the
/// word value that `get_bit_observed` read from was the word of `s`, its
/// answer is the state of slot `ix` in `s`.
pub proof fn lemma_undisturbed_read(s: Bitmap, ix: nat, seen: Option<u64>, answer: bool)
    requires
        seen is Some <==> ix < s.capacity(),
        seen matches Some(word) ==> word == s.words[(ix / 64) as int],
        answer == (seen matches Some(word) && bit_is_set(word, ix % 64)),
    ensures
        answer == s.bit(ix),
{
}

} // verus!
