use bitalloc::bitalloc::claimed_index;
use bitalloc::bitalloc::BitAlloc;
use bitalloc::bitalloc::BitAllocError;

/// The indices of all slots that read as taken.
fn taken(item: &BitAlloc) -> Vec<usize> {
    (0..item.len()).filter(|n| item.get_bit(*n)).collect()
}

#[test]
fn capacity_rounds_up_to_whole_words() {
    assert_eq!(BitAlloc::new(0).len(), 0);
    assert_eq!(BitAlloc::new(1).len(), 64);
    assert_eq!(BitAlloc::new(64).len(), 64);
    assert_eq!(BitAlloc::new(65).len(), 128);
    assert_eq!(BitAlloc::new(1000).len(), 1024);
    assert_eq!(BitAlloc::new(100000).len(), 100032);
}

#[test]
fn fresh_allocator_has_no_slot_taken() {
    for size in [0usize, 1, 63, 64, 65, 1000] {
        let a = BitAlloc::new(size);
        for i in 0..a.len() {
            assert!(!a.get_bit(i));
        }
        assert_eq!(a.alloc_count(), 0);
        assert_eq!(a.search_count(), 0);
    }
}

#[test]
fn word_bit_splits_an_index() {
    assert_eq!(BitAlloc::word_bit(0), (0, 0));
    assert_eq!(BitAlloc::word_bit(63), (0, 63));
    assert_eq!(BitAlloc::word_bit(64), (1, 0));
    assert_eq!(BitAlloc::word_bit(130), (2, 2));
    assert_eq!(BitAlloc::word_bit(usize::MAX), (usize::MAX / 64, 63));
}

#[test]
fn claimed_index_is_lowest_free_slot_of_the_word() {
    assert_eq!(claimed_index(0, 0), 0);
    assert_eq!(claimed_index(0, 0b0111), 3);
    assert_eq!(claimed_index(3, 0b0101), 3 * 64 + 1);
    assert_eq!(claimed_index(2, u64::MAX >> 1), 2 * 64 + 63);
}

#[test]
fn exactly_capacity_allocations_succeed() {
    let a = BitAlloc::new(128);
    for expected in 0..128 {
        assert_eq!(a.alloc_bit(), Some(expected));
    }
    assert_eq!(a.alloc_bit(), None);
    assert_eq!(a.alloc_bit(), None);
    assert_eq!(taken(&a).len(), 128);
}

#[test]
fn exhaustion_counts_the_rounded_capacity() {
    let a = BitAlloc::new(100);
    let mut served = 0;
    while a.alloc_bit().is_some() {
        served += 1;
    }
    assert_eq!(served, 128);
    assert_eq!(a.alloc_bit(), None);
}

#[test]
fn empty_allocator_serves_nothing() {
    let a = BitAlloc::new(0);
    assert_eq!(a.alloc_bit(), None);
    assert!(!a.get_bit(0));
    assert_eq!(a.clear_bit(0), Err(BitAllocError::IndexOutOfRange));
    assert_eq!(a.alloc_count(), 1);
    assert_eq!(a.search_count(), 0);
}

#[test]
fn first_three_allocations_take_slots_in_order() {
    let a = BitAlloc::new(1000);
    assert_eq!(a.len(), 1024);
    assert_eq!(a.alloc_bit(), Some(0));
    assert_eq!(a.alloc_bit(), Some(1));
    assert_eq!(a.alloc_bit(), Some(2));
    assert_eq!(taken(&a), [0, 1, 2]);
}

#[test]
fn release_frees_only_its_slot() {
    let a = BitAlloc::new(1000);
    for _ in 0..3 {
        a.alloc_bit().unwrap();
    }
    assert_eq!(a.clear_bit(1), Ok(()));
    assert!(a.get_bit(0));
    assert!(!a.get_bit(1));
    assert!(a.get_bit(2));
    assert_eq!(taken(&a), [0, 2]);
}

#[test]
fn released_slot_is_reclaimed_in_a_run() {
    let a = BitAlloc::new(1000);
    for _ in 0..3 {
        a.alloc_bit().unwrap();
    }
    a.clear_bit(1).unwrap();
    let mut got = Vec::new();
    for _ in 0..500 {
        got.push(a.alloc_bit().unwrap());
    }
    assert_eq!(got[0], 1);
    assert_eq!(got[1], 3);
    assert_eq!(got[499], 501);
    let expected: Vec<usize> = (0..502).collect();
    assert_eq!(taken(&a), expected);
    assert_eq!(taken(&a).len(), 502);
}

#[test]
fn clearing_one_past_the_end_is_rejected() {
    let a = BitAlloc::new(1000);
    for _ in 0..3 {
        a.alloc_bit().unwrap();
    }
    let before = taken(&a);
    assert_eq!(a.clear_bit(a.len()), Err(BitAllocError::IndexOutOfRange));
    assert_eq!(a.clear_bit(usize::MAX), Err(BitAllocError::IndexOutOfRange));
    assert_eq!(taken(&a), before);
    assert_eq!(a.clear_bit(a.len() - 1), Ok(()));
    assert_eq!(a.alloc_bit(), Some(3));
}

#[test]
fn reading_past_the_end_is_false() {
    let a = BitAlloc::new(64);
    while a.alloc_bit().is_some() {}
    assert!(a.get_bit(63));
    assert!(!a.get_bit(64));
    assert!(!a.get_bit(1000));
    assert!(!a.get_bit(usize::MAX));
}

#[test]
fn slots_past_the_requested_size_are_usable() {
    let a = BitAlloc::new(1000);
    assert_eq!(a.clear_bit(1023), Ok(()));
    assert!(!a.get_bit(1023));
    assert_eq!(a.clear_bit(1024), Err(BitAllocError::IndexOutOfRange));
}

#[test]
fn releasing_a_free_slot_succeeds() {
    let a = BitAlloc::new(256);
    assert_eq!(a.clear_bit(100), Ok(()));
    assert_eq!(a.clear_bit(100), Ok(()));
    assert!(taken(&a).is_empty());
    assert_eq!(a.alloc_bit(), Some(0));
}

#[test]
fn released_slot_comes_back_after_lower_free_slots() {
    let a = BitAlloc::new(256);
    for _ in 0..200 {
        a.alloc_bit().unwrap();
    }
    a.clear_bit(130).unwrap();
    a.clear_bit(5).unwrap();
    a.clear_bit(70).unwrap();
    assert_eq!(a.alloc_bit(), Some(5));
    assert_eq!(a.alloc_bit(), Some(70));
    assert_eq!(a.alloc_bit(), Some(130));
    assert_eq!(a.alloc_bit(), Some(200));
}

#[test]
fn release_in_a_full_bitmap_makes_room_for_one() {
    let a = BitAlloc::new(192);
    while a.alloc_bit().is_some() {}
    a.clear_bit(77).unwrap();
    assert_eq!(a.alloc_bit(), Some(77));
    assert_eq!(a.alloc_bit(), None);
}

#[test]
fn scan_examines_one_word_per_allocation_plus_hint_moves() {
    let a = BitAlloc::new(6400);
    for _ in 0..6400 {
        a.alloc_bit().unwrap();
    }
    assert_eq!(a.alloc_count(), 6400);
    assert_eq!(a.search_count(), 6400 + 99);
    assert!(10 * a.search_count() < 11 * a.alloc_count());
}

#[test]
fn failed_allocations_are_counted() {
    let a = BitAlloc::new(64);
    for _ in 0..64 {
        a.alloc_bit().unwrap();
    }
    assert_eq!(a.alloc_count(), 64);
    assert_eq!(a.search_count(), 64);
    assert_eq!(a.alloc_bit(), None);
    assert_eq!(a.alloc_count(), 65);
    assert_eq!(a.search_count(), 65);
}

#[test]
fn observed_allocation_returns_the_same_slots() {
    let a = BitAlloc::new(128);
    assert_eq!(a.alloc_bit_observed().0, Some(0));
    assert_eq!(a.alloc_bit(), Some(1));
    assert_eq!(a.alloc_bit_observed().0, Some(2));
    assert!(a.get_bit_observed(2).0);
    assert!(!a.get_bit_observed(3).0);
    assert!(!a.get_bit_observed(128).0);
}

#[test]
fn error_message_names_the_fault() {
    assert_eq!(
        BitAllocError::IndexOutOfRange.message(),
        "Bitalloc clear_bit index out of range."
    );
}
