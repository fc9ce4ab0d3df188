use narth_net::ready_by_bits::{IterReadyByBits, ReadyByBits};
use std::sync::atomic::AtomicU64;

/// A list of items that hold their own positions.
fn create_test_items(size: usize) -> Vec<Option<usize>> {
    (0..size).map(Some).collect()
}

#[test]
fn test_all_inputs_not_ready() {
    const CHUNK_SIZE: usize = 1;
    let mut items = create_test_items(CHUNK_SIZE * 64);
    let ready_bits = [0u64; CHUNK_SIZE];

    let mut iter = ReadyByBits::new(&mut items, ready_bits);

    assert!(iter.next().is_none());
}

#[test]
fn test_very_first_item_ready() {
    const CHUNK_SIZE: usize = 1;
    let mut items = create_test_items(CHUNK_SIZE * 64);
    // Bit 0 set (index 0)
    let ready_bits = [1u64; CHUNK_SIZE];

    let mut iter = ReadyByBits::new(&mut items, ready_bits);

    assert_eq!(iter.next(), Some(&mut 0));
    assert!(iter.next().is_none());
}

#[test]
fn test_very_last_item_ready() {
    const CHUNK_SIZE: usize = 2;
    let mut items = create_test_items(CHUNK_SIZE * 64); // 128 items

    // Set only the 63rd bit of the 2nd chunk (Absolute index 127)
    let mut ready_bits = [0u64; CHUNK_SIZE];
    ready_bits[1] = 1u64 << 63;

    let mut iter = ReadyByBits::new(&mut items, ready_bits);

    assert_eq!(iter.next(), Some(&mut 127));
    assert!(iter.next().is_none());
}

#[test]
fn test_single_item_in_multiple_chunks() {
    const CHUNK_SIZE: usize = 3;
    let mut items = create_test_items(CHUNK_SIZE * 64); // 192 items

    let mut ready_bits = [0u64; CHUNK_SIZE];
    ready_bits[0] = 1u64 << 5; // Index 5
    ready_bits[1] = 1u64 << 10; // Index 64 + 10 = 74
    ready_bits[2] = 1u64 << 0; // Index 128 + 0 = 128

    let mut iter = ReadyByBits::new(&mut items, ready_bits);

    assert_eq!(iter.next(), Some(&mut 5));
    assert_eq!(iter.next(), Some(&mut 74));
    assert_eq!(iter.next(), Some(&mut 128));
    assert!(iter.next().is_none());
}

#[test]
fn test_multiple_items_in_single_chunk() {
    const CHUNK_SIZE: usize = 1;
    let mut items = create_test_items(CHUNK_SIZE * 64);

    // Set bits 2, 3, and 5 (Binary: ...00101100 = 44)
    let ready_bits = [44u64; CHUNK_SIZE];

    let mut iter = ReadyByBits::new(&mut items, ready_bits);

    assert_eq!(iter.next(), Some(&mut 2));
    assert_eq!(iter.next(), Some(&mut 3));
    assert_eq!(iter.next(), Some(&mut 5));
    assert!(iter.next().is_none());
}

#[test]
fn test_spurious_readiness_skipped() {
    const CHUNK_SIZE: usize = 1;
    let mut items = create_test_items(CHUNK_SIZE * 64);

    // A closed connection or a spurious wake: index 2 is ready but empty.
    items[2] = None;

    // Bits 2 and 4 set
    let ready_bits = [(1u64 << 2) | (1u64 << 4)];

    let mut iter = ReadyByBits::new(&mut items, ready_bits);

    // Index 2 is skipped, index 4 comes at once
    assert_eq!(iter.next(), Some(&mut 4));
    assert!(iter.next().is_none());
}

#[test]
fn test_completely_full_chunks() {
    const CHUNK_SIZE: usize = 2;
    let mut items = create_test_items(CHUNK_SIZE * 64);

    // Every single bit is set across both chunks (128 items total)
    let ready_bits = [u64::MAX; CHUNK_SIZE];

    let mut iter = ReadyByBits::new(&mut items, ready_bits);

    for mut expected_idx in 0..128 {
        assert_eq!(iter.next(), Some(&mut expected_idx));
    }
    assert!(iter.next().is_none());
}

#[test]
fn test_integration_with_atomic_trait() {
    let mut items = create_test_items(64);
    let atomics = [AtomicU64::new((1 << 1) | (1 << 10))];

    // Use the trait on the slice directly
    let mut iter = items.iter_by_ready_bits(&atomics);

    assert_eq!(iter.next(), Some(&mut 1));
    assert_eq!(iter.next(), Some(&mut 10));
    assert!(iter.next().is_none());

    // The atomic was cleared by the swap
    assert_eq!(atomics[0].load(std::sync::atomic::Ordering::Relaxed), 0);
}

#[test]
fn test_input_collection_unaffected_and_retains_all_elements() {
    const CHUNK_SIZE: usize = 1;
    // [Some(0), Some(1), ..., Some(63)]
    let mut original_items = create_test_items(CHUNK_SIZE * 64);
    let atomics = [AtomicU64::new((1 << 2) | (1 << 5))];

    {
        let mut iter = original_items.iter_by_ready_bits(&atomics);

        // Pull the ready items out and change them
        if let Some(item) = iter.next() {
            *item = 999; // Modify index 2
        }
        if let Some(item) = iter.next() {
            *item = 888; // Modify index 5
        }
        assert!(iter.next().is_none());
    }

    // 1. The length is unchanged
    assert_eq!(original_items.len(), 64);

    // 2. Elements that were not visited are where they were
    assert_eq!(original_items[0], Some(0));
    assert_eq!(original_items[1], Some(1));
    assert_eq!(original_items[3], Some(3));
    assert_eq!(original_items[4], Some(4));
    assert_eq!(original_items[63], Some(63));

    // 3. Elements that were changed are changed in place
    assert_eq!(original_items[2], Some(999));
    assert_eq!(original_items[5], Some(888));
}

#[test]
fn test_partial_iteration_leaves_remaining_collection_intact() {
    const CHUNK_SIZE: usize = 1;
    let mut original_items = create_test_items(CHUNK_SIZE * 64);
    let atomics = [AtomicU64::new((1 << 1) | (1 << 10) | (1 << 20))];

    {
        let mut iter = original_items.iter_by_ready_bits(&atomics);

        // Only one item is pulled out
        let first_ready = iter.next();
        assert_eq!(first_ready, Some(&mut 1));
    }

    assert_eq!(original_items.len(), 64);
    assert_eq!(original_items[0], Some(0));
    assert_eq!(original_items[1], Some(1));
    assert_eq!(original_items[10], Some(10)); // Bit was flagged, but item is still safe
    assert_eq!(original_items[20], Some(20)); // Bit was flagged, but item is still safe
}
