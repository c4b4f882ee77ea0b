use nds_hal::allocator::ACSLAlloc;
use nds_hal::flalloc::FLAlloc;

fn fresh_heap(start: usize, size: usize) -> ACSLAlloc {
    let mut heap = ACSLAlloc::new();
    heap.init(start, size);
    heap
}

#[test]
fn first_two_allocations_pack_tightly() {
    let mut heap = fresh_heap(0x1000, 256);
    let a = heap.allocate(40, 4);
    assert_eq!(a, Some(0x1000));
    let b = heap.allocate(40, 4);
    assert_eq!(b, Some(0x1028));
    assert!(0x1000 + 40 <= 0x1100);
    assert!(0x1028 + 40 <= 0x1100);
}

#[test]
fn free_in_allocation_order_coalesces_to_one_block() {
    let mut heap = fresh_heap(0x1000, 256);
    let a = heap.allocate(64, 4).unwrap();
    let b = heap.allocate(64, 4).unwrap();
    assert_eq!(a, 0x1000);
    assert_eq!(b, 0x1040);
    heap.deallocate(a, 64);
    heap.deallocate(b, 64);
    assert_eq!(heap.free_extents(), vec![(0x1000, 0x1100)]);
}

#[test]
fn free_in_reverse_order_coalesces_to_one_block() {
    let mut heap = fresh_heap(0x1000, 256);
    let a = heap.allocate(64, 4).unwrap();
    let b = heap.allocate(64, 4).unwrap();
    heap.deallocate(b, 64);
    heap.deallocate(a, 64);
    assert_eq!(heap.free_extents(), vec![(0x1000, 0x1100)]);
}

#[test]
fn freed_block_bridges_both_neighbours() {
    let mut heap = fresh_heap(0x2000, 96);
    let a = heap.allocate(32, 4).unwrap();
    let b = heap.allocate(32, 4).unwrap();
    let c = heap.allocate(32, 4).unwrap();
    assert_eq!((a, b, c), (0x2000, 0x2020, 0x2040));
    heap.deallocate(a, 32);
    heap.deallocate(c, 32);
    assert_eq!(heap.free_extents(), vec![(0x2000, 0x2020), (0x2040, 0x2060)]);
    heap.deallocate(b, 32);
    assert_eq!(heap.free_extents(), vec![(0x2000, 0x2060)]);
}

#[test]
fn oversized_request_fails_without_changing_state() {
    let mut heap = fresh_heap(0x1000, 64);
    let before = heap.free_extents();
    assert_eq!(heap.allocate(100, 4), None);
    assert_eq!(heap.free_extents(), before);
}

#[test]
fn exhaustion_after_partial_fills() {
    let mut heap = fresh_heap(0x1000, 64);
    assert_eq!(heap.allocate(40, 4), Some(0x1000));
    // 24 bytes remain: a 40-byte request no longer fits anywhere.
    assert_eq!(heap.allocate(40, 4), None);
    assert_eq!(heap.free_extents(), vec![(0x1028, 0x1040)]);
}

#[test]
fn alignment_above_granularity_is_rejected() {
    let mut heap = fresh_heap(0x1000, 256);
    let before = heap.free_extents();
    assert_eq!(heap.allocate(8, 8), None);
    assert_eq!(heap.free_extents(), before);
    assert_eq!(heap.allocate(8, 4), Some(0x1000));
    assert_eq!(heap.allocate(8, 2), Some(0x1008));
    assert_eq!(heap.allocate(8, 1), Some(0x1010));
}

#[test]
fn zero_byte_requests_touch_nothing() {
    let mut heap = fresh_heap(0x1000, 64);
    assert_eq!(heap.allocate(0, 4), Some(0x1000));
    assert_eq!(heap.free_extents(), vec![(0x1000, 0x1040)]);
    let a = heap.allocate(16, 4).unwrap();
    heap.deallocate(a, 0);
    assert_eq!(heap.free_extents(), vec![(0x1010, 0x1040)]);
}

#[test]
fn exact_fit_empties_the_list() {
    let mut heap = fresh_heap(0x1000, 64);
    assert_eq!(heap.allocate(64, 4), Some(0x1000));
    assert_eq!(heap.free_extents(), vec![]);
    assert_eq!(heap.allocate(4, 4), None);
    heap.deallocate(0x1000, 64);
    assert_eq!(heap.free_extents(), vec![(0x1000, 0x1040)]);
}

#[test]
fn sizes_round_up_to_the_granularity() {
    let mut heap = fresh_heap(0x1000, 8);
    assert_eq!(heap.allocate(1, 1), Some(0x1000));
    assert_eq!(heap.allocate(3, 1), Some(0x1004));
    assert_eq!(heap.allocate(1, 1), None);
    heap.deallocate(0x1000, 1);
    heap.deallocate(0x1004, 3);
    assert_eq!(heap.free_extents(), vec![(0x1000, 0x1008)]);
}

#[test]
fn one_word_free_block_round_trip() {
    // Carve the heap so a single 4-byte free block remains, exercising
    // the short header form, then allocate it exactly.
    let mut heap = fresh_heap(0x1000, 12);
    let a = heap.allocate(8, 4).unwrap();
    assert_eq!(a, 0x1000);
    assert_eq!(heap.free_extents(), vec![(0x1008, 0x100C)]);
    assert_eq!(heap.allocate(4, 4), Some(0x1008));
    assert_eq!(heap.free_extents(), vec![]);
    heap.deallocate(0x1008, 4);
    assert_eq!(heap.free_extents(), vec![(0x1008, 0x100C)]);
    heap.deallocate(a, 8);
    assert_eq!(heap.free_extents(), vec![(0x1000, 0x100C)]);
}

#[test]
fn first_fit_skips_blocks_that_are_too_small() {
    let mut heap = fresh_heap(0x1000, 256);
    let a = heap.allocate(8, 4).unwrap();
    let _b = heap.allocate(8, 4).unwrap();
    let c = heap.allocate(16, 4).unwrap();
    heap.deallocate(a, 8);
    heap.deallocate(c, 16);
    assert_eq!(heap.free_extents(), vec![(0x1000, 0x1008), (0x1010, 0x1100)]);
    // Twelve bytes pass over the 8-byte hole and land in the second one.
    assert_eq!(heap.allocate(12, 4), Some(0x1010));
    // Eight bytes take the first hole.
    assert_eq!(heap.allocate(8, 4), Some(0x1000));
}

#[test]
fn identical_states_give_identical_answers() {
    let mut one = fresh_heap(0x1000, 256);
    let mut two = fresh_heap(0x1000, 256);
    for heap in [&mut one, &mut two] {
        let a = heap.allocate(24, 4).unwrap();
        let _ = heap.allocate(24, 4).unwrap();
        heap.deallocate(a, 24);
    }
    assert_eq!(one.free_extents(), two.free_extents());
    assert_eq!(one.allocate(16, 4), two.allocate(16, 4));
    assert_eq!(one.free_extents(), two.free_extents());
}

#[test]
fn live_allocations_never_overlap() {
    let mut heap = fresh_heap(0x1000, 256);
    let mut live: Vec<(usize, usize)> = Vec::new();
    let sizes = [40, 12, 64, 4, 28];
    for s in sizes {
        let p = heap.allocate(s, 4).unwrap();
        live.push((p, p + (s + 3) / 4 * 4));
    }
    heap.deallocate(live[1].0, 12);
    live.remove(1);
    let p = heap.allocate(8, 4).unwrap();
    live.push((p, p + 8));
    for i in 0..live.len() {
        for j in 0..live.len() {
            if i != j {
                let (s1, e1) = live[i];
                let (s2, e2) = live[j];
                assert!(e1 <= s2 || e2 <= s1);
            }
            assert!(live[i].0 >= 0x1000 && live[i].1 <= 0x1100);
        }
    }
}

#[test]
fn freeing_everything_restores_the_initial_block() {
    let mut heap = fresh_heap(0x8000, 512);
    let mut live: Vec<(usize, usize)> = Vec::new();
    for s in [100, 3, 64, 200, 16] {
        let p = heap.allocate(s, 4).unwrap();
        live.push((p, s));
    }
    // Free in a scrambled order.
    for i in [3, 0, 4, 1, 2] {
        let (p, s) = live[i];
        heap.deallocate(p, s);
    }
    assert_eq!(heap.free_extents(), vec![(0x8000, 0x8200)]);
}

#[test]
fn hole_list_exhausts_after_two_minimum_allocations() {
    let mut fl = FLAlloc::new();
    fl.init(0x1000, 128);
    assert_eq!(fl.allocate_first_fit(40, 4), Ok(0x1000));
    assert_eq!(fl.allocate_first_fit(40, 4), Ok(0x1040));
    assert_eq!(fl.allocate_first_fit(40, 4), Err(()));
}

#[test]
fn hole_list_widens_small_requests() {
    let mut fl = FLAlloc::new();
    fl.init(0x4000, 200);
    assert_eq!(fl.allocate_first_fit(1, 1), Ok(0x4000));
    // The one-byte request consumed a full minimum-sized slot.
    assert_eq!(fl.allocate_first_fit(72, 4), Ok(0x4040));
    assert_eq!(fl.allocate_first_fit(64, 4), Ok(0x4088));
    assert_eq!(fl.allocate_first_fit(1, 1), Err(()));
}

#[test]
fn hole_list_respects_alignment_of_hole_starts() {
    let mut fl = FLAlloc::new();
    fl.init(0x1001, 200);
    assert_eq!(fl.allocate_first_fit(40, 4), Err(()));
    assert_eq!(fl.allocate_first_fit(40, 1), Ok(0x1001));
}

#[test]
fn empty_hole_list_fails() {
    let mut fl = FLAlloc::new();
    assert_eq!(fl.allocate_first_fit(1, 1), Err(()));
}
