use chunky_queue::chunk::{Chunk, CHUNK_SIZE};
use chunky_queue::pool::Pool;

#[test]
fn scenario_fill_grow_and_reuse() {
    let mut pool = Pool::new();
    // Allocate CHUNK_SIZE values: all land in chunk 0 at positions 0..63 in
    // order.
    for i in 0..CHUNK_SIZE {
        let handle = pool.allocate_value(i as i32);
        assert_eq!(handle, (0, i));
    }
    assert_eq!(pool.num_chunks(), 1);
    // Chunk 0 is now full and has left the Free-Chunk Index.
    assert!(!pool.chunk_in_free_index(0));
    // The 65th value lands in a newly created chunk 1 at position 0.
    let overflow = pool.allocate_value(1000);
    assert_eq!(overflow, (1, 0));
    assert_eq!(pool.num_chunks(), 2);
    // Releasing position 5 of chunk 0 puts chunk 0 back into the index.
    pool.deallocate_value(0, 5);
    assert!(pool.chunk_in_free_index(0));
    // The next allocation reuses exactly that slot.
    let reused = pool.allocate_value(2000);
    assert_eq!(reused, (0, 5));
}

#[test]
fn handles_are_pairwise_distinct() {
    let mut pool = Pool::new();
    let mut handles = Vec::new();
    for i in 0..(2 * CHUNK_SIZE + 3) {
        handles.push(pool.allocate_value(i as i32));
    }
    for a in 0..handles.len() {
        for b in (a + 1)..handles.len() {
            assert_ne!(handles[a], handles[b]);
        }
    }
}

#[test]
fn reallocated_slot_holds_only_the_new_value() {
    let mut pool = Pool::new();
    let h = pool.allocate_value(41);
    assert_eq!(pool.get(h.0, h.1), Some(41));
    pool.deallocate_value(h.0, h.1);
    assert_eq!(pool.get(h.0, h.1), None);
    // The pool holds one chunk whose queue now ends with the freed slot;
    // keep allocating until that handle comes around again.
    let mut seen = pool.allocate_value(90);
    while seen != h {
        seen = pool.allocate_value(90);
    }
    assert_eq!(pool.get(h.0, h.1), Some(90));
}

#[test]
fn fifo_reuse_within_a_chunk() {
    let mut pool = Pool::new();
    for i in 0..CHUNK_SIZE {
        pool.allocate_value(i as i32);
    }
    // Chunk 0 is full; free positions 3 first, then 7.
    pool.deallocate_value(0, 3);
    pool.deallocate_value(0, 7);
    // The next two allocations return them in the order they were freed.
    assert_eq!(pool.allocate_value(-1), (0, 3));
    assert_eq!(pool.allocate_value(-2), (0, 7));
}

#[test]
fn growth_creates_a_second_chunk() {
    let mut pool = Pool::new();
    let mut handles = Vec::new();
    for i in 0..(CHUNK_SIZE + 1) {
        handles.push(pool.allocate_value(i as i32));
    }
    assert!(pool.num_chunks() >= 2);
    let last = handles[CHUNK_SIZE];
    for i in 0..CHUNK_SIZE {
        assert_ne!(handles[i].0, last.0);
    }
}

#[test]
fn free_chunk_index_tracks_spare_capacity() {
    let mut pool = Pool::new();
    // A new pool has no chunks, so no member.
    assert!(!pool.chunk_in_free_index(0));
    pool.allocate_value(1);
    assert!(pool.chunk_in_free_index(0));
    // Exhaust chunk 0: it leaves the index with the last allocation.
    for i in 1..CHUNK_SIZE {
        assert!(pool.chunk_in_free_index(0));
        pool.allocate_value(i as i32);
    }
    assert!(!pool.chunk_in_free_index(0));
    // One deallocation brings it back.
    pool.deallocate_value(0, 17);
    assert!(pool.chunk_in_free_index(0));
}

#[test]
fn deallocate_out_of_range_chunk_is_a_noop() {
    let mut pool = Pool::new();
    let h1 = pool.allocate_value(5);
    let h2 = pool.allocate_value(6);
    pool.deallocate_value(99, 0);
    assert_eq!(pool.num_chunks(), 1);
    assert_eq!(pool.get(h1.0, h1.1), Some(5));
    assert_eq!(pool.get(h2.0, h2.1), Some(6));
    assert!(pool.chunk_in_free_index(0));
    // Allocation order is undisturbed: the next slot is position 2.
    assert_eq!(pool.allocate_value(7), (0, 2));
}

#[test]
fn deallocate_empty_slot_is_a_noop() {
    let mut pool = Pool::new();
    pool.allocate_value(1);
    pool.allocate_value(2);
    pool.deallocate_value(0, 1);
    // Releasing the same slot again changes nothing: the queue gains no
    // duplicate, so position 1 is handed out exactly once while the chunk
    // fills back up.
    pool.deallocate_value(0, 1);
    let mut ones = 0;
    for i in 0..(CHUNK_SIZE - 1) {
        let h = pool.allocate_value(10 + i as i32);
        assert_eq!(h.0, 0);
        if h == (0, 1) {
            ones += 1;
        }
    }
    assert_eq!(ones, 1);
    // Chunk 0 is now full again: the next allocation opens a new chunk.
    assert!(!pool.chunk_in_free_index(0));
    assert_eq!(pool.allocate_value(99), (1, 0));
}

#[test]
fn chunk_starts_empty_with_ascending_queue() {
    let mut chunk = Chunk::new();
    assert!(chunk.has_free_slot());
    for i in 0..CHUNK_SIZE {
        assert_eq!(chunk.get(i), None);
        assert_eq!(chunk.allocate(100 + i as i32), Some(i));
    }
    assert!(!chunk.has_free_slot());
    assert_eq!(chunk.allocate(0), None);
    for i in 0..CHUNK_SIZE {
        assert_eq!(chunk.get(i), Some(100 + i as i32));
    }
}

#[test]
fn chunk_deallocate_out_of_range_is_a_noop() {
    let mut chunk = Chunk::new();
    for i in 0..CHUNK_SIZE {
        chunk.allocate(i as i32);
    }
    chunk.deallocate(CHUNK_SIZE);
    assert!(!chunk.has_free_slot());
    chunk.deallocate(CHUNK_SIZE - 1);
    assert!(chunk.has_free_slot());
    assert_eq!(chunk.allocate(-5), Some(CHUNK_SIZE - 1));
    assert_eq!(chunk.get(CHUNK_SIZE - 1), Some(-5));
}

#[test]
fn chunk_get_out_of_range_is_none() {
    let chunk = Chunk::new();
    assert_eq!(chunk.get(CHUNK_SIZE), None);
    assert_eq!(chunk.get(usize::MAX), None);
}
