//! The allocator: an append-only pool of chunks together with the
//! Free-Chunk Index, behind the two entry points `allocate_value` and
//! `deallocate_value`.

use crate::chunk::{all_empty_slots, chunk_alloc_step, chunk_dealloc_step, initial_free_queue};
use crate::chunk::{Chunk, Value, CHUNK_SIZE};
use crate::free_index::{index_elems, FreeChunkIndex};
use vstd::prelude::*;

verus! {

/// A two-level slot allocator: a growable pool of fixed-size chunks and a
/// set of the chunk positions that still have spare capacity.
pub struct Pool {
    chunks: Vec<Chunk>,
    free_chunks: FreeChunkIndex,
}

/// What one `allocate_value` call does: either some chunk with spare room
/// is chosen and the value lands at the head of its free queue, or, when no
/// chunk has room, a fresh chunk is appended and the value lands in its
/// first slot.  All other chunks are untouched.
pub open spec fn alloc_step(pre: Pool, post: Pool, value: Value, r: (usize, usize)) -> bool {
    if pre.free_set().is_empty() {
        &&& r.0 == pre.chunk_seq().len()
        &&& r.1 == 0
        &&& post.chunk_seq().len() == pre.chunk_seq().len() + 1
        &&& forall|i: int|
            0 <= i < pre.chunk_seq().len() ==> #[trigger] post.chunk_seq()[i] == pre.chunk_seq()[i]
        &&& post.chunk_seq()[r.0 as int].slots() == all_empty_slots().update(0, Some(value))
        &&& post.chunk_seq()[r.0 as int].free_queue() == initial_free_queue().subrange(
            1,
            CHUNK_SIZE as int,
        )
    } else {
        &&& r.0 < pre.chunk_seq().len()
        &&& pre.free_set().contains(r.0)
        &&& r.1 == pre.chunk_seq()[r.0 as int].free_queue()[0]
        &&& post.chunk_seq().len() == pre.chunk_seq().len()
        &&& forall|i: int|
            0 <= i < pre.chunk_seq().len() && i != r.0 ==> #[trigger] post.chunk_seq()[i]
                == pre.chunk_seq()[i]
        &&& chunk_alloc_step(pre.chunk_seq()[r.0 as int], post.chunk_seq()[r.0 as int], value, r.1)
    }
}

/// What one `deallocate_value` call does: a handle naming an occupied slot
/// releases exactly that slot, whose position joins the tail of its chunk's
/// free queue and whose chunk is a member of the Free-Chunk Index
/// afterwards; any other handle changes nothing.
pub open spec fn dealloc_step(pre: Pool, post: Pool, c: usize, p: usize) -> bool {
    if c < pre.chunk_seq().len() && p < CHUNK_SIZE && pre.chunk_seq()[c as int].slots()[p as int]
        is Some {
        &&& post.chunk_seq().len() == pre.chunk_seq().len()
        &&& forall|i: int|
            0 <= i < pre.chunk_seq().len() && i != c ==> #[trigger] post.chunk_seq()[i]
                == pre.chunk_seq()[i]
        &&& chunk_dealloc_step(pre.chunk_seq()[c as int], post.chunk_seq()[c as int], p)
        &&& post.free_set() == pre.free_set().insert(c)
    } else {
        &&& post.chunk_seq() == pre.chunk_seq()
        &&& post.free_set() == pre.free_set()
    }
}

/// The handle `h` names a slot that currently holds a value.
pub open spec fn occupied(pool: Pool, h: (usize, usize)) -> bool {
    &&& h.0 < pool.chunk_seq().len()
    &&& h.1 < CHUNK_SIZE
    &&& pool.chunk_seq()[h.0 as int].slots()[h.1 as int] is Some
}

impl Pool {
    /// The chunks of the pool, in order of creation.
    pub closed spec fn chunk_seq(self) -> Seq<Chunk> {
        self.chunks@
    }

    /// The Free-Chunk Index: the set of chunk positions on record as having
    /// spare capacity.
    pub closed spec fn free_set(self) -> Set<usize> {
        index_elems(self.free_chunks)
    }

    /// Pool invariant: every chunk is well formed, and a position is a
    /// member of the Free-Chunk Index exactly when its chunk exists and has
    /// at least one empty slot.
    pub open spec fn wf(self) -> bool {
        &&& forall|i: int| 0 <= i < self.chunk_seq().len() ==> (#[trigger] self.chunk_seq()[i]).wf()
        &&& forall|i: usize|
            #[trigger] self.free_set().contains(i) <==> (i < self.chunk_seq().len()
                && self.chunk_seq()[i as int].free_queue().len() > 0)
    }

    /// Creates an empty pool: no chunks, and an empty Free-Chunk Index.
    pub fn new() -> (pool: Pool)
        ensures
            pool.wf(),
            pool.chunk_seq() == Seq::<Chunk>::empty(),
            pool.free_set() == Set::<usize>::empty(),
    {
        let pool = Pool { chunks: Vec::new(), free_chunks: FreeChunkIndex::new() };
        proof {
            assert(pool.chunk_seq() =~= Seq::<Chunk>::empty());
        }
        pool
    }

    /// Stores `value` and returns its `(chunk position, slot position)`
    /// handle.  A chunk already on record as having room is used if there
    /// is one; otherwise a fresh chunk is appended to the pool.
    pub fn allocate_value(&mut self, value: Value) -> (r: (usize, usize))
        requires
            old(self).wf(),
        ensures
            final(self).wf(),
            alloc_step(*old(self), *final(self), value, r),
            occupied(*final(self), r),
    {
        let ghost pre = *old(self);
        let chunk_index: usize;
        match self.free_chunks.first() {
            Some(i) => {
                chunk_index = i;
                proof {
                    assert(pre.free_set().contains(i));
                    assert(!pre.free_set().is_empty());
                    assert(i < pre.chunk_seq().len());
                    assert(pre.chunk_seq()[i as int].wf());
                    assert(pre.chunk_seq()[i as int].free_queue().len() > 0);
                }
            },
            None => {
                proof {
                    assert(pre.free_set() =~= Set::<usize>::empty());
                }
                let new_chunk = Chunk::new();
                self.chunks.push(new_chunk);
                chunk_index = self.chunks.len() - 1;
                self.free_chunks.insert(chunk_index);
                proof {
                    assert(chunk_index == pre.chunk_seq().len());
                    assert(self.chunk_seq()[chunk_index as int].wf());
                    assert(self.chunk_seq()[chunk_index as int].free_queue()
                        == initial_free_queue());
                    assert(initial_free_queue().len() == CHUNK_SIZE);
                }
            },
        }
        let chunk = &mut self.chunks[chunk_index];
        let slot_opt = chunk.allocate(value);
        let slot_index = slot_opt.unwrap();
        let still_free = chunk.has_free_slot();
        if !still_free {
            self.free_chunks.remove(chunk_index);
        }
        proof {
            if pre.free_set().is_empty() {
                assert(self.chunk_seq()[chunk_index as int].free_queue()
                    =~= initial_free_queue().subrange(1, CHUNK_SIZE as int));
                assert(still_free);
                assert(self.free_set() =~= pre.free_set().insert(chunk_index));
            }
            assert forall|i: usize| #[trigger]
                self.free_set().contains(i) <==> (i < self.chunk_seq().len()
                    && self.chunk_seq()[i as int].free_queue().len() > 0) by {
                if i == chunk_index {
                    assert((self.chunk_seq()[i as int].free_queue().len() > 0) == still_free);
                }
            }
        }
        (chunk_index, slot_index)
    }

    /// Releases the slot named by the handle.  A `chunk_index` outside the
    /// pool, or a slot that holds no value, leaves the pool and the
    /// Free-Chunk Index unchanged.
    pub fn deallocate_value(&mut self, chunk_index: usize, value_index: usize)
        requires
            old(self).wf(),
        ensures
            final(self).wf(),
            dealloc_step(*old(self), *final(self), chunk_index, value_index),
    {
        if chunk_index < self.chunks.len() {
            proof {
                assert(old(self).chunk_seq()[chunk_index as int].wf());
            }
            let chunk = &mut self.chunks[chunk_index];
            chunk.deallocate(value_index);
            let free_now = chunk.has_free_slot();
            if free_now {
                self.free_chunks.insert(chunk_index);
            }
            proof {
                let pre = *old(self);
                assert(self.chunk_seq() =~= pre.chunk_seq().update(
                    chunk_index as int,
                    self.chunk_seq()[chunk_index as int],
                ));
                if !(value_index < CHUNK_SIZE && pre.chunk_seq()[chunk_index as int].slots()[
                    value_index as int] is Some) {
                    assert(self.chunk_seq() =~= pre.chunk_seq());
                    assert(self.free_set() =~= pre.free_set());
                } else {
                    assert(free_now);
                    assert(self.free_set() =~= pre.free_set().insert(chunk_index));
                }
            }
        }
    }

    /// The number of chunks the pool currently holds.
    pub fn num_chunks(&self) -> (r: usize)
        ensures
            r == self.chunk_seq().len(),
    {
        self.chunks.len()
    }

    /// Reads the slot named by the handle; `None` for a handle outside the
    /// pool, or for an empty slot.
    pub fn get(&self, chunk_index: usize, value_index: usize) -> (r: Option<Value>)
        requires
            self.wf(),
        ensures
            chunk_index < self.chunk_seq().len() && value_index < CHUNK_SIZE ==> r
                == self.chunk_seq()[chunk_index as int].slots()[value_index as int],
            !(chunk_index < self.chunk_seq().len() && value_index < CHUNK_SIZE) ==> r is None,
    {
        if chunk_index < self.chunks.len() {
            self.chunks[chunk_index].get(value_index)
        } else {
            None
        }
    }

    /// Reports whether `chunk_index` is a member of the Free-Chunk Index.
    /// In a well-formed pool that is exactly: the chunk exists and has at
    /// least one empty slot.
    pub fn chunk_in_free_index(&self, chunk_index: usize) -> (r: bool)
        ensures
            r == self.free_set().contains(chunk_index),
    {
        self.free_chunks.contains(chunk_index)
    }
}

} // verus!
