//! A fixed-capacity block of optional value slots plus a FIFO queue of the
//! slot positions that are currently empty.

use std::collections::VecDeque;
use vstd::prelude::*;

verus! {

/// The number of slots in every chunk.
pub const CHUNK_SIZE: usize = 64;

/// The payload type stored per slot: fixed-size, copyable, no identity
/// beyond its content.
pub type Value = i32;

/// A chunk of storage: `CHUNK_SIZE` optional value slots, and a queue of
/// the positions of the empty slots, oldest-freed first.
pub struct Chunk {
    /// Storage for values. `None` marks an unoccupied slot.
    values: Vec<Option<Value>>,
    /// The positions of the unoccupied slots, in the order they were freed.
    free_indices: VecDeque<usize>,
}

/// The slot contents of a chunk into which nothing has ever been allocated.
pub open spec fn all_empty_slots() -> Seq<Option<Value>> {
    Seq::new(CHUNK_SIZE as nat, |p: int| None::<Value>)
}

/// The free queue of a fresh chunk: every position, in ascending order.
pub open spec fn initial_free_queue() -> Seq<usize> {
    Seq::new(CHUNK_SIZE as nat, |k: int| k as usize)
}

/// A successful allocation step of a single chunk: the longest-free
/// position is taken off the head of the queue and now holds `value`.
pub open spec fn chunk_alloc_step(pre: Chunk, post: Chunk, value: Value, p: usize) -> bool {
    &&& pre.free_queue().len() > 0
    &&& p == pre.free_queue()[0]
    &&& post.slots() == pre.slots().update(p as int, Some(value))
    &&& post.free_queue() == pre.free_queue().subrange(1, pre.free_queue().len() as int)
}

/// A deallocation step of a single chunk.  Releasing an occupied slot
/// clears it and appends its position to the tail of the queue; any other
/// position leaves the chunk exactly as it was.
pub open spec fn chunk_dealloc_step(pre: Chunk, post: Chunk, p: usize) -> bool {
    if p < CHUNK_SIZE && pre.slots()[p as int] is Some {
        &&& post.slots() == pre.slots().update(p as int, None::<Value>)
        &&& post.free_queue() == pre.free_queue().push(p)
    } else {
        post == pre
    }
}

impl Chunk {
    /// The slots of this chunk, each empty or holding one value.
    pub closed spec fn slots(self) -> Seq<Option<Value>> {
        self.values@
    }

    /// The queue of empty slot positions, oldest-freed first.
    pub closed spec fn free_queue(self) -> Seq<usize> {
        self.free_indices@
    }

    /// The number of occupied slots.
    pub open spec fn occupied_count(self) -> int {
        CHUNK_SIZE - self.free_queue().len()
    }

    /// Chunk invariant: exactly `CHUNK_SIZE` slots, and the free queue holds
    /// exactly the set of empty positions, with no duplicates and no
    /// out-of-range entries.
    pub open spec fn wf(self) -> bool {
        &&& self.slots().len() == CHUNK_SIZE
        &&& forall|k: int|
            0 <= k < self.free_queue().len() ==> #[trigger] self.free_queue()[k] < CHUNK_SIZE
        &&& forall|k1: int, k2: int|
            0 <= k1 < k2 < self.free_queue().len()
                ==> self.free_queue()[k1] != self.free_queue()[k2]
        &&& forall|p: int|
            0 <= p < CHUNK_SIZE
                ==> ((#[trigger] self.slots()[p]) is None <==> self.free_queue().contains(
                p as usize,
            ))
    }

    /// Constructs a chunk with all slots unoccupied and the free queue
    /// holding every position in ascending order.
    pub fn new() -> (c: Chunk)
        ensures
            c.wf(),
            c.slots() == all_empty_slots(),
            c.free_queue() == initial_free_queue(),
    {
        let values: Vec<Option<Value>> = vec![None; CHUNK_SIZE];
        let mut free_indices: VecDeque<usize> = VecDeque::new();
        let mut k: usize = 0;
        while k < CHUNK_SIZE
            invariant
                k <= CHUNK_SIZE,
                free_indices@.len() == k,
                forall|j: int| 0 <= j < k ==> #[trigger] free_indices@[j] == j,
            decreases CHUNK_SIZE - k,
        {
            free_indices.push_back(k);
            k = k + 1;
        }
        let c = Chunk { values, free_indices };
        proof {
            assert(c.slots() =~= all_empty_slots());
            assert(c.free_queue() =~= initial_free_queue());
            assert forall|p: int| 0 <= p < CHUNK_SIZE implies #[trigger] c.free_queue().contains(
                p as usize,
            ) by {
                assert(c.free_queue()[p] == p as usize);
            }
        }
        c
    }

    /// Tries to store `value` in this chunk.  Returns the position used,
    /// which is the position that has been free the longest, or `None` if
    /// the chunk is full.
    pub fn allocate(&mut self, value: Value) -> (r: Option<usize>)
        requires
            old(self).wf(),
        ensures
            final(self).wf(),
            old(self).free_queue().len() == 0 ==> r is None && final(self).slots() == old(
                self,
            ).slots() && final(self).free_queue() == old(self).free_queue(),
            old(self).free_queue().len() > 0 ==> r == Some(old(self).free_queue()[0])
                && chunk_alloc_step(*old(self), *final(self), value, old(self).free_queue()[0]),
    {
        match self.free_indices.pop_front() {
            None => None,
            Some(index) => {
                proof {
                    assert(old(self).free_queue().contains(index));
                }
                self.values[index] = Some(value);
                proof {
                    let pre = *old(self);
                    let q = pre.free_queue();
                    assert(self.free_queue() =~= q.subrange(1, q.len() as int));
                    assert forall|p: int|
                        0 <= p < CHUNK_SIZE implies ((#[trigger] self.slots()[p]) is None
                        <==> self.free_queue().contains(p as usize)) by {
                        if p == index {
                            assert forall|k: int|
                                0 <= k < self.free_queue().len() implies #[trigger] self
                                .free_queue()[k] != index by {
                                assert(q[k + 1] == self.free_queue()[k]);
                            }
                        } else {
                            if q.contains(p as usize) {
                                let k = choose|k: int|
                                    0 <= k < q.len() && q[k] == p as usize;
                                assert(k != 0);
                                assert(self.free_queue()[k - 1] == p as usize);
                            }
                            if self.free_queue().contains(p as usize) {
                                let k = choose|k: int|
                                    0 <= k < self.free_queue().len() && self.free_queue()[k]
                                        == p as usize;
                                assert(q[k + 1] == p as usize);
                            }
                        }
                    }
                }
                Some(index)
            },
        }
    }

    /// Releases the slot at `position`.  An out-of-range position, or one
    /// whose slot is already empty, leaves the chunk unchanged.
    pub fn deallocate(&mut self, position: usize)
        requires
            old(self).wf(),
        ensures
            final(self).wf(),
            chunk_dealloc_step(*old(self), *final(self), position),
    {
        if position < CHUNK_SIZE {
            let occupied = self.values[position].is_some();
            if occupied {
                self.values[position] = None;
                self.free_indices.push_back(position);
                proof {
                    let pre = *old(self);
                    let q = pre.free_queue();
                    assert(!q.contains(position));
                    assert(self.free_queue() =~= q.push(position));
                    assert forall|p: int|
                        0 <= p < CHUNK_SIZE implies ((#[trigger] self.slots()[p]) is None
                        <==> self.free_queue().contains(p as usize)) by {
                        if p == position {
                            assert(self.free_queue()[q.len() as int] == position);
                        } else {
                            if q.contains(p as usize) {
                                let k = choose|k: int|
                                    0 <= k < q.len() && q[k] == p as usize;
                                assert(self.free_queue()[k] == p as usize);
                            }
                            if self.free_queue().contains(p as usize) {
                                let k = choose|k: int|
                                    0 <= k < self.free_queue().len() && self.free_queue()[k]
                                        == p as usize;
                                assert(k < q.len());
                                assert(q[k] == p as usize);
                            }
                        }
                    }
                }
            }
        }
    }

    /// Reports whether this chunk has at least one unoccupied slot.
    pub fn has_free_slot(&self) -> (r: bool)
        ensures
            r == (self.free_queue().len() > 0),
    {
        self.free_indices.len() > 0
    }

    /// Reads the slot at `position`; `None` for an out-of-range position.
    pub fn get(&self, position: usize) -> (r: Option<Value>)
        ensures
            position < self.slots().len() ==> r == self.slots()[position as int],
            position >= self.slots().len() ==> r is None,
    {
        if position < self.values.len() {
            self.values[position]
        } else {
            None
        }
    }
}

} // verus!
