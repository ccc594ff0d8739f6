//! Pool-wide and chunk-wide laws, stated over the step relations that the
//! contracts of `allocate_value`, `deallocate_value`, `Chunk::allocate`
//! and `Chunk::deallocate` establish.

use crate::chunk::{chunk_alloc_step, chunk_dealloc_step, initial_free_queue};
use crate::chunk::{Chunk, Value, CHUNK_SIZE};
use crate::pool::{alloc_step, dealloc_step, occupied, Pool};
use vstd::prelude::*;

verus! {

/// A trace of allocate calls with no deallocation in between:
/// `handles[k]` is the handle returned by the call that stores `values[k]`
/// and takes `pools[k]` to `pools[k + 1]`.
pub open spec fn alloc_trace(
    pools: Seq<Pool>,
    values: Seq<Value>,
    handles: Seq<(usize, usize)>,
) -> bool {
    &&& pools.len() == handles.len() + 1
    &&& values.len() == handles.len()
    &&& forall|k: int| 0 <= k <= handles.len() ==> (#[trigger] pools[k]).wf()
    &&& forall|k: int|
        0 <= k < handles.len() ==> alloc_step(pools[k], pools[k + 1], values[k], #[trigger] handles[k])
}

/// An allocate call hands out a handle whose slot was empty before the
/// call and holds the new value afterwards.
pub proof fn lemma_alloc_fresh_handle(pre: Pool, post: Pool, value: Value, h: (usize, usize))
    requires
        pre.wf(),
        alloc_step(pre, post, value, h),
    ensures
        !occupied(pre, h),
        occupied(post, h),
{
    if pre.free_set().is_empty() {
        assert(post.chunk_seq()[h.0 as int].slots()[0] == Some(value));
    } else {
        let q = pre.chunk_seq()[h.0 as int].free_queue();
        assert(q.contains(q[0]));
        assert(pre.chunk_seq()[h.0 as int].slots()[h.1 as int] is None);
        assert(post.chunk_seq()[h.0 as int].slots()[h.1 as int] == Some(value));
    }
}

/// An allocate call never disturbs a slot that is already occupied.
pub proof fn lemma_alloc_preserves_occupied(
    pre: Pool,
    post: Pool,
    value: Value,
    h: (usize, usize),
    other: (usize, usize),
)
    requires
        pre.wf(),
        alloc_step(pre, post, value, h),
        occupied(pre, other),
    ensures
        occupied(post, other),
{
    if !pre.free_set().is_empty() && other.0 == h.0 {
        assert(post.chunk_seq()[h.0 as int].slots()[other.1 as int] is Some);
    }
}

/// Along a trace of allocate calls, a slot occupied at one point is still
/// occupied at every later point.
pub proof fn lemma_trace_keeps_occupied(
    pools: Seq<Pool>,
    values: Seq<Value>,
    handles: Seq<(usize, usize)>,
    i: int,
    j: int,
    h: (usize, usize),
)
    requires
        alloc_trace(pools, values, handles),
        0 <= i <= j <= handles.len(),
        occupied(pools[i], h),
    ensures
        occupied(pools[j], h),
    decreases j - i,
{
    if i < j {
        lemma_alloc_preserves_occupied(pools[i], pools[i + 1], values[i], handles[i], h);
        lemma_trace_keeps_occupied(pools, values, handles, i + 1, j, h);
    }
}

/// Uniqueness: over any sequence of allocate calls without intervening
/// deallocation, all returned handles are pairwise distinct.
pub proof fn lemma_handles_distinct(
    pools: Seq<Pool>,
    values: Seq<Value>,
    handles: Seq<(usize, usize)>,
    i: int,
    j: int,
)
    requires
        alloc_trace(pools, values, handles),
        0 <= i < j < handles.len(),
    ensures
        handles[i] != handles[j],
{
    lemma_alloc_fresh_handle(pools[i], pools[i + 1], values[i], handles[i]);
    lemma_trace_keeps_occupied(pools, values, handles, i + 1, j, handles[i]);
    lemma_alloc_fresh_handle(pools[j], pools[j + 1], values[j], handles[j]);
}

/// Reuse correctness: after a handle is released and an allocation lands
/// on that same handle again, the slot holds exactly the newly allocated
/// value, never the old one.
pub proof fn lemma_reallocated_slot_holds_new_value(
    p0: Pool,
    p1: Pool,
    p2: Pool,
    c: usize,
    s: usize,
    value: Value,
)
    requires
        p0.wf(),
        p1.wf(),
        dealloc_step(p0, p1, c, s),
        alloc_step(p1, p2, value, (c, s)),
    ensures
        p2.chunk_seq()[c as int].slots()[s as int] == Some(value),
{
    if p1.free_set().is_empty() {
        assert(p2.chunk_seq()[c as int].slots()[0] == Some(value));
    } else {
        assert(c < p1.chunk_seq().len());
        assert(p1.chunk_seq()[c as int].wf());
        assert(p2.chunk_seq()[c as int].slots()[s as int] == Some(value));
    }
}

/// A trace of successful allocate calls on a single chunk.
pub open spec fn chunk_alloc_trace(cs: Seq<Chunk>, values: Seq<Value>, ps: Seq<usize>) -> bool {
    &&& cs.len() == ps.len() + 1
    &&& values.len() == ps.len()
    &&& forall|k: int|
        0 <= k < ps.len() ==> chunk_alloc_step(cs[k], cs[k + 1], values[k], #[trigger] ps[k])
}

/// Successive allocations on one chunk consume its free queue from the
/// head: the k-th allocation returns the k-th entry of the initial queue.
pub proof fn lemma_chunk_allocate_order(
    cs: Seq<Chunk>,
    values: Seq<Value>,
    ps: Seq<usize>,
    n: int,
)
    requires
        chunk_alloc_trace(cs, values, ps),
        0 <= n <= ps.len(),
        n <= cs[0].free_queue().len(),
    ensures
        forall|k: int| 0 <= k < n ==> #[trigger] ps[k] == cs[0].free_queue()[k],
        cs[n].free_queue() == cs[0].free_queue().subrange(n, cs[0].free_queue().len() as int),
    decreases n,
{
    let q = cs[0].free_queue();
    if n == 0 {
        assert(cs[0].free_queue() =~= q.subrange(0, q.len() as int));
    } else {
        lemma_chunk_allocate_order(cs, values, ps, n - 1);
        assert(chunk_alloc_step(cs[n - 1], cs[n], values[n - 1], ps[n - 1]));
        assert(ps[n - 1] == cs[n - 1].free_queue()[0]);
        assert(cs[n - 1].free_queue()[0] == q[n - 1]);
        assert(cs[n].free_queue() =~= q.subrange(n, q.len() as int));
    }
}

/// FIFO order within a chunk: if the occupied positions `p1` and then `p2`
/// are freed in that order, the allocations routed to that chunk after the
/// rest of its queue is consumed return `p1` first and `p2` next.
pub proof fn lemma_fifo_within_chunk(
    c0: Chunk,
    c1: Chunk,
    c2: Chunk,
    p1: usize,
    p2: usize,
    cs: Seq<Chunk>,
    values: Seq<Value>,
    ps: Seq<usize>,
)
    requires
        c0.wf(),
        p1 < CHUNK_SIZE,
        c0.slots()[p1 as int] is Some,
        chunk_dealloc_step(c0, c1, p1),
        p2 < CHUNK_SIZE,
        c1.slots()[p2 as int] is Some,
        chunk_dealloc_step(c1, c2, p2),
        chunk_alloc_trace(cs, values, ps),
        cs[0] == c2,
        ps.len() >= c0.free_queue().len() + 2,
    ensures
        ps[c0.free_queue().len() as int] == p1,
        ps[c0.free_queue().len() as int + 1] == p2,
{
    let k: int = c0.free_queue().len() as int;
    assert(c2.free_queue() =~= c0.free_queue().push(p1).push(p2));
    lemma_chunk_allocate_order(cs, values, ps, k + 2);
    assert(ps[k] == c2.free_queue()[k]);
    assert(ps[k + 1] == c2.free_queue()[k + 1]);
}

/// Filling an initially empty pool: the first allocations, up to
/// `CHUNK_SIZE` of them, all land in chunk 0 at positions 0, 1, 2, ... in
/// order, and leave the pool with that single chunk.
pub proof fn lemma_fill_from_empty(
    pools: Seq<Pool>,
    values: Seq<Value>,
    handles: Seq<(usize, usize)>,
    k: int,
)
    requires
        alloc_trace(pools, values, handles),
        pools[0].chunk_seq().len() == 0,
        0 <= k <= handles.len(),
        k <= CHUNK_SIZE,
    ensures
        forall|i: int| 0 <= i < k ==> #[trigger] handles[i] == (0usize, i as usize),
        k > 0 ==> pools[k].chunk_seq().len() == 1,
        k > 0 ==> pools[k].chunk_seq()[0].free_queue() == initial_free_queue().subrange(
            k,
            CHUNK_SIZE as int,
        ),
    decreases k,
{
    if k == 1 {
        assert(pools[0].free_set() =~= Set::<usize>::empty());
        assert(alloc_step(pools[0], pools[1], values[0], handles[0]));
        assert(handles[0] == (0usize, 0usize));
    } else if k > 1 {
        lemma_fill_from_empty(pools, values, handles, k - 1);
        let pre = pools[k - 1];
        let q = pre.chunk_seq()[0].free_queue();
        assert(q == initial_free_queue().subrange(k - 1, CHUNK_SIZE as int));
        assert(q.len() == CHUNK_SIZE - (k - 1));
        assert(pre.free_set().contains(0));
        assert(!pre.free_set().is_empty());
        assert(alloc_step(pools[k - 1], pools[k], values[k - 1], handles[k - 1]));
        let h = handles[k - 1];
        assert(pre.free_set().contains(h.0));
        assert(h.0 == 0);
        assert(q[0] == (k - 1) as usize);
        assert(h == (0usize, (k - 1) as usize));
        assert(pools[k].chunk_seq()[0].free_queue() =~= initial_free_queue().subrange(
            k,
            CHUNK_SIZE as int,
        ));
    }
}

/// Growth: allocating `CHUNK_SIZE + 1` values into an initially empty pool
/// with no deallocation in between leaves two chunks in the pool, and the
/// last handle names a different chunk than every earlier one.
pub proof fn lemma_growth(pools: Seq<Pool>, values: Seq<Value>, handles: Seq<(usize, usize)>)
    requires
        alloc_trace(pools, values, handles),
        pools[0].chunk_seq().len() == 0,
        handles.len() == CHUNK_SIZE + 1,
    ensures
        pools[handles.len() as int].chunk_seq().len() == 2,
        handles[CHUNK_SIZE as int] == (1usize, 0usize),
        forall|i: int|
            0 <= i < CHUNK_SIZE ==> (#[trigger] handles[i]).0 != handles[CHUNK_SIZE as int].0,
{
    lemma_fill_from_empty(pools, values, handles, CHUNK_SIZE as int);
    let full = pools[CHUNK_SIZE as int];
    assert(full.chunk_seq()[0].free_queue().len() == 0);
    assert(full.free_set() =~= Set::<usize>::empty());
    let last: int = CHUNK_SIZE as int;
    assert(alloc_step(full, pools[last + 1], values[last], handles[last]));
    assert(handles[CHUNK_SIZE as int] == (1usize, 0usize));
    assert forall|i: int|
        0 <= i < CHUNK_SIZE implies (#[trigger] handles[i]).0 != handles[CHUNK_SIZE as int].0 by {
        assert(handles[i] == (0usize, i as usize));
    }
}

/// A deallocate call with a chunk position outside the pool alters neither
/// the chunks nor the Free-Chunk Index, so every existing handle keeps its
/// contents.
pub proof fn lemma_invalid_handle_noop(pre: Pool, post: Pool, c: usize, p: usize)
    requires
        pre.wf(),
        dealloc_step(pre, post, c, p),
        c >= pre.chunk_seq().len(),
    ensures
        post.chunk_seq() == pre.chunk_seq(),
        post.free_set() == pre.free_set(),
{
}

} // verus!
