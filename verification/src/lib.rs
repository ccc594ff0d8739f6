//! A two-level, fixed-capacity-block slot allocator.
//!
//! Values are stored in a growable pool of equal-size chunks.  Each chunk
//! holds a bounded array of optional payload slots together with a FIFO
//! queue of the positions that are currently empty, and a pool-wide index
//! tracks which chunks still have spare capacity.  `allocate_value` hands
//! out `(chunk position, slot position)` handles; `deallocate_value`
//! releases them again.

pub mod chunk;
pub mod free_index;
pub mod laws;
pub mod pool;
