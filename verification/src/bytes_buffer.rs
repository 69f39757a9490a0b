//! Per-slot descriptor of a leased byte buffer.
use vstd::prelude::*;

use crate::buffer_pool::InnerBufferPool;

verus! {

/// Describes a lease on one slot of a byte-backed pool: how many of the
/// slot's bytes the lease covers.
#[derive(Clone, Copy, Debug, PartialEq, Eq, Structural)]
pub struct BytesBuffer {
    pub size: usize,
}

impl BytesBuffer {
    pub fn new(size: usize) -> (r: BytesBuffer)
        ensures
            r.size == size,
    {
        BytesBuffer { size }
    }

    /// The byte range that a lease of this size on slot `index` covers
    /// inside the pool's backing storage.
    pub fn buffer_bounds(&self, pool: &InnerBufferPool, index: usize) -> (r: (usize, usize))
        requires
            pool.wf(),
            index < pool.spec_num_buffers(),
            self.size <= pool.buffer_size,
        ensures
            r.0 == index * pool.buffer_size,
            r.1 == index * pool.buffer_size + self.size,
            r.1 <= pool.buffers@.len(),
    {
        let arena_len: usize = pool.buffers().len();
        proof {
            lemma_slot_range_in_arena(
                pool.buffer_size as int,
                pool.spec_num_buffers() as int,
                index as int,
                self.size as int,
            );
            assert(pool.buffer_size * index == index * pool.buffer_size) by (nonlinear_arith);
        }
        let buffer_start: usize = pool.buffer_size() * index;
        let buffer_end: usize = buffer_start + self.size;
        (buffer_start, buffer_end)
    }
}

/// A lease of at most one slot's size on a slot below the pool's count
/// stays inside the backing storage of `num` slots of `size` bytes.
pub proof fn lemma_slot_range_in_arena(size: int, num: int, index: int, lease: int)
    requires
        size >= 0,
        0 <= index < num,
        0 <= lease <= size,
    ensures
        index * size + lease <= num * size,
        index * size >= 0,
{
    assert(index * size + lease <= num * size) by (nonlinear_arith)
        requires
            size >= 0,
            0 <= index < num,
            0 <= lease <= size,
    ;
    assert(index * size >= 0) by (nonlinear_arith)
        requires
            size >= 0,
            index >= 0,
    ;
}

} // verus!
