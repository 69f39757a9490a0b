//! Fixed-capacity pool of pre-allocated, equally sized byte buffers.
//!
//! The pool owns one flat backing store of `num_buffers * buffer_size`
//! bytes and a busy flag per slot. Allocating takes the first free slot and
//! sets its flag; releasing clears the flag. Two leases alive at the same
//! time always sit on different slots, so their byte ranges never overlap
//! (see [`lemma_buffers_disjoint`]).
use vstd::prelude::*;

use crate::bytes_buffer::{lemma_slot_range_in_arena, BytesBuffer};

verus! {

/// Why an allocation request was refused.
#[derive(Clone, Copy, Debug, PartialEq, Eq, Structural)]
pub enum Error {
    /// Every slot is leased out.
    NoBufferAvailable,
    /// The requested size exceeds the pool's buffer size.
    SizeTooBig,
}

/// The pool's storage: slot size, flat backing bytes, and one busy flag
/// per slot.
#[derive(Debug)]
pub struct InnerBufferPool {
    pub buffer_size: usize,
    pub buffers: Vec<u8>,
    pub buffer_busy: Vec<bool>,
}

impl InnerBufferPool {
    /// The backing store holds exactly one slot of `buffer_size` bytes per
    /// busy flag.
    pub open spec fn wf(self) -> bool {
        self.buffers@.len() == self.buffer_busy@.len() * self.buffer_size
    }

    pub open spec fn spec_num_buffers(self) -> nat {
        self.buffer_busy@.len()
    }

    pub fn buffer_size(&self) -> (r: usize)
        ensures
            r == self.buffer_size,
    {
        self.buffer_size
    }

    pub fn buffers(&self) -> (r: &Vec<u8>)
        ensures
            r@ == self.buffers@,
    {
        &self.buffers
    }
}

/// What a lease on one pool slot describes. The pool machinery only
/// needs the described size; byte-backed pools use [`BytesBuffer`], and
/// a pool backed by reusable serializer state would describe its leases
/// the same way.
pub trait InnerBuffer: Sized {
    /// How many of the slot's bytes the lease covers.
    spec fn spec_size(&self) -> nat;

    fn size(&self) -> (r: usize)
        ensures
            r == self.spec_size(),
    ;
}

impl InnerBuffer for BytesBuffer {
    open spec fn spec_size(&self) -> nat {
        self.size as nat
    }

    fn size(&self) -> usize {
        self.size
    }
}

/// A leased buffer: the index of the slot it owns and the lease
/// descriptor. Handles are neither copyable nor cloneable; the slot is
/// given back with [`BufferPool::free_buffer`].
#[derive(Debug)]
pub struct Buffer {
    pub index: usize,
    pub inner: BytesBuffer,
}

impl Buffer {
    pub fn len(&self) -> (r: usize)
        ensures
            r == self.inner.size,
    {
        self.inner.size
    }
}

/// Pool of equally sized byte buffers with per-slot busy flags.
#[derive(Debug)]
pub struct BufferPool {
    pub inner: InnerBufferPool,
}

impl BufferPool {
    pub open spec fn wf(self) -> bool {
        self.inner.wf()
    }

    pub open spec fn spec_num_buffers(self) -> nat {
        self.inner.spec_num_buffers()
    }

    pub open spec fn spec_buffer_size(self) -> usize {
        self.inner.buffer_size
    }

    /// A live lease: its slot exists, its flag is set, and its size fits a
    /// slot.
    pub open spec fn valid_buffer(self, b: Buffer) -> bool {
        b.index < self.spec_num_buffers() && b.inner.size <= self.inner.buffer_size
            && self.inner.buffer_busy@[b.index as int]
    }

    /// The bytes a lease covers.
    pub open spec fn buffer_view(self, b: Buffer) -> Seq<u8> {
        self.inner.buffers@.subrange(
            b.index * self.inner.buffer_size,
            b.index * self.inner.buffer_size + b.inner.size,
        )
    }

    /// Builds a pool of `num_buffers` zeroed buffers of `buffer_size`
    /// bytes each.
    pub fn new(buffer_size: usize, num_buffers: usize) -> (r: BufferPool)
        requires
            buffer_size * num_buffers <= usize::MAX,
        ensures
            r.wf(),
            r.spec_buffer_size() == buffer_size,
            r.spec_num_buffers() == num_buffers,
            forall|i: int| 0 <= i < num_buffers ==> !r.inner.buffer_busy@[i],
            forall|i: int| 0 <= i < r.inner.buffers@.len() ==> r.inner.buffers@[i] == 0u8,
    {
        proof {
            assert(buffer_size * num_buffers == num_buffers * buffer_size) by (nonlinear_arith);
        }
        let total: usize = buffer_size * num_buffers;
        let mut buffers: Vec<u8> = Vec::new();
        let mut i: usize = 0;
        while i < total
            invariant
                i <= total,
                buffers@.len() == i,
                forall|j: int| 0 <= j < i ==> buffers@[j] == 0u8,
            decreases total - i,
        {
            buffers.push(0);
            i = i + 1;
        }
        let mut buffer_busy: Vec<bool> = Vec::new();
        let mut k: usize = 0;
        while k < num_buffers
            invariant
                k <= num_buffers,
                buffer_busy@.len() == k,
                forall|j: int| 0 <= j < k ==> !buffer_busy@[j],
            decreases num_buffers - k,
        {
            buffer_busy.push(false);
            k = k + 1;
        }
        BufferPool { inner: InnerBufferPool { buffer_size, buffers, buffer_busy } }
    }

    /// Leases the first free slot for `size` bytes.
    ///
    /// Fails with `SizeTooBig` exactly when `size` exceeds the slot size,
    /// and with `NoBufferAvailable` exactly when every slot is busy; in
    /// both cases the pool is unchanged. On success the returned lease
    /// covers the first slot whose flag was clear; that flag is now set
    /// and nothing else changed, so every lease that was live before stays
    /// live and on a different slot than the new one.
    pub fn allocate_buffer(&mut self, size: usize) -> (r: Result<Buffer, Error>)
        requires
            old(self).wf(),
        ensures
            final(self).wf(),
            final(self).spec_buffer_size() == old(self).spec_buffer_size(),
            final(self).spec_num_buffers() == old(self).spec_num_buffers(),
            final(self).inner.buffers@ == old(self).inner.buffers@,
            size > old(self).spec_buffer_size() ==> r == Err::<Buffer, Error>(Error::SizeTooBig),
            size <= old(self).spec_buffer_size() && (forall|i: int|
                0 <= i < old(self).spec_num_buffers() ==> old(self).inner.buffer_busy@[i]) ==> r
                == Err::<Buffer, Error>(Error::NoBufferAvailable),
            size <= old(self).spec_buffer_size() && !(forall|i: int|
                0 <= i < old(self).spec_num_buffers() ==> old(self).inner.buffer_busy@[i]) ==> r
                is Ok,
            match r {
                Ok(b) => size <= old(self).spec_buffer_size() && b.inner.size == size && b.index
                    < old(self).spec_num_buffers() && !old(self).inner.buffer_busy@[b.index as int]
                    && (forall|i: int| 0 <= i < b.index ==> old(self).inner.buffer_busy@[i])
                    && final(self).inner.buffer_busy@ == old(self).inner.buffer_busy@.update(
                    b.index as int,
                    true,
                ) && final(self).valid_buffer(b),
                Err(_) => final(self).inner.buffer_busy@ == old(self).inner.buffer_busy@,
            },
    {
        if size > self.inner.buffer_size {
            return Err(Error::SizeTooBig);
        }
        let num: usize = self.inner.buffer_busy.len();
        let mut idx: usize = 0;
        while idx < num
            invariant
                num == self.spec_num_buffers(),
                idx <= num,
                size <= self.inner.buffer_size,
                self.wf(),
                self.inner.buffer_size == old(self).inner.buffer_size,
                self.inner.buffers@ == old(self).inner.buffers@,
                self.inner.buffer_busy@ == old(self).inner.buffer_busy@,
                forall|i: int| 0 <= i < idx ==> self.inner.buffer_busy@[i],
            decreases num - idx,
        {
            if !self.inner.buffer_busy[idx] {
                self.inner.buffer_busy[idx] = true;
                proof {
                    assert(self.inner.buffer_busy@ =~= old(self).inner.buffer_busy@.update(
                        idx as int,
                        true,
                    ));
                }
                return Ok(Buffer { index: idx, inner: BytesBuffer::new(size) });
            }
            idx = idx + 1;
        }
        Err(Error::NoBufferAvailable)
    }

    /// Gives a lease's slot back to the pool; the slot's bytes are kept as
    /// they are.
    pub fn free_buffer(&mut self, buffer: Buffer)
        requires
            old(self).wf(),
            old(self).valid_buffer(buffer),
        ensures
            final(self).wf(),
            final(self).spec_buffer_size() == old(self).spec_buffer_size(),
            final(self).spec_num_buffers() == old(self).spec_num_buffers(),
            final(self).inner.buffers@ == old(self).inner.buffers@,
            final(self).inner.buffer_busy@ == old(self).inner.buffer_busy@.update(
                buffer.index as int,
                false,
            ),
    {
        self.inner.buffer_busy[buffer.index] = false;
    }

    /// Fills the leased bytes from `data`, which must match the lease's
    /// size, as a slice copy does.
    pub fn buffer_copy_from_slice(&mut self, buffer: &Buffer, data: &Vec<u8>)
        requires
            old(self).wf(),
            old(self).valid_buffer(*buffer),
            data@.len() == buffer.inner.size,
        ensures
            final(self).wf(),
            final(self).spec_buffer_size() == old(self).spec_buffer_size(),
            final(self).spec_num_buffers() == old(self).spec_num_buffers(),
            final(self).inner.buffer_busy@ == old(self).inner.buffer_busy@,
            final(self).valid_buffer(*buffer),
            final(self).buffer_view(*buffer) == data@,
            forall|i: int|
                0 <= i < final(self).inner.buffers@.len() && !(buffer.index
                    * old(self).spec_buffer_size() <= i < buffer.index * old(
                    self,
                ).spec_buffer_size() + buffer.inner.size) ==> final(self).inner.buffers@[i] == old(
                    self,
                ).inner.buffers@[i],
    {
        let (start, end) = buffer.inner.buffer_bounds(&self.inner, buffer.index);
        let mut i: usize = 0;
        while i < data.len()
            invariant
                self.inner.buffer_size == old(self).inner.buffer_size,
                self.inner.buffer_busy@ == old(self).inner.buffer_busy@,
                self.inner.buffers@.len() == old(self).inner.buffers@.len(),
                data@.len() == buffer.inner.size,
                i <= data@.len(),
                start == buffer.index * self.inner.buffer_size,
                end == start + buffer.inner.size,
                end <= self.inner.buffers@.len(),
                forall|j: int| 0 <= j < i ==> self.inner.buffers@[start + j] == data@[j],
                forall|j: int|
                    0 <= j < self.inner.buffers@.len() && !(start <= j < start + i)
                        ==> self.inner.buffers@[j] == old(self).inner.buffers@[j],
            decreases data@.len() - i,
        {
            self.inner.buffers[start + i] = data[i];
            i = i + 1;
        }
        proof {
            assert(self.buffer_view(*buffer) =~= data@);
        }
    }

    /// Copies the leased bytes out into a fresh vector.
    pub fn buffer_to_vec(&self, buffer: &Buffer) -> (r: Vec<u8>)
        requires
            self.wf(),
            self.valid_buffer(*buffer),
        ensures
            r@ == self.buffer_view(*buffer),
    {
        let (start, end) = buffer.inner.buffer_bounds(&self.inner, buffer.index);
        let mut out: Vec<u8> = Vec::new();
        let mut i: usize = start;
        while i < end
            invariant
                start == buffer.index * self.inner.buffer_size,
                end == start + buffer.inner.size,
                end <= self.inner.buffers@.len(),
                start <= i <= end,
                out@ =~= self.inner.buffers@.subrange(start as int, i as int),
            decreases end - i,
        {
            out.push(self.inner.buffers[i]);
            i = i + 1;
        }
        proof {
            assert(out@ =~= self.buffer_view(*buffer));
        }
        out
    }
}

/// Pool allocations never alias: two leases on different slots cover
/// disjoint byte ranges of the backing store. Together with
/// [`BufferPool::allocate_buffer`]'s promise that the slot it hands out
/// was not busy — while every live lease's slot is busy — any two leases
/// alive at the same time sit on different slots, so their ranges are
/// disjoint and each one's bytes stay valid until it is freed.
pub proof fn lemma_buffers_disjoint(pool: BufferPool, b1: Buffer, b2: Buffer)
    requires
        pool.wf(),
        pool.valid_buffer(b1),
        pool.valid_buffer(b2),
        b1.index != b2.index,
    ensures
        b1.index * pool.spec_buffer_size() + b1.inner.size <= b2.index * pool.spec_buffer_size()
            || b2.index * pool.spec_buffer_size() + b2.inner.size <= b1.index
            * pool.spec_buffer_size(),
{
    let size = pool.spec_buffer_size() as int;
    if b1.index < b2.index {
        assert(b1.index * size + b1.inner.size <= b2.index * size) by (nonlinear_arith)
            requires
                0 <= b1.inner.size <= size,
                b1.index < b2.index,
                b1.index >= 0,
        ;
    } else {
        assert(b2.index * size + b2.inner.size <= b1.index * size) by (nonlinear_arith)
            requires
                0 <= b2.inner.size <= size,
                b2.index < b1.index,
                b2.index >= 0,
        ;
    }
}

} // verus!
