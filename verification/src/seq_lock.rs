//! Sequence-counted protection for small copyable values.
//!
//! The writer bumps the counter to an odd value while it writes and back
//! to even when done; a reader retries when the counter was odd or moved
//! during its read. Here the protocol is modeled with exclusive access:
//! the counter is even between calls, a write advances it by two, and a
//! read can prove that no concurrent write intervened.
use vstd::prelude::*;

verus! {

/// A value guarded by a sequence counter; even means quiescent.
#[derive(Debug)]
pub struct SeqLock<T> {
    pub value: T,
    pub seq_count: usize,
}

impl<T: Copy> SeqLock<T> {
    /// Quiescent between calls: no write is in progress.
    pub open spec fn wf(self) -> bool {
        self.seq_count % 2 == 0
    }

    pub fn new(value: T) -> (r: SeqLock<T>)
        ensures
            r.wf(),
            r.value == value,
            r.seq_count == 0,
    {
        SeqLock { value, seq_count: 0 }
    }

    /// Waits until no write is in progress and returns the counter, which
    /// is then even.
    pub fn wait_released(&self) -> (r: usize)
        requires
            self.wf(),
        ensures
            r == self.seq_count,
            r % 2 == 0,
    {
        self.seq_count
    }

    /// Reports whether a write started or completed since the counter was
    /// read as `prev_count`: `None` means the read was consistent.
    pub fn check_concurrent_write(&self, prev_count: usize) -> (r: Option<()>)
        requires
            prev_count % 2 == 0,
        ensures
            r is None <==> prev_count == self.seq_count,
    {
        if prev_count == self.seq_count {
            None
        } else {
            Some(())
        }
    }

    /// Reads the guarded value, retrying on a concurrent write; with
    /// exclusive access the first attempt is always consistent.
    pub fn read(&self) -> (r: T)
        requires
            self.wf(),
        ensures
            r == self.value,
    {
        let count: usize = self.wait_released();
        let value: T = self.value;
        match self.check_concurrent_write(count) {
            None => value,
            Some(()) => {
                proof {
                    assert(false);
                }
                value
            },
        }
    }

    /// Replaces the guarded value; the counter passes through an odd
    /// value and lands exactly two higher, wrapping around like the
    /// atomic counter it stands for.
    pub fn write(&mut self, value: T)
        requires
            old(self).wf(),
        ensures
            final(self).wf(),
            final(self).value == value,
            final(self).seq_count == if old(self).seq_count + 2 <= usize::MAX {
                old(self).seq_count + 2
            } else {
                0int
            },
    {
        let entered: usize = self.seq_count.wrapping_add(1);
        self.seq_count = entered;
        self.value = value;
        self.seq_count = entered.wrapping_add(1);
    }
}

} // verus!
