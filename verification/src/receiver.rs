//! The decisions of a receiver: when it fetches the next chunk of the file,
//! and how far into the file it has read.
use vstd::prelude::*;

verus! {

/// A receiver's position in the file and whether a fetch of the next
/// chunk is running.
pub struct Inner {
    capacity: usize,
    offset: u64,
    fetching: bool,
}

impl Inner {
    /// The most bytes one fetch asks for.
    pub closed spec fn spec_capacity(&self) -> usize {
        self.capacity
    }

    /// How many bytes of the file the receiver has read.
    pub closed spec fn spec_offset(&self) -> u64 {
        self.offset
    }

    /// Whether a fetch is running.
    pub closed spec fn busy(&self) -> bool {
        self.fetching
    }

    /// A receiver at the start of the file.
    pub fn new(capacity: usize) -> (r: Self)
        ensures
            r.spec_capacity() == capacity,
            r.spec_offset() == 0,
            !r.busy(),
    {
        Inner { capacity, offset: 0, fetching: false }
    }

    /// How many bytes of the file the receiver has read.
    pub fn offset(&self) -> (o: u64)
        ensures
            o == self.spec_offset(),
    {
        self.offset
    }

    /// Whether a fetch is running.
    pub fn is_busy(&self) -> (b: bool)
        ensures
            b == self.busy(),
    {
        self.fetching
    }

    /// Starts a fetch unless one runs: the caller reads up to the returned
    /// number of bytes of the file at the returned offset, then reports
    /// with `finish`.
    pub fn start(&mut self) -> (fetch: Option<(usize, u64)>)
        ensures
            final(self).busy(),
            final(self).spec_capacity() == old(self).spec_capacity(),
            final(self).spec_offset() == old(self).spec_offset(),
            fetch == if old(self).busy() {
                None
            } else {
                Some((old(self).spec_capacity(), old(self).spec_offset()))
            },
    {
        if self.fetching {
            None
        } else {
            self.fetching = true;
            Some((self.capacity, self.offset))
        }
    }

    /// The running fetch ended: it read `n` bytes, or failed with `n` zero.
    /// The offset advances by `n`. Returns whether the chunk is handed out:
    /// an empty one is skipped, and the receiver looks again.
    pub fn finish(&mut self, n: usize) -> (hand_out: bool)
        requires
            old(self).busy(),
            old(self).spec_offset() + n <= u64::MAX,
        ensures
            !final(self).busy(),
            final(self).spec_capacity() == old(self).spec_capacity(),
            final(self).spec_offset() == old(self).spec_offset() + n,
            hand_out == (n > 0),
    {
        self.offset = self.offset + n as u64;
        self.fetching = false;
        n > 0
    }
}

impl Clone for Inner {
    /// A receiver at the same offset; a running fetch is not shared.
    fn clone(&self) -> (r: Self)
        ensures
            r.spec_capacity() == self.spec_capacity(),
            r.spec_offset() == self.spec_offset(),
            !r.busy(),
    {
        Inner { capacity: self.capacity, offset: self.offset, fetching: false }
    }
}

} // verus!
