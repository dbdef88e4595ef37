//! The ring buffer that the file reader and writer stage bytes in.
use vstd::prelude::*;

verus! {

/// A ring buffer of bytes with a fixed capacity, as the file reader fills
/// it from the file and the file writer drains it into the file.
pub struct Buf {
    inner: crate::buf::Buf,
}

impl View for Buf {
    type V = Seq<u8>;

    /// The filled bytes, oldest first.
    closed spec fn view(&self) -> Seq<u8> {
        self.inner@
    }
}

impl Buf {
    /// The buffer's capacity.
    pub closed spec fn cap(&self) -> nat {
        self.inner.cap()
    }

    /// The spare room, in the order in which it is filled.
    pub closed spec fn spare(&self) -> Seq<u8> {
        self.inner.spare()
    }

    /// The internal invariant of the ring buffer.
    pub closed spec fn wf(&self) -> bool {
        self.inner.wf()
    }

    /// Where in the storage the oldest filled byte sits.
    pub closed spec fn head(&self) -> nat {
        self.inner.head()
    }

    /// How many of the filled bytes lie before the end of the storage:
    /// the length of the first slice that `as_slices` returns.
    pub open spec fn front_len(&self) -> nat {
        if self@.len() + self.head() < self.cap() {
            self@.len()
        } else {
            (self.cap() - self.head()) as nat
        }
    }

    /// How much of the spare room lies before the end of the storage:
    /// the length of the first slice that `spare_capacity_mut` returns.
    pub open spec fn spare_front_len(&self) -> nat {
        if self@.len() + self.head() < self.cap() {
            (self.cap() - self.head() - self@.len()) as nat
        } else {
            (self.cap() - self@.len()) as nat
        }
    }

    /// Creates an empty buffer that can hold `capacity` bytes.
    pub fn with_capacity(capacity: usize) -> (buf: Self)
        ensures
            buf.wf(),
            buf@ == Seq::<u8>::empty(),
            buf.cap() == capacity,
            buf.head() == 0,
    {
        Buf { inner: crate::buf::Buf::with_capacity(capacity) }
    }

    /// The filled bytes as two slices, oldest first: the part up to the
    /// end of the storage, then the part that wrapped around to its start.
    pub fn as_slices(&self) -> (ret: (&[u8], &[u8]))
        requires
            self.wf(),
        ensures
            ret.0@ + ret.1@ == self@,
            self.front_len() <= self@.len(),
            ret.0@.len() == 0 ==> ret.1@.len() == 0,
            ret.0@ == self@.take(self.front_len() as int),
            ret.1@ == self@.skip(self.front_len() as int),
    {
        self.inner.filled()
    }

    /// The spare room as two writable slices, in the order in which it is
    /// filled. Provided the slices keep their lengths, whatever is written
    /// there becomes the spare room's contents and the filled bytes stay.
    pub fn spare_capacity_mut(&mut self) -> (ret: (&mut [u8], &mut [u8]))
        requires
            old(self).wf(),
        ensures
            ret.0@ + ret.1@ == old(self).spare(),
            ret.0@.len() + ret.1@.len() == old(self).cap() - old(self)@.len(),
            ret.0@.len() == old(self).spare_front_len(),
            ret.0@.len() == 0 ==> ret.1@.len() == 0,
            final(ret.0)@.len() == ret.0@.len() && final(ret.1)@.len() == ret.1@.len() ==> {
                &&& final(self).wf()
                &&& final(self).cap() == old(self).cap()
                &&& final(self)@ == old(self)@
                &&& final(self).head() == old(self).head()
                &&& final(self).spare() == final(ret.0)@ + final(ret.1)@
            },
    {
        self.inner.unfilled_mut()
    }

    /// Drops the `amt` oldest filled bytes.
    pub fn consume(&mut self, amt: usize)
        requires
            old(self).wf(),
            amt <= old(self)@.len(),
        ensures
            final(self).wf(),
            final(self).cap() == old(self).cap(),
            final(self)@ == old(self)@.skip(amt as int),
            final(self).spare() == old(self).spare() + old(self)@.take(amt as int),
            amt >= old(self).front_len() ==> final(self).front_len() == final(self)@.len(),
            final(self).head() == if old(self).head() + amt < old(self).cap() {
                old(self).head() + amt
            } else {
                old(self).head() + amt - old(self).cap()
            },
    {
        self.inner.consume(amt)
    }

    /// Marks the first `n` bytes of the spare room as filled.
    pub fn set_init(&mut self, n: usize)
        requires
            old(self).wf(),
            n <= old(self).cap() - old(self)@.len(),
        ensures
            final(self).wf(),
            final(self).cap() == old(self).cap(),
            final(self)@ == old(self)@ + old(self).spare().take(n as int),
            final(self).spare() == old(self).spare().skip(n as int),
            final(self).head() == old(self).head(),
    {
        self.inner.advance(n)
    }

    /// The number of bytes the buffer can hold.
    pub fn capacity(&self) -> (n: usize)
        requires
            self.wf(),
        ensures
            n == self.cap(),
    {
        self.inner.capacity()
    }

    /// Whether no byte is filled.
    pub fn is_empty(&self) -> (b: bool)
        requires
            self.wf(),
        ensures
            b <==> self@.len() == 0,
    {
        self.inner.is_empty()
    }

    /// The number of filled bytes.
    pub fn len(&self) -> (n: usize)
        requires
            self.wf(),
        ensures
            n == self@.len(),
            n <= self.cap(),
    {
        self.inner.len()
    }

    /// Appends `other` after the filled bytes.
    pub fn extend_from_slice(&mut self, other: &[u8])
        requires
            old(self).wf(),
            old(self)@.len() + other@.len() <= old(self).cap(),
        ensures
            final(self).wf(),
            final(self).cap() == old(self).cap(),
            final(self)@ == old(self)@ + other@,
            final(self).spare() == old(self).spare().skip(other@.len() as int),
            final(self).head() == old(self).head(),
    {
        self.inner.extend_from_slice(other)
    }
}

/// The filled bytes and the spare room always make up the whole capacity.
pub proof fn lemma_filled_and_spare_fill_capacity(b: Buf)
    requires
        b.wf(),
    ensures
        b@.len() + b.spare().len() == b.cap(),
        b@.len() <= b.cap(),
        b.cap() <= usize::MAX,
        b.head() < b.cap() || b.head() == 0,
{
    crate::buf::lemma_filled_and_spare_fill_capacity(b.inner);
}

impl Clone for Buf {
    /// A buffer with the same capacity, contents and spare room.
    fn clone(&self) -> (r: Self)
        ensures
            self.wf() ==> {
                &&& r.wf()
                &&& r@ == self@
                &&& r.cap() == self.cap()
                &&& r.head() == self.head()
                &&& r.spare() == self.spare()
            },
    {
        Buf { inner: self.inner.clone() }
    }
}

} // verus!
