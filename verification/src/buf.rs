//! A fixed-capacity ring buffer of bytes.
use vstd::prelude::*;

verus! {

/// A ring buffer of bytes with a fixed capacity.
///
/// The filled bytes start at `offset` and run for `len` bytes, wrapping
/// around the end of `data`; the rest of `data` is spare room.
pub struct Buf {
    data: Vec<u8>,
    offset: usize,
    len: usize,
}

impl View for Buf {
    type V = Seq<u8>;

    /// The filled bytes, oldest first.
    closed spec fn view(&self) -> Seq<u8> {
        Seq::new(self.len as nat, |i: int| self.data@[self.phys(i)])
    }
}

impl Buf {
    /// The buffer's capacity.
    pub closed spec fn cap(&self) -> nat {
        self.data@.len()
    }

    /// The index into `data` of the byte at logical position `i`, counted
    /// from the oldest filled byte, for `0 <= i < 2 * capacity - offset`.
    spec fn phys(&self, i: int) -> int {
        if self.offset + i < self.data@.len() {
            self.offset + i
        } else {
            self.offset + i - self.data@.len()
        }
    }

    /// The logical position of the storage index `k`, the inverse of `phys`.
    spec fn logical(&self, k: int) -> int {
        if k >= self.offset {
            k - self.offset
        } else {
            k + self.data@.len() - self.offset
        }
    }

    /// The spare room, in the order in which it is filled.
    pub closed spec fn spare(&self) -> Seq<u8> {
        Seq::new((self.data@.len() - self.len) as nat, |i: int| self.data@[self.phys(self.len + i)])
    }

    /// The internal invariant of the ring buffer.
    pub closed spec fn wf(&self) -> bool {
        &&& self.offset < self.data@.len() || self.offset == 0
        &&& self.len <= self.data@.len()
        &&& self.data@.len() <= usize::MAX
    }

    /// Creates an empty buffer that can hold `capacity` bytes.
    pub fn with_capacity(capacity: usize) -> (buf: Self)
        ensures
            buf.wf(),
            buf@ == Seq::<u8>::empty(),
            buf.cap() == capacity,
            buf.head() == 0,
    {
        let data: Vec<u8> = vec![0u8; capacity];
        Buf { data, offset: 0, len: 0 }
    }

    /// The number of bytes the buffer can hold.
    pub fn capacity(&self) -> (n: usize)
        requires
            self.wf(),
        ensures
            n == self.cap(),
    {
        self.data.len()
    }

    /// Whether no byte is filled.
    pub fn is_empty(&self) -> (b: bool)
        requires
            self.wf(),
        ensures
            b <==> self@.len() == 0,
    {
        self.len == 0
    }

    /// Where in the storage the oldest filled byte sits.
    pub closed spec fn head(&self) -> nat {
        self.offset as nat
    }

    /// How many of the filled bytes lie before the end of the storage:
    /// the length of the first slice that `filled` returns.
    pub open spec fn front_len(&self) -> nat {
        if self@.len() + self.head() < self.cap() {
            self@.len()
        } else {
            (self.cap() - self.head()) as nat
        }
    }

    /// How much of the spare room lies before the end of the storage:
    /// the length of the first slice that `unfilled_mut` returns.
    pub open spec fn spare_front_len(&self) -> nat {
        if self@.len() + self.head() < self.cap() {
            (self.cap() - self.head() - self@.len()) as nat
        } else {
            (self.cap() - self@.len()) as nat
        }
    }

    /// The index into the storage of logical position `i`.
    fn wrap_index(&self, i: usize) -> (p: usize)
        requires
            self.wf(),
            i < 2 * self.data@.len() - self.offset,
        ensures
            p == self.phys(i as int),
    {
        let cap = self.data.len();
        if i < cap - self.offset {
            self.offset + i
        } else {
            i - (cap - self.offset)
        }
    }

    /// The filled bytes as two slices, oldest first: the part up to the
    /// end of the storage, then the part that wrapped around to its start.
    pub fn filled(&self) -> (ret: (&[u8], &[u8]))
        requires
            self.wf(),
        ensures
            ret.0@ + ret.1@ == self@,
            self.front_len() <= self@.len(),
            ret.0@.len() == 0 ==> ret.1@.len() == 0,
            ret.0@ == self@.take(self.front_len() as int),
            ret.1@ == self@.skip(self.front_len() as int),
    {
        let cap = self.data.len();
        let s = self.data.as_slice();
        if self.len < cap - self.offset {
            let (d, _) = s.split_at(self.offset + self.len);
            let (_, d1) = d.split_at(self.offset);
            let d2: &[u8] = &[];
            assert(d1@ =~= self@.take(self.front_len() as int));
            assert(d2@ =~= self@.skip(self.front_len() as int));
            assert(d1@ + d2@ =~= self@);
            (d1, d2)
        } else {
            let (d, d2) = s.split_at(self.offset);
            let (d0, _) = d.split_at(self.len - (cap - self.offset));
            assert(d2@ =~= self@.take(self.front_len() as int));
            assert(d0@ =~= self@.skip(self.front_len() as int));
            assert(d2@ + d0@ =~= self@);
            (d2, d0)
        }
    }

    /// The spare room as two writable slices, in the order in which it is
    /// filled: the part up to the end of the storage, then the part at its
    /// start. Whatever is written there becomes the spare room's contents;
    /// the filled bytes stay as they are.
    pub fn unfilled_mut(&mut self) -> (ret: (&mut [u8], &mut [u8]))
        requires
            old(self).wf(),
        ensures
            ret.0@ + ret.1@ == old(self).spare(),
            ret.0@.len() + ret.1@.len() == old(self).cap() - old(self)@.len(),
            ret.0@.len() == old(self).spare_front_len(),
            ret.0@.len() == 0 ==> ret.1@.len() == 0,
            final(ret.0)@.len() == ret.0@.len() && final(ret.1)@.len() == ret.1@.len() ==> {
                &&& final(self).wf()
                &&& final(self).cap() == old(self).cap()
                &&& final(self)@ == old(self)@
                &&& final(self).head() == old(self).head()
                &&& final(self).spare() == final(ret.0)@ + final(ret.1)@
            },
    {
        let cap = self.data.len();
        let offset = self.offset;
        let len = self.len;
        let s = self.data.as_mut_slice();
        if len < cap - offset {
            let (d, d2) = s.split_at_mut(offset + len);
            let (d0, _) = d.split_at_mut(offset);
            (d2, d0)
        } else {
            let (d, _) = s.split_at_mut(offset);
            let (_, d1) = d.split_at_mut(len - (cap - offset));
            let e: &mut [u8] = &mut [];
            (d1, e)
        }
    }

    /// Drops the `amt` oldest filled bytes.
    pub fn consume(&mut self, amt: usize)
        requires
            old(self).wf(),
            amt <= old(self)@.len(),
        ensures
            final(self).wf(),
            final(self).cap() == old(self).cap(),
            final(self)@ == old(self)@.skip(amt as int),
            final(self).spare() == old(self).spare() + old(self)@.take(amt as int),
            amt >= old(self).front_len() ==> final(self).front_len() == final(self)@.len(),
            final(self).head() == if old(self).head() + amt < old(self).cap() {
                old(self).head() + amt
            } else {
                old(self).head() + amt - old(self).cap()
            },
    {
        let cap = self.data.len();
        if amt >= cap - self.offset {
            self.offset = amt - (cap - self.offset);
        } else {
            self.offset = self.offset + amt;
        }
        self.len = self.len - amt;
        assert(self@ =~= old(self)@.skip(amt as int));
        assert(self.spare() =~= old(self).spare() + old(self)@.take(amt as int));
    }

    /// Marks the first `n` bytes of the spare room as filled.
    pub fn advance(&mut self, n: usize)
        requires
            old(self).wf(),
            n <= old(self).cap() - old(self)@.len(),
        ensures
            final(self).wf(),
            final(self).cap() == old(self).cap(),
            final(self)@ == old(self)@ + old(self).spare().take(n as int),
            final(self).spare() == old(self).spare().skip(n as int),
            final(self).head() == old(self).head(),
    {
        self.len = self.len + n;
        assert(self@ =~= old(self)@ + old(self).spare().take(n as int));
        assert(self.spare() =~= old(self).spare().skip(n as int));
    }

    /// Appends `other` after the filled bytes.
    pub fn extend_from_slice(&mut self, other: &[u8])
        requires
            old(self).wf(),
            old(self)@.len() + other@.len() <= old(self).cap(),
        ensures
            final(self).wf(),
            final(self).cap() == old(self).cap(),
            final(self)@ == old(self)@ + other@,
            final(self).spare() == old(self).spare().skip(other@.len() as int),
            final(self).head() == old(self).head(),
    {
        let n = other.len();
        let mut i: usize = 0;
        while i < n
            invariant
                self.wf(),
                self.offset == old(self).offset,
                self.len == old(self).len,
                self.data@.len() == old(self).data@.len(),
                n == other@.len(),
                i <= n,
                self.len + n <= self.data@.len(),
                forall|k: int|
                    0 <= k < self.data@.len() && self.len <= self.logical(k) < self.len + i
                    ==> #[trigger] self.data@[k] == other@[self.logical(k) - self.len],
                forall|k: int|
                    0 <= k < self.data@.len() && !(self.len <= self.logical(k) < self.len + i)
                    ==> #[trigger] self.data@[k] == old(self).data@[k],
            decreases n - i,
        {
            let p = self.wrap_index(self.len + i);
            self.data[p] = other[i];
            i = i + 1;
        }
        proof {
            assert forall|t: int| 0 <= t < self.data@.len() implies #[trigger] self.logical(self.phys(t)) == t
                && 0 <= self.phys(t) < self.data@.len() by {}
        }
        self.len = self.len + n;
        assert(self@ =~= old(self)@ + other@) by {
            assert forall|t: int| 0 <= t < self.len implies self@[t] == (old(self)@ + other@)[t] by {
                assert(old(self).logical(old(self).phys(t)) == t);
            }
        }
        assert(self.spare() =~= old(self).spare().skip(n as int));
    }

    /// The number of filled bytes.
    pub fn len(&self) -> (n: usize)
        requires
            self.wf(),
        ensures
            n == self@.len(),
            n <= self.cap(),
    {
        self.len
    }
}

/// The filled bytes and the spare room always make up the whole capacity.
pub proof fn lemma_filled_and_spare_fill_capacity(b: Buf)
    requires
        b.wf(),
    ensures
        b@.len() + b.spare().len() == b.cap(),
        b@.len() <= b.cap(),
        b.cap() <= usize::MAX,
        b.head() < b.cap() || b.head() == 0,
{
}

impl Clone for Buf {
    /// A buffer with the same capacity, contents and spare room.
    fn clone(&self) -> (r: Self)
        ensures
            self.wf() ==> {
                &&& r.wf()
                &&& r@ == self@
                &&& r.cap() == self.cap()
                &&& r.head() == self.head()
                &&& r.spare() == self.spare()
            },
    {
        let data = self.data.clone();
        proof {
            assert(data@ =~= self.data@);
        }
        Buf { data, offset: self.offset, len: self.len }
    }
}

impl Default for Buf {
    /// An empty buffer of capacity zero.
    fn default() -> (r: Self)
        ensures
            r.wf(),
            r@ == Seq::<u8>::empty(),
            r.cap() == 0,
            r.head() == 0,
    {
        Buf::with_capacity(0)
    }
}

} // verus!
