//! The decisions of a sender: how items gather in its buffer, when the
//! buffer goes out to be written to the file, and how far it has written.
use vstd::prelude::*;

verus! {

/// A sender's position in the file and the bytes it holds unwritten.
pub struct Inner {
    capacity: usize,
    offset: u64,
    buf: Option<Vec<u8>>,
    writing: bool,
    written: Ghost<Seq<u8>>,
    accepted: Ghost<Seq<u8>>,
}

impl Inner {
    /// How many bytes the sender gathers before it writes them out.
    pub closed spec fn spec_capacity(&self) -> usize {
        self.capacity
    }

    /// How many bytes the sender has written to the file.
    pub closed spec fn spec_offset(&self) -> u64 {
        self.offset
    }

    /// Whether a write of the buffer runs.
    pub closed spec fn busy(&self) -> bool {
        self.writing
    }

    /// Whether the sender holds a buffer (made on its first item).
    pub closed spec fn holds_buf(&self) -> bool {
        self.buf is Some
    }

    /// The bytes gathered and not yet written, oldest first; while a write
    /// runs, these are the bytes it writes.
    pub closed spec fn pending(&self) -> Seq<u8> {
        match self.buf {
            Some(b) => b@,
            None => Seq::empty(),
        }
    }

    /// Every byte written to the file, in order.
    pub closed spec fn written(&self) -> Seq<u8> {
        self.written@
    }

    /// Every byte the sender took in, in order, less those a lost write
    /// took with it.
    pub closed spec fn accepted(&self) -> Seq<u8> {
        self.accepted@
    }

    /// The internal invariant of the sender: the bytes written and then
    /// the bytes pending are the bytes it took in, and the offset counts
    /// those written.
    pub closed spec fn wf(&self) -> bool {
        &&& self.written@ + self.pending() == self.accepted@
        &&& self.offset == self.written@.len()
    }

    /// A sender at the start of the file, holding nothing.
    pub fn new(capacity: usize) -> (s: Self)
        ensures
            s.wf(),
            s.spec_capacity() == capacity,
            s.spec_offset() == 0,
            !s.busy(),
            !s.holds_buf(),
            s.pending() == Seq::<u8>::empty(),
            s.accepted() == Seq::<u8>::empty(),
    {
        Inner {
            capacity,
            offset: 0,
            buf: None,
            writing: false,
            written: Ghost(Seq::empty()),
            accepted: Ghost(Seq::empty()),
        }
    }

    /// How many bytes the sender has written to the file.
    pub fn offset(&self) -> (o: u64)
        ensures
            o == self.spec_offset(),
    {
        self.offset
    }

    /// How many bytes are gathered and not yet written.
    pub fn pending_len(&self) -> (n: usize)
        ensures
            n == self.pending().len(),
    {
        match &self.buf {
            Some(b) => b.len(),
            None => 0,
        }
    }

    /// Whether a write of the buffer runs.
    pub fn is_busy(&self) -> (b: bool)
        ensures
            b == self.busy(),
    {
        self.writing
    }

    /// Starts writing the buffer, when no write runs, a buffer is held,
    /// and it holds at least `min_len` bytes: returns a copy of its bytes
    /// and the offset to write them at.
    fn spawn(&mut self, min_len: usize) -> (store: Option<(Vec<u8>, u64)>)
        requires
            old(self).wf(),
        ensures
            final(self).wf(),
            final(self).spec_capacity() == old(self).spec_capacity(),
            final(self).spec_offset() == old(self).spec_offset(),
            final(self).pending() == old(self).pending(),
            final(self).holds_buf() == old(self).holds_buf(),
            final(self).written() == old(self).written(),
            final(self).accepted() == old(self).accepted(),
            ({
                let go = !old(self).busy() && old(self).holds_buf() && old(self).pending().len()
                    >= min_len;
                &&& go ==> (store matches Some((b, off)) && b@ == old(self).pending()
                    && off == old(self).spec_offset())
                &&& go ==> final(self).busy()
                &&& !go ==> store is None && final(self).busy() == old(self).busy()
            }),
    {
        if self.writing {
            return None;
        }
        match &self.buf {
            Some(buf) => {
                if buf.len() >= min_len {
                    let copy = buf.clone();
                    proof {
                        assert(copy@ =~= buf@);
                    }
                    self.writing = true;
                    Some((copy, self.offset))
                } else {
                    None
                }
            },
            None => None,
        }
    }

    /// Gathers `item` after the bytes held. Once the sender holds at least
    /// its capacity, a write of all of them starts at the returned offset.
    pub fn start_send(&mut self, item: &[u8]) -> (store: Option<(Vec<u8>, u64)>)
        requires
            old(self).wf(),
            !old(self).busy(),
        ensures
            final(self).wf(),
            final(self).spec_capacity() == old(self).spec_capacity(),
            final(self).spec_offset() == old(self).spec_offset(),
            final(self).holds_buf(),
            final(self).written() == old(self).written(),
            final(self).accepted() == old(self).accepted() + item@,
            final(self).pending() == old(self).pending() + item@,
            ({
                let gathered = old(self).pending() + item@;
                let go = gathered.len() >= old(self).spec_capacity();
                &&& go ==> (store matches Some((b, off)) && b@ == gathered
                    && off == old(self).spec_offset())
                &&& go ==> final(self).busy()
                &&& !go ==> store is None && !final(self).busy()
            }),
    {
        let mut buf = match self.buf.take() {
            Some(b) => b,
            None => Vec::with_capacity(
                match self.capacity.checked_mul(2) {
                    Some(c) => c,
                    None => usize::MAX,
                },
            ),
        };
        let ghost before = buf@;
        buf.extend_from_slice(item);
        proof {
            assert(buf@ =~= before + item@);
        }
        self.buf = Some(buf);
        proof {
            self.accepted@ = self.accepted@ + item@;
            assert(self.written@ + self.pending() =~= self.accepted@);
        }
        self.spawn(self.capacity)
    }

    /// Starts writing whatever the sender holds, if it holds anything and
    /// no write runs.
    pub fn flush(&mut self) -> (store: Option<(Vec<u8>, u64)>)
        requires
            old(self).wf(),
        ensures
            final(self).wf(),
            final(self).spec_capacity() == old(self).spec_capacity(),
            final(self).spec_offset() == old(self).spec_offset(),
            final(self).pending() == old(self).pending(),
            final(self).holds_buf() == old(self).holds_buf(),
            final(self).written() == old(self).written(),
            final(self).accepted() == old(self).accepted(),
            ({
                let go = !old(self).busy() && old(self).pending().len() > 0;
                &&& go ==> (store matches Some((b, off)) && b@ == old(self).pending()
                    && off == old(self).spec_offset())
                &&& go ==> final(self).busy()
                &&& !go ==> store is None && final(self).busy() == old(self).busy()
            }),
    {
        self.spawn(1)
    }

    /// The running write ended. `kept` says whether the write task gave the
    /// buffer back (a task that died keeps it, and its bytes are lost).
    /// On success the offset advances by the buffer's length, its bytes
    /// count as written and it is emptied; on failure it is kept as it is,
    /// to be written again. Returns whether the write failed.
    pub fn finish(&mut self, kept: bool, failed: bool) -> (err: bool)
        requires
            old(self).wf(),
            old(self).busy(),
            !kept ==> failed,
            !failed ==> old(self).spec_offset() + old(self).pending().len() <= u64::MAX,
        ensures
            final(self).wf(),
            !final(self).busy(),
            final(self).spec_capacity() == old(self).spec_capacity(),
            err == failed,
            !failed ==> {
                &&& final(self).spec_offset() == old(self).spec_offset() + old(self).pending().len()
                &&& final(self).written() == old(self).written() + old(self).pending()
                &&& final(self).pending() == Seq::<u8>::empty()
                &&& final(self).holds_buf() == old(self).holds_buf()
                &&& final(self).accepted() == old(self).accepted()
            },
            failed && kept ==> {
                &&& final(self).spec_offset() == old(self).spec_offset()
                &&& final(self).written() == old(self).written()
                &&& final(self).pending() == old(self).pending()
                &&& final(self).holds_buf() == old(self).holds_buf()
                &&& final(self).accepted() == old(self).accepted()
            },
            !kept ==> {
                &&& final(self).spec_offset() == old(self).spec_offset()
                &&& final(self).written() == old(self).written()
                &&& !final(self).holds_buf()
                &&& final(self).accepted() == old(self).written()
            },
    {
        self.writing = false;
        if !kept {
            self.buf = None;
            proof {
                self.accepted@ = self.written@;
                assert(self.written@ + self.pending() =~= self.accepted@);
            }
        } else if !failed {
            match self.buf.take() {
                Some(mut b) => {
                    let ghost before = b@;
                    self.offset = self.offset + b.len() as u64;
                    b.clear();
                    self.buf = Some(b);
                    proof {
                        self.written@ = self.written@ + before;
                        assert(self.written@ + self.pending() =~= self.accepted@);
                    }
                },
                None => {},
            }
        }
        failed
    }
}

/// A sender writes exactly what it took in, in order and without gaps:
/// the bytes written, followed by those pending, are the bytes accepted,
/// and the next write goes at the offset where the written bytes end.
pub proof fn lemma_sender_writes_what_it_accepted(s: Inner)
    requires
        s.wf(),
    ensures
        s.written() + s.pending() == s.accepted(),
        s.spec_offset() == s.written().len(),
{
}

} // verus!
