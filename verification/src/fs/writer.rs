//! The decisions of the file writer: when its buffer goes out to be
//! written to the file, and how far into the file it has written.
use vstd::prelude::*;
use crate::fs::buf::Buf;
use vstd::seq_lib::lemma_flatten_concat;

verus! {

/// The state of a writer of the file: how far into the file it has
/// written, and the bytes it holds that are not written yet.
pub struct Writer {
    capacity: usize,
    offset: u64,
    buf: Option<Buf>,
    writing: bool,
    stored: Ghost<Seq<u8>>,
    accepted: Ghost<Seq<u8>>,
}

/// Moves as many bytes of `src` into the buffer as its spare room takes,
/// returning how many.
pub fn fill_from(buf: &mut Buf, src: &[u8]) -> (n: usize)
    requires
        old(buf).wf(),
    ensures
        n == if src@.len() < old(buf).cap() - old(buf)@.len() {
            src@.len() as int
        } else {
            old(buf).cap() - old(buf)@.len()
        },
        final(buf).wf(),
        final(buf).cap() == old(buf).cap(),
        final(buf)@ == old(buf)@ + src@.take(n as int),
{
    let room = buf.capacity() - buf.len();
    let n = if src.len() < room { src.len() } else { room };
    buf.extend_from_slice(&src[0..n]);
    n
}

/// The bytes of the slices `bufs`, one after another.
pub open spec fn concat(bufs: Seq<&[u8]>) -> Seq<u8> {
    bufs.map_values(|b: &[u8]| b@).flatten()
}

/// Moves the bytes of `bufs`, one slice after another, into the buffer as
/// far as its spare room takes them. Returns how many moved, or `None`
/// when there were bytes to move and none fit: the buffer must be written
/// out first.
pub fn fill_vectored(buf: &mut Buf, bufs: &[&[u8]]) -> (res: Option<usize>)
    requires
        old(buf).wf(),
    ensures
        ({
            let room = old(buf).cap() - old(buf)@.len();
            let total = concat(bufs@).len() as int;
            let n = if total < room { total } else { room };
            &&& final(buf).wf()
            &&& final(buf).cap() == old(buf).cap()
            &&& final(buf)@ == old(buf)@ + concat(bufs@).take(n)
            &&& res == if n == 0 && total > 0 {
                None::<usize>
            } else {
                Some(n as usize)
            }
        }),
{
    let ghost all = bufs@.map_values(|b: &[u8]| b@);
    let ghost start = buf@;
    proof {
        crate::fs::buf::lemma_filled_and_spare_fill_capacity(*buf);
    }
    let ghost room: int = buf.cap() - buf@.len();
    let mut n: usize = 0;
    let mut i: usize = 0;
    let mut full = false;
    while i < bufs.len() && !full
        invariant
            i <= bufs@.len(),
            all == bufs@.map_values(|b: &[u8]| b@),
            buf.wf(),
            buf.cap() == old(buf).cap(),
            start == old(buf)@,
            room == buf.cap() - start.len(),
            0 <= n <= room,
            n <= all.take(i as int).flatten().len(),
            buf@ == start + all.take(i as int).flatten().take(n as int),
            !full ==> n == all.take(i as int).flatten().len(),
            full ==> n == room,
            full ==> all.take(i as int).flatten().len() > 0,
        decreases bufs@.len() - i,
    {
        let b = bufs[i];
        proof {
            assert(all.take(i + 1) =~= all.take(i as int).push(b@));
            all.take(i as int).lemma_flatten_push(b@);
        }
        let m = fill_from(buf, b);
        proof {
            crate::fs::buf::lemma_filled_and_spare_fill_capacity(*buf);
            let prev = all.take(i as int).flatten();
            assert(prev.take(n as int) + b@.take(m as int) =~= (prev + b@).take(n + m));
        }
        n = n + m;
        i = i + 1;
        if m < b.len() {
            full = true;
        }
    }
    proof {
        let pre = all.take(i as int);
        lemma_flatten_concat(pre, all.skip(i as int));
        assert(pre + all.skip(i as int) =~= all);
        let whole = all.flatten();
        assert(whole.take(n as int) =~= pre.flatten().take(n as int));
        if !full {
            assert(pre =~= all);
        }
    }
    if full && n == 0 {
        None
    } else {
        Some(n)
    }
}

/// The bytes of `buf`, oldest first, in a vector of their own.
fn copy_of(buf: &Buf) -> (v: Vec<u8>)
    requires
        buf.wf(),
    ensures
        v@ == buf@,
{
    let (a, b) = buf.as_slices();
    let mut v = vstd::slice::slice_to_vec(a);
    let mut w = vstd::slice::slice_to_vec(b);
    v.append(&mut w);
    v
}

impl Writer {
    /// The capacity of the buffer the writer makes.
    pub closed spec fn spec_capacity(&self) -> usize {
        self.capacity
    }

    /// How many bytes the writer has written to the file.
    pub closed spec fn spec_offset(&self) -> u64 {
        self.offset
    }

    /// Whether a write of the buffer's bytes runs.
    pub closed spec fn busy(&self) -> bool {
        self.writing
    }

    /// The buffer the writer holds, if it holds one.
    pub closed spec fn held(&self) -> Option<Buf> {
        self.buf
    }

    /// The capacity of the buffer the writer fills: the one it holds, or
    /// the one it makes.
    pub open spec fn buf_cap(&self) -> nat {
        match self.held() {
            Some(b) => b.cap(),
            None => self.spec_capacity() as nat,
        }
    }

    /// The bytes held and not written yet, oldest first; while a write
    /// runs, it writes from these.
    pub open spec fn pending(&self) -> Seq<u8> {
        match self.held() {
            Some(b) => b@,
            None => Seq::empty(),
        }
    }

    /// Every byte written to the file, in order.
    pub closed spec fn stored(&self) -> Seq<u8> {
        self.stored@
    }

    /// Every byte the writer took in, in order, less those a lost write
    /// took with it.
    pub closed spec fn accepted(&self) -> Seq<u8> {
        self.accepted@
    }

    /// The internal invariant of the writer: the bytes written and then
    /// the bytes pending are the bytes it took in, and the offset counts
    /// those written.
    pub closed spec fn wf(&self) -> bool {
        &&& self.buf matches Some(b) ==> b.wf()
        &&& self.stored@ + self.pending() == self.accepted@
        &&& self.offset == self.stored@.len()
    }

    /// A writer at the start of the file, holding nothing.
    pub fn new(capacity: usize) -> (w: Self)
        ensures
            w.wf(),
            w.spec_capacity() == capacity,
            w.spec_offset() == 0,
            !w.busy(),
            w.held() is None,
            w.accepted() == Seq::<u8>::empty(),
    {
        Writer {
            capacity,
            offset: 0,
            buf: None,
            writing: false,
            stored: Ghost(Seq::empty()),
            accepted: Ghost(Seq::empty()),
        }
    }

    /// How many bytes the writer has written to the file.
    pub fn offset(&self) -> (o: u64)
        ensures
            o == self.spec_offset(),
    {
        self.offset
    }

    /// Whether a write of the buffer's bytes runs.
    pub fn is_busy(&self) -> (b: bool)
        ensures
            b == self.busy(),
    {
        self.writing
    }

    /// How many bytes are held and not written yet.
    pub fn pending_len(&self) -> (n: usize)
        requires
            self.wf(),
        ensures
            n == self.pending().len(),
    {
        match &self.buf {
            Some(b) => b.len(),
            None => 0,
        }
    }

    /// Makes the buffer, of the writer's capacity, if none is held.
    fn ensure_buf(&mut self)
        requires
            old(self).wf(),
        ensures
            final(self).wf(),
            old(self).held() is Some ==> final(self).held() == old(self).held(),
            final(self).held() matches Some(h) && h.cap() == old(self).buf_cap() && h.wf(),
            final(self).pending() == old(self).pending(),
            final(self).spec_capacity() == old(self).spec_capacity(),
            final(self).spec_offset() == old(self).spec_offset(),
            final(self).busy() == old(self).busy(),
            final(self).stored() == old(self).stored(),
            final(self).accepted() == old(self).accepted(),
    {
        if self.buf.is_none() {
            self.buf = Some(Buf::with_capacity(self.capacity));
            proof {
                assert(self.stored@ + self.pending() =~= self.accepted@);
            }
        }
    }

    /// Takes the bytes of `bufs` into the buffer, as `fill_vectored` does
    /// (making the buffer first if none is held).
    pub fn fill(&mut self, bufs: &[&[u8]]) -> (res: Option<usize>)
        requires
            old(self).wf(),
            !old(self).busy(),
        ensures
            final(self).wf(),
            !final(self).busy(),
            final(self).spec_capacity() == old(self).spec_capacity(),
            final(self).spec_offset() == old(self).spec_offset(),
            final(self).stored() == old(self).stored(),
            final(self).held() matches Some(h) && h.cap() == old(self).buf_cap(),
            ({
                let room = old(self).buf_cap() - old(self).pending().len();
                let total = concat(bufs@).len() as int;
                let n = if total < room { total } else { room };
                &&& final(self).pending() == old(self).pending() + concat(bufs@).take(n)
                &&& final(self).accepted() == old(self).accepted() + concat(bufs@).take(n)
                &&& res == if n == 0 && total > 0 {
                    None::<usize>
                } else {
                    Some(n as usize)
                }
            }),
    {
        self.ensure_buf();
        let mut buf = match self.buf.take() {
            Some(b) => b,
            None => Buf::with_capacity(self.capacity),
        };
        let ghost before = buf@;
        let res = fill_vectored(&mut buf, bufs);
        proof {
            let added = buf@.skip(before.len() as int);
            assert(buf@ =~= before + added);
            self.accepted@ = self.accepted@ + added;
        }
        self.buf = Some(buf);
        proof {
            assert(self.stored@ + self.pending() =~= self.accepted@);
        }
        res
    }

    /// Whether every byte taken in is written (making the buffer first if
    /// none is held).
    pub fn drained(&mut self) -> (b: bool)
        requires
            old(self).wf(),
            !old(self).busy(),
        ensures
            final(self).wf(),
            !final(self).busy(),
            final(self).spec_capacity() == old(self).spec_capacity(),
            final(self).spec_offset() == old(self).spec_offset(),
            final(self).pending() == old(self).pending(),
            final(self).stored() == old(self).stored(),
            final(self).accepted() == old(self).accepted(),
            final(self).held() matches Some(h) && h.cap() == old(self).buf_cap(),
            b == (old(self).pending().len() == 0),
    {
        self.ensure_buf();
        match &self.buf {
            Some(b) => b.is_empty(),
            None => true,
        }
    }

    /// Starts writing the bytes held, if there are any and no write runs:
    /// returns a copy of them and the offset to write them at.
    pub fn start_store(&mut self) -> (store: Option<(Vec<u8>, u64)>)
        requires
            old(self).wf(),
        ensures
            final(self).wf(),
            final(self).held() == old(self).held(),
            final(self).spec_capacity() == old(self).spec_capacity(),
            final(self).spec_offset() == old(self).spec_offset(),
            final(self).stored() == old(self).stored(),
            final(self).accepted() == old(self).accepted(),
            ({
                let go = !old(self).busy() && old(self).pending().len() > 0;
                &&& go ==> (store matches Some((v, off)) && v@ == old(self).pending()
                    && off == old(self).spec_offset())
                &&& go ==> final(self).busy()
                &&& !go ==> store is None && final(self).busy() == old(self).busy()
            }),
    {
        if self.writing {
            return None;
        }
        match &self.buf {
            Some(b) => {
                if b.is_empty() {
                    None
                } else {
                    let v = copy_of(b);
                    self.writing = true;
                    Some((v, self.offset))
                }
            },
            None => None,
        }
    }

    /// The running write ended, having written the first `n` bytes held.
    /// `kept` says whether the write task gave the buffer back (a task that
    /// died keeps it, and its bytes are lost). The bytes written leave the
    /// buffer and the offset advances by `n`. Returns whether the write
    /// failed.
    pub fn finish(&mut self, n: usize, kept: bool, failed: bool) -> (err: bool)
        requires
            old(self).wf(),
            old(self).busy(),
            kept ==> n <= old(self).pending().len(),
            !kept ==> failed && n == 0,
            old(self).spec_offset() + n <= u64::MAX,
        ensures
            final(self).wf(),
            !final(self).busy(),
            final(self).spec_capacity() == old(self).spec_capacity(),
            final(self).spec_offset() == old(self).spec_offset() + n,
            err == failed,
            kept ==> {
                &&& final(self).stored() == old(self).stored() + old(self).pending().take(n as int)
                &&& final(self).pending() == old(self).pending().skip(n as int)
                &&& final(self).accepted() == old(self).accepted()
                &&& final(self).held() matches Some(h) ==> h.cap() == old(self).buf_cap()
                &&& final(self).held() is Some == old(self).held() is Some
            },
            !kept ==> {
                &&& final(self).stored() == old(self).stored()
                &&& final(self).held() is None
                &&& final(self).accepted() == old(self).stored()
            },
    {
        self.writing = false;
        if !kept {
            self.buf = None;
            proof {
                self.accepted@ = self.stored@;
                assert(self.stored@ + self.pending() =~= self.accepted@);
            }
        } else {
            match self.buf.take() {
                Some(mut b) => {
                    let ghost before = b@;
                    b.consume(n);
                    self.offset = self.offset + n as u64;
                    self.buf = Some(b);
                    proof {
                        self.stored@ = self.stored@ + before.take(n as int);
                        assert(before =~= before.take(n as int) + before.skip(n as int));
                        assert(self.stored@ + self.pending() =~= self.accepted@);
                    }
                },
                None => {
                    self.offset = self.offset + n as u64;
                },
            }
        }
        failed
    }
}

/// A writer writes exactly what it took in, in order and without gaps:
/// the bytes written, followed by those pending, are the bytes accepted,
/// and the next write goes at the offset where the written bytes end.
pub proof fn lemma_writer_stores_what_it_accepted(w: Writer)
    requires
        w.wf(),
    ensures
        w.stored() + w.pending() == w.accepted(),
        w.spec_offset() == w.stored().len(),
{
}

} // verus!
