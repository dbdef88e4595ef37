//! The decisions of the file reader: when to fetch more of the file into
//! its buffer, and how buffered bytes are handed to the caller.
use vstd::prelude::*;
use crate::fs::buf::Buf;

verus! {

/// The total length of the first `i` destination buffers.
pub open spec fn lens_before(bufs: Seq<Vec<u8>>, i: int) -> nat
    decreases i,
{
    if i <= 0 {
        0
    } else {
        lens_before(bufs, i - 1) + bufs[i - 1]@.len()
    }
}

/// The smaller of two integers.
pub open spec fn min(a: int, b: int) -> int {
    if a <= b { a } else { b }
}

/// What destination `d`, the `i`-th of a vectored read that handed out the
/// `n` bytes `data`, holds afterwards: its first bytes are the part of
/// `data` that falls to it, the rest is as it was.
pub open spec fn filled_dest(data: Seq<u8>, bufs: Seq<Vec<u8>>, i: int, n: int) -> Seq<u8> {
    let start = lens_before(bufs, i) as int;
    if n <= start {
        bufs[i]@
    } else {
        let k = min(n - start, bufs[i]@.len() as int);
        data.subrange(start, start + k) + bufs[i]@.skip(k)
    }
}

/// Copies `src` into `dst` at `at`.
fn copy_into(dst: &mut Vec<u8>, at: usize, src: &[u8])
    requires
        at + src@.len() <= old(dst)@.len(),
    ensures
        final(dst)@ == old(dst)@.take(at as int) + src@ + old(dst)@.skip(at + src@.len()),
{
    let n = src.len();
    let dlen = dst.len();
    let mut j: usize = 0;
    while j < n
        invariant
            n == src@.len(),
            dlen == dst@.len(),
            j <= n,
            at + n <= dst@.len(),
            dst@.len() == old(dst)@.len(),
            forall|k: int| 0 <= k < dst@.len() && !(at <= k < at + j) ==> #[trigger] dst@[k] == old(dst)@[k],
            forall|k: int| at <= k < at + j ==> #[trigger] dst@[k] == src@[k - at],
        decreases n - j,
    {
        dst[at + j] = src[j];
        j = j + 1;
    }
    assert(dst@ =~= old(dst)@.take(at as int) + src@ + old(dst)@.skip(at + src@.len()));
}

/// Hands the oldest buffered bytes to `dst`, as many as fit, and drops
/// them from the buffer: first those up to the end of the buffer's storage,
/// then those that wrapped around.
pub fn copy_out(buf: &mut Buf, dst: &mut Vec<u8>) -> (n: usize)
    requires
        old(buf).wf(),
    ensures
        n == min(old(dst)@.len() as int, old(buf)@.len() as int),
        final(dst)@ == old(buf)@.take(n as int) + old(dst)@.skip(n as int),
        final(buf).wf(),
        final(buf).cap() == old(buf).cap(),
        final(buf)@ == old(buf)@.skip(n as int),
{
    let ghost data0 = buf@;
    let (data, _) = buf.as_slices();
    let n1 = if dst.len() < data.len() { dst.len() } else { data.len() };
    copy_into(dst, 0, &data[0..n1]);
    buf.consume(n1);
    let ghost dst1 = dst@;
    let (data, _) = buf.as_slices();
    let room = dst.len() - n1;
    let n2 = if room < data.len() { room } else { data.len() };
    copy_into(dst, n1, &data[0..n2]);
    buf.consume(n2);
    proof {
        assert(data0.take(n1 as int) + data0.skip(n1 as int).take(n2 as int) =~= data0.take(n1 + n2));
        assert(data0.skip(n1 as int).skip(n2 as int) =~= data0.skip(n1 + n2));
        assert(dst@ =~= data0.take(n1 + n2) + old(dst)@.skip(n1 + n2));
    }
    n1 + n2
}


/// The total length of a prefix of the destinations grows with the prefix.
proof fn lemma_lens_before_mono(bufs: Seq<Vec<u8>>, j: int, i: int)
    requires
        0 <= j <= i <= bufs.len(),
    ensures
        lens_before(bufs, j) <= lens_before(bufs, i),
    decreases i - j,
{
    if j < i {
        lemma_lens_before_mono(bufs, j, i - 1);
    }
}

/// Hands the oldest buffered bytes to the destinations `bufs` in turn,
/// each filled from its start as far as the bytes reach, and drops them
/// from the buffer. Returns how many bytes were handed out.
pub fn read_vectored(buf: &mut Buf, bufs: &mut Vec<Vec<u8>>) -> (n: usize)
    requires
        old(buf).wf(),
    ensures
        n == min(lens_before(old(bufs)@, old(bufs)@.len() as int) as int, old(buf)@.len() as int),
        final(bufs)@.len() == old(bufs)@.len(),
        forall|i: int|
            0 <= i < old(bufs)@.len() ==> #[trigger] final(bufs)@[i]@ == filled_dest(
                old(buf)@,
                old(bufs)@,
                i,
                n as int,
            ),
        final(buf).wf(),
        final(buf).cap() == old(buf).cap(),
        final(buf)@ == old(buf)@.skip(n as int),
{
    let ghost data0 = buf@;
    let ghost bufs0 = bufs@;
    let len0 = buf.len();
    let count = bufs.len();
    let mut taken: usize = 0;
    let mut i: usize = 0;
    while i < count
        invariant
            count == bufs@.len(),
            bufs@.len() == bufs0.len(),
            i <= count,
            buf.wf(),
            buf.cap() == old(buf).cap(),
            len0 == data0.len(),
            taken <= len0,
            taken == min(lens_before(bufs0, i as int) as int, len0 as int),
            buf@ == data0.skip(taken as int),
            forall|j: int| 0 <= j < i ==> #[trigger] bufs@[j]@ == filled_dest(data0, bufs0, j, taken as int),
            forall|j: int| i <= j < count ==> #[trigger] bufs@[j] == bufs0[j],
        decreases count - i,
    {
        let mut d = bufs[i].clone();
        proof {
            assert(d@ =~= bufs0[i as int]@);
        }
        let ghost before = buf@;
        let k = copy_out(buf, &mut d);
        proof {
            let start = lens_before(bufs0, i as int) as int;
            lemma_lens_before_mono(bufs0, 0, i as int);
            if taken < start {
                assert(k == 0);
                assert(d@ =~= bufs0[i as int]@);
            } else {
                assert(taken == start);
                assert(data0.subrange(start, start + k) =~= before.take(k as int));
            }
            assert(d@ =~= filled_dest(data0, bufs0, i as int, taken + k));
            assert forall|j: int| 0 <= j < i implies filled_dest(data0, bufs0, j, taken as int)
                == filled_dest(data0, bufs0, j, taken + k) by {
                lemma_lens_before_mono(bufs0, j + 1, i as int);
            }
        }
        bufs[i] = d;
        taken = taken + k;
        i = i + 1;
        proof {
            assert(buf@ =~= data0.skip(taken as int));
        }
    }
    taken
}


/// Where the reader stands between two polls.
pub enum ReadState {
    /// No fetch is running; the buffer, once made, is held here.
    Idle(Option<Buf>),
    /// A fetch is running and holds the buffer.
    Busy,
}

/// What the caller of `Reader::poll_idle` is to do next.
pub enum ReadStep {
    /// Fill the spare room of the buffer from the file at this offset,
    /// then report with `Reader::finish`.
    Fetch(Buf, u64),
    /// This many bytes were handed out.
    Read(usize),
}

/// How a fetch ended, as `Reader::finish` reports it.
#[derive(PartialEq, Eq, Structural, Debug, Clone, Copy)]
pub enum ReadOutcome {
    /// The fetch failed.
    Failed,
    /// The fetch found no more bytes in the file.
    End,
    /// The fetch brought bytes; poll again to hand them out.
    Again,
}

/// The state of a reader of the file: how far into the file it has
/// fetched, and the bytes it fetched but has not handed out yet.
pub struct Reader {
    capacity: usize,
    offset: u64,
    state: ReadState,
    fetched: Ghost<Seq<u8>>,
    delivered: Ghost<Seq<u8>>,
}

impl Reader {
    /// The capacity of the buffer the reader makes.
    pub closed spec fn spec_capacity(&self) -> usize {
        self.capacity
    }

    /// How many bytes of the file the reader has fetched.
    pub closed spec fn spec_offset(&self) -> u64 {
        self.offset
    }

    /// Whether a fetch is running.
    pub closed spec fn busy(&self) -> bool {
        self.state is Busy
    }

    /// The fetched bytes not yet handed out, oldest first.
    pub closed spec fn buffered(&self) -> Seq<u8> {
        match self.state {
            ReadState::Idle(Some(b)) => b@,
            _ => Seq::empty(),
        }
    }

    /// Every byte the reader's fetches brought, in order.
    pub closed spec fn fetched(&self) -> Seq<u8> {
        self.fetched@
    }

    /// Every byte the reader handed out, in order.
    pub closed spec fn delivered(&self) -> Seq<u8> {
        self.delivered@
    }

    /// The buffer the reader holds, if it holds one.
    pub closed spec fn held(&self) -> Option<Buf> {
        match self.state {
            ReadState::Idle(b) => b,
            ReadState::Busy => None,
        }
    }

    /// The internal invariant of the reader: the bytes handed out and the
    /// bytes buffered are, in this order, the bytes fetched, and the offset
    /// counts them.
    pub closed spec fn wf(&self) -> bool {
        &&& match self.state {
            ReadState::Idle(Some(b)) => b.wf() && b.cap() == self.capacity,
            _ => true,
        }
        &&& self.delivered@ + self.buffered() == self.fetched@
        &&& self.offset == self.fetched@.len()
    }

    /// A reader at the start of the file, with nothing fetched.
    pub fn new(capacity: usize) -> (r: Self)
        ensures
            r.wf(),
            r.spec_capacity() == capacity,
            r.spec_offset() == 0,
            !r.busy(),
            r.buffered() == Seq::<u8>::empty(),
            r.held() is None,
            r.fetched() == Seq::<u8>::empty(),
            r.delivered() == Seq::<u8>::empty(),
    {
        Reader {
            capacity,
            offset: 0,
            state: ReadState::Idle(None),
            fetched: Ghost(Seq::empty()),
            delivered: Ghost(Seq::empty()),
        }
    }

    /// How many bytes of the file the reader has fetched.
    pub fn offset(&self) -> (o: u64)
        ensures
            o == self.spec_offset(),
    {
        self.offset
    }

    /// The capacity of the buffer the reader fills.
    pub fn capacity(&self) -> (c: usize)
        ensures
            c == self.spec_capacity(),
    {
        self.capacity
    }

    /// Whether a fetch is running.
    pub fn is_busy(&self) -> (b: bool)
        ensures
            b == self.busy(),
    {
        match self.state {
            ReadState::Busy => true,
            ReadState::Idle(_) => false,
        }
    }

    /// One poll while no fetch runs. With bytes buffered, hands the oldest
    /// of them to `bufs` as `read_vectored` does. With none, hands the
    /// (emptied or new) buffer out to be filled from the file at the
    /// reader's offset, and the reader becomes busy.
    pub fn poll_idle(&mut self, bufs: &mut Vec<Vec<u8>>) -> (step: ReadStep)
        requires
            old(self).wf(),
            !old(self).busy(),
        ensures
            final(self).wf(),
            final(self).spec_capacity() == old(self).spec_capacity(),
            final(self).spec_offset() == old(self).spec_offset(),
            final(self).fetched() == old(self).fetched(),
            old(self).buffered().len() == 0 ==> {
                &&& step matches ReadStep::Fetch(b, off) && b.wf() && b@.len() == 0 && off
                    == old(self).spec_offset() && b.cap() == old(self).spec_capacity() && match old(
                    self,
                ).held() {
                    Some(h) => b == h,
                    None => true,
                }
                &&& final(self).busy()
                &&& final(self).delivered() == old(self).delivered()
                &&& final(bufs)@ == old(bufs)@
            },
            old(self).buffered().len() > 0 ==> {
                &&& step matches ReadStep::Read(n) && n == min(
                    lens_before(old(bufs)@, old(bufs)@.len() as int) as int,
                    old(self).buffered().len() as int,
                ) && final(self).buffered() == old(self).buffered().skip(n as int)
                    && final(self).delivered() == old(self).delivered() + old(self).buffered().take(
                    n as int,
                ) && (forall|i: int|
                    0 <= i < old(bufs)@.len() ==> #[trigger] final(bufs)@[i]@ == filled_dest(
                        old(self).buffered(),
                        old(bufs)@,
                        i,
                        n as int,
                    ))
                &&& final(bufs)@.len() == old(bufs)@.len()
                &&& !final(self).busy()
                &&& final(self).held() matches Some(h) && old(self).held() matches Some(o) && h.cap()
                    == o.cap() && h@ == final(self).buffered()
            },
    {
        let mut taken = ReadState::Busy;
        std::mem::swap(&mut taken, &mut self.state);
        let mut buf = match taken {
            ReadState::Idle(Some(b)) => b,
            _ => Buf::with_capacity(self.capacity),
        };
        if buf.is_empty() {
            proof {
                assert(self.delivered@ =~= self.fetched@);
            }
            ReadStep::Fetch(buf, self.offset)
        } else {
            let ghost before = buf@;
            let n = read_vectored(&mut buf, bufs);
            self.state = ReadState::Idle(Some(buf));
            proof {
                self.delivered@ = self.delivered@ + before.take(n as int);
                assert(self.delivered@ + self.buffered() =~= self.fetched@) by {
                    assert(before =~= before.take(n as int) + before.skip(n as int));
                }
            }
            ReadStep::Read(n)
        }
    }

    /// Takes back the buffer of a finished fetch, which read `n` bytes into
    /// it (none, if it failed). The offset advances by `n`, the bytes join
    /// those fetched, and the reader is idle again.
    pub fn finish(&mut self, buf: Option<Buf>, n: usize, failed: bool) -> (out: ReadOutcome)
        requires
            old(self).wf(),
            old(self).busy(),
            old(self).spec_offset() + n <= u64::MAX,
            buf matches Some(b) ==> b.wf() && b@.len() == n && b.cap() == old(self).spec_capacity(),
            buf is None ==> n == 0,
        ensures
            final(self).wf(),
            !final(self).busy(),
            final(self).spec_capacity() == old(self).spec_capacity(),
            final(self).spec_offset() == old(self).spec_offset() + n,
            final(self).buffered() == match buf {
                Some(b) => b@,
                None => Seq::<u8>::empty(),
            },
            final(self).held() == buf,
            final(self).fetched() == old(self).fetched() + final(self).buffered(),
            final(self).delivered() == old(self).delivered(),
            out == if failed {
                ReadOutcome::Failed
            } else if n == 0 {
                ReadOutcome::End
            } else {
                ReadOutcome::Again
            },
    {
        self.offset = self.offset + n as u64;
        self.state = ReadState::Idle(buf);
        proof {
            self.fetched@ = self.fetched@ + self.buffered();
        }
        proof {
            assert(self.delivered@ + self.buffered() =~= self.fetched@);
        }
        if failed {
            ReadOutcome::Failed
        } else if n == 0 {
            ReadOutcome::End
        } else {
            ReadOutcome::Again
        }
    }
}

/// A reader never loses or repeats a byte: what it handed out, followed by
/// what it still buffers, is exactly what it fetched, and its offset counts
/// the bytes fetched. It never buffers more than its capacity.
pub proof fn lemma_reader_hands_out_what_it_fetched(r: Reader)
    requires
        r.wf(),
    ensures
        r.delivered() + r.buffered() == r.fetched(),
        r.spec_offset() == r.fetched().len(),
        r.buffered().len() <= r.spec_capacity(),
        r.held() matches Some(b) ==> b.cap() == r.spec_capacity(),
{
    if let Some(b) = r.held() {
        crate::fs::buf::lemma_filled_and_spare_fill_capacity(b);
    }
}

/// A busy reader buffers nothing and holds no buffer: the running fetch
/// has it.
pub proof fn lemma_busy_reader_buffers_nothing(r: Reader)
    requires
        r.busy(),
    ensures
        r.buffered() == Seq::<u8>::empty(),
        r.held() is None,
{
}

impl Clone for Reader {
    /// A reader at the same offset with the same history and buffered
    /// bytes; a running fetch is not shared, so a busy reader's clone
    /// starts idle with no buffer.
    fn clone(&self) -> (r: Self)
        ensures
            self.wf() ==> r.wf(),
            r.spec_capacity() == self.spec_capacity(),
            r.spec_offset() == self.spec_offset(),
            !r.busy(),
            r.fetched() == self.fetched(),
            r.delivered() == self.delivered(),
            self.wf() ==> r.buffered() == self.buffered(),
            self.busy() ==> r.held() is None,
            !self.busy() ==> match self.held() {
                Some(b) => r.held() matches Some(c) && (self.wf() ==> c.wf() && c@ == b@
                    && c.cap() == b.cap() && c.head() == b.head() && c.spare() == b.spare()),
                None => r.held() is None,
            },
    {
        let state = match &self.state {
            ReadState::Idle(Some(b)) => ReadState::Idle(Some(b.clone())),
            _ => ReadState::Idle(None),
        };
        Reader {
            capacity: self.capacity,
            offset: self.offset,
            state,
            fetched: Ghost(self.fetched@),
            delivered: Ghost(self.delivered@),
        }
    }
}

} // verus!
