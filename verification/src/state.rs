//! The state that the sending and receiving halves of a channel share:
//! how far the file is written, whether the sender is done, and the wakers
//! of the receivers that wait for more.
use vstd::prelude::*;
use slab::Slab;
use std::task::Waker;

verus! {

/// The waker of a task, as std defines it.
#[verifier::external_type_specification]
#[verifier::external_body]
pub struct ExWaker(Waker);

/// The slab of the `slab` crate, which hands out a key for each entry.
#[verifier::external_type_specification]
#[verifier::external_body]
#[verifier::reject_recursive_types(T)]
pub struct ExSlab<T>(Slab<T>);

/// What a slab of waker slots holds: for each occupied key, the content of
/// its slot (a waker, or none).
pub uninterp spec fn slab_slots(s: Slab<Option<Waker>>) -> Map<usize, Option<Waker>>;

/// `Slab::new`: a slab with no occupied key.
#[verifier::external_body]
fn slab_new() -> (created: Slab<Option<Waker>>)
    ensures
        slab_slots(created).dom() == Set::<usize>::empty(),
{
    Slab::new()
}

/// `Slab::insert` of an empty slot: the key it returns was vacant and now
/// holds an empty slot; no other key changes.
#[verifier::external_body]
fn slab_insert_empty(s: &mut Slab<Option<Waker>>) -> (key: usize)
    ensures
        !slab_slots(*old(s)).dom().contains(key),
        slab_slots(*final(s)) == slab_slots(*old(s)).insert(key, None),
{
    s.insert(None)
}

/// `Slab::contains`: whether the key is occupied.
#[verifier::external_body]
fn slab_contains(s: &Slab<Option<Waker>>, key: usize) -> (b: bool)
    ensures
        b == slab_slots(*s).dom().contains(key),
{
    s.contains(key)
}

/// Assignment through `IndexMut` of `Slab`, which panics on a vacant key:
/// the slot of `key` now holds `waker`; no other key changes.
#[verifier::external_body]
fn slab_set(s: &mut Slab<Option<Waker>>, key: usize, waker: Waker)
    requires
        slab_slots(*old(s)).dom().contains(key),
    ensures
        slab_slots(*final(s)) == slab_slots(*old(s)).insert(key, Some(waker)),
{
    s[key] = Some(waker);
}

/// `Slab::remove`, which panics on a vacant key: the key is vacant again,
/// and its slot's content is dropped; no other key changes.
#[verifier::external_body]
fn slab_remove(s: &mut Slab<Option<Waker>>, key: usize)
    requires
        slab_slots(*old(s)).dom().contains(key),
    ensures
        slab_slots(*final(s)) == slab_slots(*old(s)).remove(key),
{
    s.remove(key);
}

/// `Slab::get_mut` followed by `Option::take` on the slot: the content of
/// the slot of an occupied key comes out and leaves the slot empty; a
/// vacant key gives nothing and changes nothing.
#[verifier::external_body]
fn slab_take(s: &mut Slab<Option<Waker>>, key: usize) -> (w: Option<Waker>)
    ensures
        w == if slab_slots(*old(s)).dom().contains(key) {
            slab_slots(*old(s))[key]
        } else {
            None
        },
        slab_slots(*final(s)) == if slab_slots(*old(s)).dom().contains(key) {
            slab_slots(*old(s)).insert(key, None)
        } else {
            slab_slots(*old(s))
        },
{
    match s.get_mut(key) {
        Some(slot) => slot.take(),
        None => None,
    }
}

/// `Slab::capacity`: every occupied key lies below it.
#[verifier::external_body]
fn slab_capacity(s: &Slab<Option<Waker>>) -> (c: usize)
    ensures
        forall|k: usize| slab_slots(*s).dom().contains(k) ==> k < c,
{
    s.capacity()
}

/// The wakers of the tasks that wait, each in a slot of its own.
pub struct Wakers {
    slab: Slab<Option<Waker>>,
}

impl View for Wakers {
    type V = Map<usize, Option<Waker>>;

    /// For each slot handed out, the waker in it, if any.
    closed spec fn view(&self) -> Map<usize, Option<Waker>> {
        slab_slots(self.slab)
    }
}

/// The same slots, all empty.
pub open spec fn emptied(m: Map<usize, Option<Waker>>) -> Map<usize, Option<Waker>> {
    Map::new(|k: usize| m.dom().contains(k), |k: usize| None::<Waker>)
}

/// The wakers in the slots of keys below `c`, in the order of their keys.
pub open spec fn held_below(m: Map<usize, Option<Waker>>, c: nat) -> Seq<Waker>
    decreases c,
{
    if c == 0 {
        Seq::empty()
    } else {
        let k = (c - 1) as usize;
        let rest = held_below(m, (c - 1) as nat);
        if m.dom().contains(k) && m[k] is Some {
            rest.push(m[k]->Some_0)
        } else {
            rest
        }
    }
}

/// Every waker in the slots, in the order of their keys.
pub open spec fn held_wakers(m: Map<usize, Option<Waker>>) -> Seq<Waker> {
    held_below(m, usize::MAX as nat + 1)
}

/// Keys at or above `c` add nothing once no slot lies there.
proof fn lemma_held_below_stable(m: Map<usize, Option<Waker>>, c: nat, d: nat)
    requires
        c <= d <= usize::MAX as nat + 1,
        forall|k: usize| m.dom().contains(k) ==> k < c,
    ensures
        held_below(m, d) == held_below(m, c),
    decreases d - c,
{
    if d > c {
        lemma_held_below_stable(m, c, (d - 1) as nat);
        assert(!m.dom().contains((d - 1) as usize));
    }
}

/// The waker in slot `k` is among those below any bound above `k`.
proof fn lemma_held_below_contains(m: Map<usize, Option<Waker>>, k: usize, c: nat)
    requires
        k < c,
        m.dom().contains(k),
        m[k] is Some,
    ensures
        held_below(m, c).contains(m[k]->Some_0),
    decreases c,
{
    if c - 1 == k as nat {
        let s = held_below(m, c);
        assert(s[s.len() - 1] == m[k]->Some_0);
    } else {
        lemma_held_below_contains(m, k, (c - 1) as nat);
        let r = held_below(m, (c - 1) as nat);
        let j = choose|j: int| 0 <= j < r.len() && r[j] == m[k]->Some_0;
        assert(held_below(m, c)[j] == m[k]->Some_0);
    }
}

/// A task that has put its waker in a slot is among those that taking all
/// wakers yields.
pub proof fn lemma_registered_is_taken(m: Map<usize, Option<Waker>>, k: usize, w: Waker)
    ensures
        held_wakers(m.insert(k, Some(w))).contains(w),
{
    lemma_held_below_contains(m.insert(k, Some(w)), k, usize::MAX as nat + 1);
}

impl Wakers {
    /// No slot handed out.
    pub fn new() -> (w: Self)
        ensures
            w@.dom() == Set::<usize>::empty(),
    {
        Wakers { slab: slab_new() }
    }

    /// Whether `key` is a slot handed out and not released.
    pub fn contains(&self, key: usize) -> (b: bool)
        ensures
            b == self@.dom().contains(key),
    {
        slab_contains(&self.slab, key)
    }

    /// Puts `waker` in the slot `key`, handing out a new slot first when
    /// `key` is `None`. A waker already in the slot is replaced.
    pub fn register(&mut self, key: &mut Option<usize>, waker: Waker)
        requires
            *old(key) matches Some(k) ==> old(self)@.dom().contains(k),
        ensures
            *final(key) is Some,
            *old(key) matches Some(k) ==> *final(key) == Some(k),
            *old(key) is None ==> !old(self)@.dom().contains((*final(key))->Some_0),
            final(self)@ == old(self)@.insert((*final(key))->Some_0, Some(waker)),
    {
        let k = match *key {
            Some(k) => k,
            None => slab_insert_empty(&mut self.slab),
        };
        *key = Some(k);
        slab_set(&mut self.slab, k, waker);
    }

    /// Releases the slot `key`, if one was handed out.
    pub fn release(&mut self, key: Option<usize>)
        requires
            key matches Some(k) ==> old(self)@.dom().contains(k),
        ensures
            final(self)@ == match key {
                Some(k) => old(self)@.remove(k),
                None => old(self)@,
            },
    {
        if let Some(k) = key {
            slab_remove(&mut self.slab, k);
        }
    }

    /// Takes every waker out of its slot; the slots stay handed out. The
    /// wakers come out in the order of their slots' keys.
    pub fn take_all(&mut self) -> (ws: Vec<Waker>)
        ensures
            final(self)@ == emptied(old(self)@),
            ws@ == held_wakers(old(self)@),
    {
        let cap = slab_capacity(&self.slab);
        let ghost m0 = self@;
        let mut ws: Vec<Waker> = Vec::new();
        let mut k: usize = 0;
        while k < cap
            invariant
                k <= cap,
                forall|j: usize| m0.dom().contains(j) ==> j < cap,
                self@.dom() == m0.dom(),
                forall|j: usize|
                    self@.dom().contains(j) ==> #[trigger] self@[j] == if j < k {
                        None::<Waker>
                    } else {
                        m0[j]
                    },
                ws@ == held_below(m0, k as nat),
            decreases cap - k,
        {
            let w = slab_take(&mut self.slab, k);
            if let Some(w) = w {
                ws.push(w);
            }
            k = k + 1;
        }
        proof {
            lemma_held_below_stable(m0, cap as nat, usize::MAX as nat + 1);
            assert(self@ =~= emptied(m0));
        }
        ws
    }
}


/// What the receiver is to do on a poll, given the shared state.
#[derive(PartialEq, Eq, Structural, Debug, Clone, Copy)]
pub enum NextStep {
    /// The sender is done and every byte it wrote was read: the stream ends.
    End,
    /// Every byte written so far was read: wait for the sender.
    Wait,
    /// Bytes are written past the receiver's offset: read them.
    Read,
}

/// The state that a sender and its receivers share.
pub struct State {
    offset: u64,
    is_closed: bool,
    wakers: Wakers,
}

impl Default for State {
    /// Nothing written, not closed, no receiver waiting.
    fn default() -> (s: Self)
        ensures
            s.written() == 0,
            !s.closed(),
            s.slots().dom() == Set::<usize>::empty(),
    {
        State::new()
    }
}

impl State {
    /// How many bytes the sender has written to the file.
    pub closed spec fn written(&self) -> u64 {
        self.offset
    }

    /// Whether the sender is done.
    pub closed spec fn closed(&self) -> bool {
        self.is_closed
    }

    /// The receivers' waker slots.
    pub closed spec fn slots(&self) -> Map<usize, Option<Waker>> {
        self.wakers@
    }

    /// Nothing written, not closed, no receiver waiting.
    pub fn new() -> (s: Self)
        ensures
            s.written() == 0,
            !s.closed(),
            s.slots().dom() == Set::<usize>::empty(),
    {
        State { offset: 0, is_closed: false, wakers: Wakers::new() }
    }

    /// How many bytes the sender has written to the file.
    pub fn offset(&self) -> (o: u64)
        ensures
            o == self.written(),
    {
        self.offset
    }

    /// Whether the sender is done.
    pub fn is_closed(&self) -> (b: bool)
        ensures
            b == self.closed(),
    {
        self.is_closed
    }

    /// Whether `key` is a waker slot handed out and not released.
    pub fn has_slot(&self, key: usize) -> (b: bool)
        ensures
            b == self.slots().dom().contains(key),
    {
        self.wakers.contains(key)
    }

    /// What a receiver that has read `reader_offset` bytes is to do.
    pub fn next_step(&self, reader_offset: u64) -> (step: NextStep)
        ensures
            step == if self.written() <= reader_offset {
                if self.closed() {
                    NextStep::End
                } else {
                    NextStep::Wait
                }
            } else {
                NextStep::Read
            },
    {
        if self.offset <= reader_offset {
            if self.is_closed {
                NextStep::End
            } else {
                NextStep::Wait
            }
        } else {
            NextStep::Read
        }
    }

    /// A receiver waits: its waker goes in its slot, handed out on its
    /// first wait.
    pub fn register(&mut self, key: &mut Option<usize>, waker: Waker)
        requires
            *old(key) matches Some(k) ==> old(self).slots().dom().contains(k),
        ensures
            final(self).written() == old(self).written(),
            final(self).closed() == old(self).closed(),
            *final(key) is Some,
            *old(key) matches Some(k) ==> *final(key) == Some(k),
            *old(key) is None ==> !old(self).slots().dom().contains((*final(key))->Some_0),
            final(self).slots() == old(self).slots().insert((*final(key))->Some_0, Some(waker)),
    {
        self.wakers.register(key, waker);
    }

    /// A receiver goes away: its slot, if it had one, is released.
    pub fn release(&mut self, key: Option<usize>)
        requires
            key matches Some(k) ==> old(self).slots().dom().contains(k),
        ensures
            final(self).written() == old(self).written(),
            final(self).closed() == old(self).closed(),
            final(self).slots() == match key {
                Some(k) => old(self).slots().remove(k),
                None => old(self).slots(),
            },
    {
        self.wakers.release(key);
    }

    /// The sender has written `offset` bytes. If that moves the shared
    /// offset, every waiting receiver's waker comes out, to be woken.
    pub fn publish(&mut self, offset: u64) -> (ws: Vec<Waker>)
        ensures
            final(self).written() == offset,
            final(self).closed() == old(self).closed(),
            offset != old(self).written() ==> {
                &&& final(self).slots() == emptied(old(self).slots())
                &&& ws@ == held_wakers(old(self).slots())
            },
            offset == old(self).written() ==> {
                &&& final(self).slots() == old(self).slots()
                &&& ws@.len() == 0
            },
    {
        let previous = self.offset;
        self.offset = offset;
        if previous != offset {
            self.wakers.take_all()
        } else {
            Vec::new()
        }
    }

    /// The sender is done. On the first close every waiting receiver's
    /// waker comes out, to be woken; a later close changes nothing.
    pub fn close(&mut self) -> (ws: Vec<Waker>)
        ensures
            final(self).written() == old(self).written(),
            final(self).closed(),
            !old(self).closed() ==> {
                &&& final(self).slots() == emptied(old(self).slots())
                &&& ws@ == held_wakers(old(self).slots())
            },
            old(self).closed() ==> {
                &&& final(self).slots() == old(self).slots()
                &&& ws@.len() == 0
            },
    {
        let was_closed = self.is_closed;
        self.is_closed = true;
        if !was_closed {
            self.wakers.take_all()
        } else {
            Vec::new()
        }
    }
}

} // verus!
