use file_channel::state::{NextStep, State, Wakers};
use std::sync::atomic::{AtomicUsize, Ordering};
use std::sync::Arc;
use std::task::{Wake, Waker};

struct Counter(AtomicUsize);
impl Wake for Counter {
    fn wake(self: Arc<Self>) {
        self.0.fetch_add(1, Ordering::SeqCst);
    }
}

fn counting_waker() -> (Arc<Counter>, Waker) {
    let c = Arc::new(Counter(AtomicUsize::new(0)));
    (c.clone(), Waker::from(c))
}

#[test]
fn wakers_register_take_release() {
    let mut w = Wakers::new();
    let mut k1 = None;
    let mut k2 = None;
    w.register(&mut k1, Waker::noop().clone());
    w.register(&mut k2, Waker::noop().clone());
    assert!(k1.is_some() && k2.is_some());
    assert_ne!(k1, k2);
    // Registering again reuses the slot.
    let before = k1;
    w.register(&mut k1, Waker::noop().clone());
    assert_eq!(k1, before);
    assert_eq!(w.take_all().len(), 2);
    // The slots stay handed out but hold nothing now.
    assert!(w.contains(k1.unwrap()));
    assert_eq!(w.take_all().len(), 0);
    w.release(k1);
    assert!(!w.contains(k1.unwrap()));
    w.release(None);
    assert!(w.contains(k2.unwrap()));
}

#[test]
fn state_next_step() {
    let mut s = State::new();
    assert_eq!(s.next_step(0), NextStep::Wait);
    s.publish(10);
    assert_eq!(s.offset(), 10);
    assert_eq!(s.next_step(3), NextStep::Read);
    assert_eq!(s.next_step(10), NextStep::Wait);
    s.close();
    assert!(s.is_closed());
    assert_eq!(s.next_step(3), NextStep::Read);
    assert_eq!(s.next_step(10), NextStep::End);
}

#[test]
fn state_publish_wakes_waiting_receivers_once() {
    let mut s = State::new();
    let (count, waker) = counting_waker();
    let mut key = None;
    s.register(&mut key, waker);
    assert!(s.has_slot(key.unwrap()));
    // Publishing the same offset wakes nobody.
    assert!(s.publish(0).is_empty());
    let ws = s.publish(4);
    assert_eq!(ws.len(), 1);
    for w in ws {
        w.wake();
    }
    assert_eq!(count.0.load(Ordering::SeqCst), 1);
    // Woken receivers are not woken twice.
    assert!(s.publish(8).is_empty());
    s.release(key);
    assert!(!s.has_slot(key.unwrap()));
}

#[test]
fn state_close_wakes_once() {
    let mut s = State::new();
    let (count, waker) = counting_waker();
    let mut key = None;
    s.register(&mut key, waker);
    for w in s.close() {
        w.wake();
    }
    assert_eq!(count.0.load(Ordering::SeqCst), 1);
    let (_, waker) = counting_waker();
    s.register(&mut key, waker);
    assert!(s.close().is_empty());
    assert!(s.is_closed());
}

#[test]
fn each_receiver_is_woken_through_its_own_slot() {
    let mut s = State::new();
    let (c1, w1) = counting_waker();
    let (c2, w2) = counting_waker();
    let mut k1 = None;
    let mut k2 = None;
    s.register(&mut k1, w1);
    s.register(&mut k2, w2);
    // The second receiver goes away: its waker goes with its slot.
    s.release(k2);
    for w in s.publish(1) {
        w.wake();
    }
    assert_eq!(c1.0.load(Ordering::SeqCst), 1);
    assert_eq!(c2.0.load(Ordering::SeqCst), 0);
    // The first one waits again under the same key.
    let (c3, w3) = counting_waker();
    let before = k1;
    s.register(&mut k1, w3);
    assert_eq!(k1, before);
    let ws = s.publish(2);
    assert_eq!(ws.len(), 1);
    for w in ws {
        w.wake();
    }
    assert_eq!(c3.0.load(Ordering::SeqCst), 1);
    assert_eq!(c1.0.load(Ordering::SeqCst), 1);
}

#[test]
fn take_all_yields_wakers_in_key_order() {
    let mut w = Wakers::new();
    let (ca, wa) = counting_waker();
    let (cb, wb) = counting_waker();
    let mut ka = None;
    let mut kb = None;
    w.register(&mut ka, wa);
    w.register(&mut kb, wb);
    assert!(ka.unwrap() < kb.unwrap());
    let ws = w.take_all();
    assert_eq!(ws.len(), 2);
    ws[0].wake_by_ref();
    assert_eq!(ca.0.load(Ordering::SeqCst), 1);
    assert_eq!(cb.0.load(Ordering::SeqCst), 0);
    ws[1].wake_by_ref();
    assert_eq!(cb.0.load(Ordering::SeqCst), 1);
}
