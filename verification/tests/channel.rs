use file_channel::channel::{after_read, after_register, should_wake, AfterRead, AfterRegister};
use file_channel::receiver::Inner as ReceiverInner;
use file_channel::sender::Inner as SenderInner;

#[test]
fn byte_stream_reader_decisions() {
    assert_eq!(after_read(5, 0, 0), AfterRead::Deliver(5));
    assert_eq!(after_read(0, 7, 7), AfterRead::Register);
    assert_eq!(after_read(0, 3, 7), AfterRead::Retry);
    assert_eq!(after_register(7, 7, true), AfterRegister::Pending);
    assert_eq!(after_register(7, 7, false), AfterRegister::End);
    assert_eq!(after_register(3, 7, false), AfterRegister::Retry);
    assert!(should_wake(3, 7));
    assert!(!should_wake(7, 7));
}

#[test]
fn receiver_fetches_one_at_a_time() {
    let mut r = ReceiverInner::new(16);
    assert_eq!(r.start(), Some((16, 0)));
    assert!(r.is_busy());
    assert_eq!(r.start(), None);
    let c = r.clone();
    assert!(!c.is_busy());
    assert!(r.finish(10));
    assert_eq!(r.offset(), 10);
    assert_eq!(r.start(), Some((16, 10)));
    assert!(!r.finish(0));
    assert_eq!(r.offset(), 10);
    assert_eq!(c.offset(), 0);
}

#[test]
fn sender_gathers_until_capacity() {
    let mut s = SenderInner::new(4);
    assert_eq!(s.start_send(b"ab"), None);
    assert!(!s.is_busy());
    assert_eq!(s.pending_len(), 2);
    let (buf, off) = s.start_send(b"cde").expect("capacity reached");
    assert_eq!(buf, b"abcde");
    assert_eq!(off, 0);
    assert!(s.is_busy());
    assert_eq!(s.flush(), None);
    assert!(!s.finish(true, false));
    assert_eq!(s.offset(), 5);
    assert_eq!(s.pending_len(), 0);
    assert_eq!(s.flush(), None);
    assert_eq!(s.start_send(b"f"), None);
    let (buf, off) = s.flush().expect("bytes held");
    assert_eq!(buf, b"f");
    assert_eq!(off, 5);
    // A failed write keeps the bytes for the next flush.
    assert!(s.finish(true, true));
    assert_eq!(s.offset(), 5);
    let (buf, off) = s.flush().expect("bytes held");
    assert_eq!((buf.as_slice(), off), (&b"f"[..], 5));
    assert!(!s.finish(true, false));
    assert_eq!(s.offset(), 6);
}

#[test]
fn sender_capacity_zero_writes_at_once() {
    let mut s = SenderInner::new(0);
    // Nothing gathered yet, but 0 >= 0: the (empty) buffer goes out.
    let (buf, off) = s.start_send(b"").expect("a write starts");
    assert!(buf.is_empty());
    assert_eq!(off, 0);
    assert!(!s.finish(true, false));
    assert_eq!(s.offset(), 0);
    // Flushing an empty buffer writes nothing.
    assert_eq!(s.flush(), None);
}

#[test]
fn sender_lost_write_drops_its_bytes() {
    let mut s = SenderInner::new(2);
    let (buf, _) = s.start_send(b"xyz").expect("capacity reached");
    assert_eq!(buf, b"xyz");
    assert!(s.finish(false, true));
    assert_eq!(s.offset(), 0);
    assert_eq!(s.pending_len(), 0);
    let (buf, off) = s.start_send(b"uv").expect("capacity reached");
    assert_eq!((buf.as_slice(), off), (&b"uv"[..], 0));
}
