use file_channel::fs::buf::Buf;
use file_channel::fs::writer::{fill_from, fill_vectored, Writer};

#[test]
fn fill_from_takes_what_fits() {
    let mut buf = Buf::with_capacity(4);
    assert_eq!(fill_from(&mut buf, b"ab"), 2);
    assert_eq!(fill_from(&mut buf, b"cdef"), 2);
    let (a, b) = buf.as_slices();
    assert_eq!(a, b"abcd");
    assert!(b.is_empty());
    assert_eq!(fill_from(&mut buf, b"x"), 0);
}

#[test]
fn writer_writes_contiguously() {
    let mut w = Writer::new(67);
    assert_eq!(w.offset(), 0);
    assert!(!w.is_busy());
    assert_eq!(w.fill(&[b"hello"]), Some(5));
    assert!(!w.drained());
    let (data, off) = w.start_store().expect("bytes to store");
    assert!(w.is_busy());
    assert_eq!(data, b"hello");
    assert_eq!(off, 0);
    // Only three bytes made it to the file.
    assert!(!w.finish(3, true, false));
    assert_eq!(w.offset(), 3);
    assert_eq!(w.pending_len(), 2);
    assert!(!w.is_busy());
    // The rest goes out next, right after them, followed by new bytes.
    assert_eq!(w.fill(&[b" world"]), Some(6));
    let (data, off) = w.start_store().expect("bytes to store");
    assert_eq!(data, b"lo world");
    assert_eq!(off, 3);
    assert_eq!(w.start_store(), None);
    assert!(!w.finish(8, true, false));
    assert_eq!(w.offset(), 11);
    assert!(w.drained());
    assert_eq!(w.start_store(), None);
}

#[test]
fn writer_wraps_its_buffer() {
    let mut w = Writer::new(4);
    assert_eq!(w.fill(&[b"abcdef"]), Some(4));
    assert_eq!(w.fill(&[b"ef"]), None);
    let (data, _) = w.start_store().expect("bytes to store");
    assert_eq!(data, b"abcd");
    assert!(!w.finish(3, true, false));
    assert_eq!(w.fill(&[b"ef"]), Some(2));
    let (data, off) = w.start_store().expect("bytes to store");
    assert_eq!(data, b"def");
    assert_eq!(off, 3);
}

#[test]
fn writer_failed_write_keeps_bytes() {
    let mut w = Writer::new(8);
    w.fill(&[b"abc"]);
    w.start_store().expect("bytes to store");
    assert!(w.finish(0, true, true));
    assert_eq!(w.offset(), 0);
    assert_eq!(w.pending_len(), 3);
    let (data, off) = w.start_store().expect("bytes to store");
    assert_eq!((data.as_slice(), off), (&b"abc"[..], 0));
    // A write task that died takes its bytes with it.
    assert!(w.finish(0, false, true));
    assert_eq!(w.pending_len(), 0);
    assert!(w.drained());
    assert_eq!(w.fill(&[b"xyzxyzxyz"]), Some(8));
}

#[test]
fn fill_vectored_takes_slices_in_turn() {
    let mut buf = Buf::with_capacity(6);
    assert_eq!(fill_vectored(&mut buf, &[b"ab", b"", b"cd"]), Some(4));
    assert_eq!(fill_vectored(&mut buf, &[b"efg", b"h"]), Some(2));
    let (a, b) = buf.as_slices();
    assert_eq!(a, b"abcdef");
    assert!(b.is_empty());
    // Full: nothing fits, so the buffer has to go out first.
    assert_eq!(fill_vectored(&mut buf, &[b"x"]), None);
    // Nothing to write is written at once.
    assert_eq!(fill_vectored(&mut buf, &[b"", b""]), Some(0));
    assert_eq!(fill_vectored(&mut buf, &[]), Some(0));
}
