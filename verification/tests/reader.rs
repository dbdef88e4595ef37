use file_channel::fs::buf::Buf;
use file_channel::fs::reader::{copy_out, read_vectored, ReadOutcome, ReadStep, Reader};

fn filled(bytes: &[u8], cap: usize) -> Buf {
    let mut b = Buf::with_capacity(cap);
    b.extend_from_slice(bytes);
    b
}

#[test]
fn copy_out_takes_oldest_bytes_across_wrap() {
    let mut buf = Buf::with_capacity(4);
    buf.extend_from_slice(b"abcd");
    buf.consume(3);
    buf.extend_from_slice(b"efg");
    let mut dst = vec![0u8; 3];
    let n = copy_out(&mut buf, &mut dst);
    assert_eq!(n, 3);
    assert_eq!(dst, b"def");
    assert_eq!(buf.len(), 1);
    let mut dst = vec![9u8; 3];
    assert_eq!(copy_out(&mut buf, &mut dst), 1);
    assert_eq!(dst, b"g\x09\x09");
}

#[test]
fn read_vectored_fills_destinations_in_turn() {
    let mut buf = filled(b"hello world", 16);
    let mut bufs = vec![vec![0u8; 3], vec![0u8; 0], vec![0u8; 5], vec![7u8; 6]];
    let n = read_vectored(&mut buf, &mut bufs);
    assert_eq!(n, 11);
    assert_eq!(bufs[0], b"hel");
    assert!(bufs[1].is_empty());
    assert_eq!(bufs[2], b"lo wo");
    assert_eq!(bufs[3], b"rld\x07\x07\x07");
    assert!(buf.is_empty());
}

#[test]
fn read_vectored_stops_when_destinations_are_full() {
    let mut buf = filled(b"hello world", 16);
    let mut bufs = vec![vec![0u8; 2], vec![0u8; 3]];
    assert_eq!(read_vectored(&mut buf, &mut bufs), 5);
    assert_eq!(bufs[0], b"he");
    assert_eq!(bufs[1], b"llo");
    assert_eq!(buf.len(), 6);
}

#[test]
fn reader_fetches_then_hands_out() {
    let mut r = Reader::new(67);
    assert_eq!(r.offset(), 0);
    assert!(!r.is_busy());
    let mut bufs = vec![vec![0u8; 3]];
    let buf = match r.poll_idle(&mut bufs) {
        ReadStep::Fetch(buf, off) => {
            assert_eq!(off, 0);
            buf
        }
        ReadStep::Read(_) => panic!("nothing is buffered yet"),
    };
    assert!(r.is_busy());
    assert_eq!(buf.capacity(), 67);
    let mut buf = buf;
    buf.extend_from_slice(b"hello");
    assert_eq!(r.finish(Some(buf), 5, false), ReadOutcome::Again);
    assert_eq!(r.offset(), 5);
    assert!(!r.is_busy());

    let mut r2 = r.clone();
    match r.poll_idle(&mut bufs) {
        ReadStep::Read(n) => assert_eq!(n, 3),
        ReadStep::Fetch(..) => panic!("bytes are buffered"),
    }
    assert_eq!(bufs[0], b"hel");
    match r.poll_idle(&mut bufs) {
        ReadStep::Read(n) => assert_eq!(n, 2),
        ReadStep::Fetch(..) => panic!("bytes are buffered"),
    }
    assert_eq!(&bufs[0][..2], b"lo");
    // The clone kept its own copy of the buffered bytes.
    match r2.poll_idle(&mut bufs) {
        ReadStep::Read(n) => assert_eq!(n, 3),
        ReadStep::Fetch(..) => panic!("bytes are buffered"),
    }
    assert_eq!(bufs[0], b"hel");
    // Drained: the next poll fetches at the new offset.
    match r.poll_idle(&mut bufs) {
        ReadStep::Fetch(buf, off) => {
            assert_eq!(off, 5);
            assert!(buf.is_empty());
            assert_eq!(r.finish(Some(buf), 0, false), ReadOutcome::End);
        }
        ReadStep::Read(_) => panic!("nothing is buffered"),
    }
    assert_eq!(r.offset(), 5);
}

#[test]
fn reader_failed_fetch() {
    let mut r = Reader::new(8);
    let mut bufs: Vec<Vec<u8>> = Vec::new();
    let buf = match r.poll_idle(&mut bufs) {
        ReadStep::Fetch(buf, _) => buf,
        ReadStep::Read(_) => panic!("nothing is buffered"),
    };
    let busy_clone = r.clone();
    assert!(!busy_clone.is_busy());
    assert_eq!(r.finish(Some(buf), 0, true), ReadOutcome::Failed);
    assert_eq!(r.offset(), 0);
    let buf = match r.poll_idle(&mut bufs) {
        ReadStep::Fetch(buf, _) => buf,
        ReadStep::Read(_) => panic!("nothing is buffered"),
    };
    drop(buf);
    assert_eq!(r.finish(None, 0, true), ReadOutcome::Failed);
    assert!(!r.is_busy());
}
