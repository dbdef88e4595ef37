use file_channel::fs::buf::Buf;

#[test]
fn fs_buf_test() {
    let mut buf = Buf::with_capacity(8);
    let (head, tail) = buf.as_slices();
    assert!(head.is_empty());
    assert!(tail.is_empty());
    let (head, tail) = buf.spare_capacity_mut();
    assert_eq!(head.len(), 8);
    assert!(tail.is_empty());
    assert_eq!(buf.capacity(), 8);
    assert!(buf.is_empty());
    assert_eq!(buf.len(), 0);

    buf.extend_from_slice(b"hello");
    let (head, tail) = buf.as_slices();
    assert_eq!(head, b"hello");
    assert!(tail.is_empty());
    let (head, tail) = buf.spare_capacity_mut();
    assert_eq!(head.len(), 3);
    assert!(tail.is_empty());
    assert_eq!(buf.capacity(), 8);
    assert!(!buf.is_empty());
    assert_eq!(buf.len(), 5);

    buf.consume(4);
    let (head, tail) = buf.as_slices();
    assert_eq!(head, b"o");
    assert!(tail.is_empty());
    let (head, tail) = buf.spare_capacity_mut();
    assert_eq!(head.len(), 3);
    assert_eq!(tail.len(), 4);
    assert_eq!(buf.capacity(), 8);
    assert!(!buf.is_empty());
    assert_eq!(buf.len(), 1);

    buf.extend_from_slice(b" world");
    let (head, tail) = buf.as_slices();
    assert_eq!(head, b"o wo");
    assert_eq!(tail, b"rld");
    let (head, tail) = buf.spare_capacity_mut();
    assert_eq!(head.len(), 1);
    assert!(tail.is_empty());
    assert_eq!(buf.capacity(), 8);
    assert!(!buf.is_empty());
    assert_eq!(buf.len(), 7);
}

fn contents(buf: &Buf) -> Vec<u8> {
    let (a, b) = buf.as_slices();
    let mut v = a.to_vec();
    v.extend_from_slice(b);
    v
}

#[test]
fn fs_buf_fifo_round_trip() {
    // Bytes come out in the order they went in, across the wrap-around.
    let mut buf = Buf::with_capacity(5);
    buf.extend_from_slice(b"abc");
    buf.consume(2);
    buf.extend_from_slice(b"defg");
    assert_eq!(contents(&buf), b"cdefg");
    assert_eq!(buf.len(), buf.capacity());
    buf.consume(5);
    assert!(buf.is_empty());
    assert_eq!(contents(&buf), b"");
}

#[test]
fn fs_buf_spare_write_then_set_init() {
    // What is written into the spare room becomes the filled bytes.
    let mut buf = Buf::with_capacity(6);
    buf.extend_from_slice(b"xyzw");
    buf.consume(3);
    {
        let (head, tail) = buf.spare_capacity_mut();
        assert_eq!(head.len() + tail.len(), 5);
        assert_eq!(head.len(), 2);
        head.copy_from_slice(b"12");
        tail.copy_from_slice(b"345");
    }
    buf.set_init(4);
    assert_eq!(contents(&buf), b"w1234");
    let (head, tail) = buf.as_slices();
    assert_eq!(head, b"w12");
    assert_eq!(tail, b"34");
}

#[test]
fn fs_buf_zero_capacity() {
    let mut buf = Buf::with_capacity(0);
    assert_eq!(buf.capacity(), 0);
    assert!(buf.is_empty());
    let (head, tail) = buf.spare_capacity_mut();
    assert!(head.is_empty());
    assert!(tail.is_empty());
    buf.extend_from_slice(b"");
    buf.consume(0);
    assert_eq!(contents(&buf), b"");
}

#[test]
fn fs_buf_clone_keeps_contents() {
    let mut buf = Buf::with_capacity(4);
    buf.extend_from_slice(b"abcd");
    buf.consume(3);
    buf.extend_from_slice(b"ef");
    let copy = buf.clone();
    assert_eq!(contents(&copy), b"def");
    assert_eq!(copy.capacity(), 4);
    buf.consume(1);
    assert_eq!(contents(&copy), b"def");
}
