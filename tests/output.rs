use runtime::output::{buffer_for, BufferMode, OutputBuffer, RedirectSpec, Redirects};

#[test]
fn blocking_pipe_never_exceeds_capacity_or_discards() {
    let mut b = OutputBuffer::new(BufferMode::Blocking, 8);
    assert_eq!(b.write(b"hello"), 5);
    assert_eq!(b.write(b"world"), 3);
    assert_eq!(b.held(), 8);
    assert_eq!(b.write(b"!"), 0);
    assert_eq!(b.held(), 8);
    assert_eq!(b.start_offset(), 0);
    assert_eq!(b.end_offset(), 8);
    assert_eq!(b.query(0, 8), b"hellowor".to_vec());
    assert_eq!(b.query(3, 4), b"lowo".to_vec());
    assert_eq!(b.query(6, 100), b"or".to_vec());
    assert_eq!(b.query(8, 1), Vec::<u8>::new());
}

#[test]
fn cyclic_pipe_keeps_last_capacity_bytes() {
    let mut b = OutputBuffer::new(BufferMode::Cyclic, 4);
    assert_eq!(b.write(b"abc"), 3);
    assert_eq!(b.query(0, 3), b"abc".to_vec());
    assert_eq!(b.write(b"defg"), 4);
    assert_eq!(b.held(), 4);
    assert_eq!(b.start_offset(), 3);
    assert_eq!(b.end_offset(), 7);
    assert_eq!(b.query(3, 4), b"defg".to_vec());
    assert_eq!(b.query(0, 5), b"de".to_vec());
    assert_eq!(b.query(0, 3), Vec::<u8>::new());
    assert_eq!(b.query(0, 100), b"defg".to_vec());
    assert_eq!(b.query(6, 100), b"g".to_vec());
}

#[test]
fn cyclic_pipe_single_large_write() {
    let mut b = OutputBuffer::new(BufferMode::Cyclic, 3);
    assert_eq!(b.write(b"0123456789"), 10);
    assert_eq!(b.query(0, 10), b"789".to_vec());
    assert_eq!(b.start_offset(), 7);
}

#[test]
fn query_near_the_largest_offset() {
    let mut b = OutputBuffer::new(BufferMode::Blocking, 4);
    b.write(b"xy");
    assert_eq!(b.query(u64::MAX, u64::MAX), Vec::<u8>::new());
    assert_eq!(b.query(1, u64::MAX), b"y".to_vec());
}

#[test]
fn redirects_hold_three_slots() {
    let r = Redirects {
        stdin: RedirectSpec::Inherit,
        stdout: RedirectSpec::PipeCyclic { capacity: 4096 },
        stderr: RedirectSpec::File { path: String::from("/tmp/err") },
    };
    assert!(matches!(r.stdout, RedirectSpec::PipeCyclic { capacity: 4096 }));
    assert!(matches!(r.clone().stdin, RedirectSpec::Inherit));
}

#[test]
fn pipe_redirects_get_buffers() {
    let mut b = buffer_for(&RedirectSpec::PipeCyclic { capacity: 2 }).unwrap();
    assert_eq!(b.write(b"abc"), 3);
    assert_eq!(b.query(0, 3), b"bc".to_vec());
    let mut p = buffer_for(&RedirectSpec::PipeBlocking { capacity: 2 }).unwrap();
    assert_eq!(p.write(b"abc"), 2);
    let mut z = buffer_for(&RedirectSpec::PipeBlocking { capacity: 0 }).unwrap();
    assert_eq!(z.write(b"abc"), 0);
    assert_eq!(z.query(0, 10), Vec::<u8>::new());
    assert!(buffer_for(&RedirectSpec::Inherit).is_none());
    assert!(buffer_for(&RedirectSpec::File { path: String::from("/x") }).is_none());
}

#[test]
fn zero_capacity_cyclic_pipe_keeps_nothing() {
    let mut b = OutputBuffer::new(BufferMode::Cyclic, 0);
    assert_eq!(b.write(b"abcdef"), 6);
    assert_eq!(b.held(), 0);
    assert_eq!(b.start_offset(), 6);
    assert_eq!(b.end_offset(), 6);
    assert_eq!(b.query(0, 10), Vec::<u8>::new());
}
