use core::task::{Context, Poll};
use poll_io::{AsyncReadExt, AsyncWriteExt};

fn round_trip(b: &[u8]) {
    let waker = futures::task::noop_waker();
    let mut cx = Context::from_waker(&waker);
    let mut store: Vec<u8> = Vec::new();
    {
        let mut op = store.write_all(b);
        assert!(matches!(op.poll(&mut cx), Poll::Ready(Ok(()))));
    }
    let mut src: &[u8] = &store;
    let mut back: Vec<u8> = Vec::new();
    {
        let mut op = src.read_to_end(&mut back);
        match op.poll(&mut cx) {
            Poll::Ready(Ok(n)) => assert_eq!(n, b.len()),
            _ => panic!("a slice neither fails nor waits"),
        }
    }
    assert_eq!(back, b);
}

#[test]
fn round_trip_of_nothing() {
    round_trip(b"");
}

#[test]
fn round_trip_of_a_few_bytes() {
    round_trip(b"hello");
    round_trip(&[0, 255, 0, 1]);
}

#[test]
fn round_trip_around_the_chunk_size() {
    for len in [31usize, 32, 33, 63, 64, 65] {
        let b: Vec<u8> = (0..len).map(|i| (i * 7 % 256) as u8).collect();
        round_trip(&b);
    }
}

#[test]
fn round_trip_of_many_bytes() {
    let b: Vec<u8> = (0..70_000u32).map(|i| (i % 253) as u8).collect();
    round_trip(&b);
}
