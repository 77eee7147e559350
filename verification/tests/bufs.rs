use bytes::{Bytes, BytesMut};
use core::task::{Context, Poll};
use poll_io::{AsyncRead, AsyncReadExt, AsyncWrite, AsyncWriteExt};

/// A source that plays back a list of answers, one per poll.
struct Script {
    answers: Vec<Answer>,
    next: usize,
    offered: Vec<usize>,
}

#[derive(Clone)]
enum Answer {
    Data(Vec<u8>),
    NotYet,
    Fail(u32),
}

impl Script {
    fn new(answers: Vec<Answer>) -> Self {
        Script { answers, next: 0, offered: Vec::new() }
    }
}

impl AsyncRead for Script {
    type Error = u32;

    fn poll_read(&mut self, _cx: &mut Context<'_>, buf: &mut [u8]) -> Poll<Result<usize, u32>> {
        self.offered.push(buf.len());
        let answer = if self.next < self.answers.len() {
            self.answers[self.next].clone()
        } else {
            Answer::Data(Vec::new())
        };
        self.next += 1;
        match answer {
            Answer::Data(bytes) => {
                let n = bytes.len().min(buf.len());
                buf[..n].copy_from_slice(&bytes[..n]);
                Poll::Ready(Ok(n))
            }
            Answer::NotYet => Poll::Pending,
            Answer::Fail(code) => Poll::Ready(Err(code)),
        }
    }
}

/// What a `Gate` does with one write.
#[derive(Clone)]
enum Order {
    UpTo(usize),
    NotYet,
    Fail(u32),
}

/// A sink that keeps what it takes and follows a list of orders.
struct Gate {
    orders: Vec<Order>,
    writes: usize,
    kept: Vec<u8>,
    seen: Vec<usize>,
}

impl Gate {
    fn with(orders: Vec<Order>) -> Self {
        Gate { orders, writes: 0, kept: Vec::new(), seen: Vec::new() }
    }
}

impl AsyncWrite for Gate {
    type WriteError = u32;
    type FlushError = u32;
    type CloseError = u32;

    fn poll_write(&mut self, _cx: &mut Context<'_>, buf: &[u8]) -> Poll<Result<usize, u32>> {
        self.seen.push(buf.len());
        let order = if self.writes < self.orders.len() {
            self.orders[self.writes].clone()
        } else {
            Order::UpTo(usize::MAX)
        };
        self.writes += 1;
        match order {
            Order::UpTo(k) => {
                let n = k.min(buf.len());
                self.kept.extend_from_slice(&buf[..n]);
                Poll::Ready(Ok(n))
            }
            Order::NotYet => Poll::Pending,
            Order::Fail(code) => Poll::Ready(Err(code)),
        }
    }

    fn poll_flush(&mut self, _cx: &mut Context<'_>) -> Poll<Result<(), u32>> {
        Poll::Ready(Ok(()))
    }

    fn poll_close(&mut self, _cx: &mut Context<'_>) -> Poll<Result<(), u32>> {
        Poll::Ready(Ok(()))
    }
}

#[test]
fn read_buf_appends_what_was_read() {
    let waker = futures::task::noop_waker();
    let mut cx = Context::from_waker(&waker);
    let mut src = Script::new(vec![Answer::Data(vec![1, 2, 3]), Answer::Data(vec![4])]);
    let mut buf = BytesMut::new();
    buf.extend_from_slice(&[9, 9]);
    assert!(matches!(src.poll_read_buf(&mut cx, &mut buf), Poll::Ready(Ok(3))));
    assert_eq!(&buf[..], &[9, 9, 1, 2, 3]);
    assert!(matches!(src.poll_read_buf(&mut cx, &mut buf), Poll::Ready(Ok(1))));
    assert_eq!(&buf[..], &[9, 9, 1, 2, 3, 4]);
    assert_eq!(buf.len(), 6);
    assert!(src.offered.iter().all(|&n| n >= 1));
}

#[test]
fn read_buf_offers_the_spare_room_of_the_buffer() {
    let waker = futures::task::noop_waker();
    let mut cx = Context::from_waker(&waker);
    let mut src = Script::new(vec![Answer::Data(vec![1; 200])]);
    let mut buf = BytesMut::with_capacity(16);
    buf.extend_from_slice(&[0; 6]);
    let room = buf.capacity() - buf.len();
    assert!(room >= 10);
    match src.poll_read_buf(&mut cx, &mut buf) {
        Poll::Ready(Ok(n)) => assert_eq!(n, room),
        _ => panic!("the source had data"),
    }
    assert_eq!(src.offered, vec![room]);
    assert_eq!(buf.len(), 6 + room);
    assert!(buf[6..].iter().all(|&b| b == 1));
}

#[test]
fn read_buf_leaves_the_buffer_alone_unless_the_read_succeeds() {
    let waker = futures::task::noop_waker();
    let mut cx = Context::from_waker(&waker);
    let mut src = Script::new(vec![Answer::NotYet, Answer::Fail(4), Answer::Data(vec![])]);
    let mut buf = BytesMut::new();
    buf.extend_from_slice(b"keep");
    assert!(matches!(src.poll_read_buf(&mut cx, &mut buf), Poll::Pending));
    assert_eq!(&buf[..], b"keep");
    assert!(matches!(src.poll_read_buf(&mut cx, &mut buf), Poll::Ready(Err(4))));
    assert_eq!(&buf[..], b"keep");
    assert!(matches!(src.poll_read_buf(&mut cx, &mut buf), Poll::Ready(Ok(0))));
    assert_eq!(&buf[..], b"keep");
}

#[test]
fn read_buf_operation_polls_once_per_call() {
    let waker = futures::task::noop_waker();
    let mut cx = Context::from_waker(&waker);
    let mut src = Script::new(vec![Answer::Data(vec![7, 8]), Answer::NotYet]);
    let mut buf = BytesMut::new();
    {
        let mut op = src.read_buf(&mut buf);
        assert!(matches!(op.poll(&mut cx), Poll::Ready(Ok(2))));
        assert!(matches!(op.poll(&mut cx), Poll::Pending));
    }
    assert_eq!(&buf[..], &[7, 8]);
    assert_eq!(src.next, 2);
}

#[test]
fn write_buf_drops_from_the_buffer_what_the_sink_took() {
    let waker = futures::task::noop_waker();
    let mut cx = Context::from_waker(&waker);
    let mut sink = Gate::with(vec![Order::UpTo(2)]);
    let mut buf = Bytes::from_static(b"hello");
    assert!(matches!(sink.poll_write_buf(&mut cx, &mut buf), Poll::Ready(Ok(2))));
    assert_eq!(&buf[..], b"llo");
    assert!(matches!(sink.poll_write_buf(&mut cx, &mut buf), Poll::Ready(Ok(3))));
    assert!(buf.is_empty());
    assert_eq!(sink.kept, b"hello");
    assert_eq!(sink.seen, vec![5, 3]);
}

#[test]
fn write_buf_answers_zero_for_an_empty_buffer_without_polling() {
    let waker = futures::task::noop_waker();
    let mut cx = Context::from_waker(&waker);
    let mut sink = Gate::with(vec![Order::Fail(1)]);
    let mut buf = Bytes::new();
    assert!(matches!(sink.poll_write_buf(&mut cx, &mut buf), Poll::Ready(Ok(0))));
    assert_eq!(sink.writes, 0);
}

#[test]
fn write_buf_leaves_the_buffer_alone_unless_the_write_succeeds() {
    let waker = futures::task::noop_waker();
    let mut cx = Context::from_waker(&waker);
    let mut sink = Gate::with(vec![Order::NotYet, Order::Fail(6), Order::UpTo(0)]);
    let mut buf = Bytes::from_static(b"abc");
    assert!(matches!(sink.poll_write_buf(&mut cx, &mut buf), Poll::Pending));
    assert_eq!(&buf[..], b"abc");
    assert!(matches!(sink.poll_write_buf(&mut cx, &mut buf), Poll::Ready(Err(6))));
    assert_eq!(&buf[..], b"abc");
    assert!(matches!(sink.poll_write_buf(&mut cx, &mut buf), Poll::Ready(Ok(0))));
    assert_eq!(&buf[..], b"abc");
}

#[test]
fn write_buf_operation_polls_once_per_call() {
    let waker = futures::task::noop_waker();
    let mut cx = Context::from_waker(&waker);
    let mut sink = Gate::with(vec![Order::UpTo(1), Order::NotYet]);
    let mut buf = Bytes::from_static(b"xyz");
    {
        let mut op = sink.write_buf(&mut buf);
        assert!(matches!(op.poll(&mut cx), Poll::Ready(Ok(1))));
        assert!(matches!(op.poll(&mut cx), Poll::Pending));
    }
    assert_eq!(&buf[..], b"yz");
    assert_eq!(sink.kept, b"x");
    assert_eq!(sink.writes, 2);
}
