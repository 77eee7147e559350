use core::task::{Context, Poll};
use poll_io::copy::{Turn, RELAY};
use poll_io::{copy, AsyncRead, AsyncReadExt, AsyncWrite, CopyError, Empty, Repeat, Sink};

/// One thing that a `Wire` was asked to do.
#[derive(Clone, Debug, PartialEq)]
enum Call {
    Read,
    Write(usize),
    Flush,
}

/// What a `Wire` answers to one read.
#[derive(Clone)]
enum Answer {
    Data(Vec<u8>),
    NotYet,
    Fail(u32),
}

/// A source that plays back a list of answers, one per poll.
struct Script {
    answers: Vec<Answer>,
    next: usize,
    offered: Vec<usize>,
}

impl Script {
    fn new(answers: Vec<Answer>) -> Self {
        Script { answers, next: 0, offered: Vec::new() }
    }
}

impl AsyncRead for Script {
    type Error = u32;

    fn poll_read(&mut self, _cx: &mut Context<'_>, buf: &mut [u8]) -> Poll<Result<usize, u32>> {
        self.offered.push(buf.len());
        let answer = if self.next < self.answers.len() {
            self.answers[self.next].clone()
        } else {
            Answer::Data(Vec::new())
        };
        self.next += 1;
        match answer {
            Answer::Data(bytes) => {
                let n = bytes.len().min(buf.len());
                buf[..n].copy_from_slice(&bytes[..n]);
                Poll::Ready(Ok(n))
            }
            Answer::NotYet => Poll::Pending,
            Answer::Fail(code) => Poll::Ready(Err(code)),
        }
    }
}

/// What a `Gate` does with one write or flush.
#[derive(Clone)]
enum Order {
    UpTo(usize),
    NotYet,
    Fail(u32),
}

/// A sink that keeps what it takes and notes every call.
struct Gate {
    orders: Vec<Order>,
    rest: usize,
    writes: usize,
    flushes: Vec<Order>,
    flushed: usize,
    kept: Vec<u8>,
    calls: Vec<Call>,
}

impl Gate {
    fn per_call(rest: usize) -> Self {
        Gate::with(Vec::new(), rest)
    }

    fn with(orders: Vec<Order>, rest: usize) -> Self {
        Gate {
            orders,
            rest,
            writes: 0,
            flushes: Vec::new(),
            flushed: 0,
            kept: Vec::new(),
            calls: Vec::new(),
        }
    }
}

impl AsyncWrite for Gate {
    type WriteError = u32;
    type FlushError = u64;
    type CloseError = u32;

    fn poll_write(&mut self, _cx: &mut Context<'_>, buf: &[u8]) -> Poll<Result<usize, u32>> {
        self.calls.push(Call::Write(buf.len()));
        let order = if self.writes < self.orders.len() {
            self.orders[self.writes].clone()
        } else {
            Order::UpTo(self.rest)
        };
        self.writes += 1;
        match order {
            Order::UpTo(k) => {
                let n = k.min(buf.len());
                self.kept.extend_from_slice(&buf[..n]);
                Poll::Ready(Ok(n))
            }
            Order::NotYet => Poll::Pending,
            Order::Fail(code) => Poll::Ready(Err(code)),
        }
    }

    fn poll_flush(&mut self, _cx: &mut Context<'_>) -> Poll<Result<(), u64>> {
        self.calls.push(Call::Flush);
        let order = if self.flushed < self.flushes.len() {
            self.flushes[self.flushed].clone()
        } else {
            Order::UpTo(0)
        };
        self.flushed += 1;
        match order {
            Order::UpTo(_) => Poll::Ready(Ok(())),
            Order::NotYet => Poll::Pending,
            Order::Fail(code) => Poll::Ready(Err(code as u64)),
        }
    }

    fn poll_close(&mut self, _cx: &mut Context<'_>) -> Poll<Result<(), u32>> {
        Poll::Ready(Ok(()))
    }
}

#[test]
fn copy_starts_empty() {
    let mut src = Empty;
    let mut sink = Sink;
    let op: poll_io::copy::Copy<'_, Empty, Sink> = copy(&mut src, &mut sink);
    assert!(!op.read_done);
    assert_eq!(op.pos, 0);
    assert_eq!(op.cap, 0);
    assert_eq!(op.amt, 0);
    assert_eq!(op.buf.len(), RELAY);
    assert_eq!(RELAY, 2048);
    assert_eq!(op.turn(), Turn::Read);
}

#[test]
fn copy_total_is_what_the_sink_received() {
    let waker = futures::task::noop_waker();
    let mut cx = Context::from_waker(&waker);
    let mut src = Script::new(vec![
        Answer::Data(b"hello ".to_vec()),
        Answer::Data(b"world".to_vec()),
        Answer::Data(vec![]),
    ]);
    let mut sink = Gate::per_call(4);
    {
        let mut op = copy(&mut src, &mut sink);
        assert!(matches!(op.poll(&mut cx), Poll::Ready(Ok(11))));
        assert_eq!(op.amt, 11);
        assert!(op.read_done);
    }
    assert_eq!(sink.kept, b"hello world");
    assert_eq!(sink.kept.len(), 11);
    assert_eq!(src.offered, vec![2048, 2048, 2048]);
}

#[test]
fn copy_flushes_once_and_only_after_the_end() {
    let waker = futures::task::noop_waker();
    let mut cx = Context::from_waker(&waker);
    let mut src = Script::new(vec![
        Answer::Data(vec![1, 2, 3]),
        Answer::NotYet,
        Answer::Data(vec![4, 5]),
        Answer::Data(vec![]),
    ]);
    let mut sink = Gate::per_call(2);
    {
        let mut op = copy(&mut src, &mut sink);
        assert!(matches!(op.poll(&mut cx), Poll::Pending));
        assert_eq!(op.amt, 3);
        assert!(matches!(op.poll(&mut cx), Poll::Ready(Ok(5))));
    }
    assert_eq!(
        sink.calls,
        vec![Call::Write(3), Call::Write(1), Call::Write(2), Call::Flush]
    );
    assert_eq!(sink.flushed, 1);
    assert_eq!(sink.kept, vec![1, 2, 3, 4, 5]);
}

#[test]
fn copy_never_reads_while_bytes_are_unwritten() {
    let waker = futures::task::noop_waker();
    let mut cx = Context::from_waker(&waker);
    let mut src = Script::new(vec![Answer::Data(vec![1, 2, 3, 4]), Answer::Data(vec![])]);
    let mut sink = Gate::with(vec![Order::UpTo(1), Order::NotYet, Order::NotYet], 9);
    let mut op = copy(&mut src, &mut sink);
    assert!(matches!(op.poll(&mut cx), Poll::Pending));
    assert_eq!(op.reader.next, 1);
    assert_eq!(op.turn(), Turn::Write);
    assert_eq!((op.pos, op.cap), (1, 4));
    assert!(matches!(op.poll(&mut cx), Poll::Pending));
    assert_eq!(op.reader.next, 1);
    assert!(matches!(op.poll(&mut cx), Poll::Ready(Ok(4))));
    assert_eq!(op.reader.next, 2);
    assert_eq!(op.writer.kept, vec![1, 2, 3, 4]);
    assert_eq!(op.turn(), Turn::Flush);
}

#[test]
fn copy_fails_fast_on_a_zero_write() {
    let waker = futures::task::noop_waker();
    let mut cx = Context::from_waker(&waker);
    let mut src = Script::new(vec![Answer::Data(vec![1, 2, 3]), Answer::Data(vec![])]);
    let mut sink = Gate::with(vec![Order::UpTo(2), Order::UpTo(0)], 9);
    {
        let mut op = copy(&mut src, &mut sink);
        assert!(matches!(op.poll(&mut cx), Poll::Ready(Err(CopyError::WriteZero))));
        assert_eq!(op.amt, 2);
    }
    assert_eq!(sink.calls, vec![Call::Write(3), Call::Write(1)]);
    assert_eq!(src.next, 1);
}

#[test]
fn copy_names_the_side_that_failed() {
    let waker = futures::task::noop_waker();
    let mut cx = Context::from_waker(&waker);
    {
        let mut src = Script::new(vec![Answer::Data(vec![1]), Answer::Fail(7)]);
        let mut sink = Gate::per_call(9);
        let mut op = copy(&mut src, &mut sink);
        assert!(matches!(op.poll(&mut cx), Poll::Ready(Err(CopyError::Read(7)))));
        assert_eq!(op.amt, 1);
        assert_eq!(op.writer.flushed, 0);
    }
    {
        let mut src = Script::new(vec![Answer::Data(vec![1, 2])]);
        let mut sink = Gate::with(vec![Order::Fail(8)], 9);
        let mut op = copy(&mut src, &mut sink);
        assert!(matches!(op.poll(&mut cx), Poll::Ready(Err(CopyError::Write(8)))));
        assert_eq!(op.amt, 0);
    }
    {
        let mut src = Script::new(vec![Answer::Data(vec![1, 2])]);
        let mut sink = Gate::per_call(9);
        sink.flushes = vec![Order::Fail(9)];
        let mut op = copy(&mut src, &mut sink);
        assert!(matches!(op.poll(&mut cx), Poll::Ready(Err(CopyError::Flush(9)))));
        assert_eq!(op.amt, 2);
    }
}

#[test]
fn copy_polls_a_pending_flush_again() {
    let waker = futures::task::noop_waker();
    let mut cx = Context::from_waker(&waker);
    let mut src = Script::new(vec![Answer::Data(vec![1, 2])]);
    let mut sink = Gate::per_call(9);
    sink.flushes = vec![Order::NotYet];
    {
        let mut op = copy(&mut src, &mut sink);
        assert!(matches!(op.poll(&mut cx), Poll::Pending));
        assert!(op.read_done);
        assert!(matches!(op.poll(&mut cx), Poll::Ready(Ok(2))));
    }
    assert_eq!(sink.calls, vec![Call::Write(2), Call::Flush, Call::Flush]);
    assert_eq!(src.next, 2);
}

#[test]
fn copy_of_nothing_flushes_and_reports_zero() {
    let waker = futures::task::noop_waker();
    let mut cx = Context::from_waker(&waker);
    let mut src = Empty;
    let mut sink = Gate::per_call(9);
    {
        let mut op = copy(&mut src, &mut sink);
        assert!(matches!(op.poll(&mut cx), Poll::Ready(Ok(0))));
    }
    assert_eq!(sink.calls, vec![Call::Flush]);
}

#[test]
fn copy_moves_more_than_the_relay_holds() {
    let waker = futures::task::noop_waker();
    let mut cx = Context::from_waker(&waker);
    let data: Vec<u8> = (0..10_000u32).map(|i| (i % 251) as u8).collect();
    let mut src: &[u8] = &data;
    let mut sink: Vec<u8> = vec![0xEE];
    {
        let mut op = copy(&mut src, &mut sink);
        assert!(matches!(op.poll(&mut cx), Poll::Ready(Ok(10_000))));
    }
    assert_eq!(sink.len(), 10_001);
    assert_eq!(sink[0], 0xEE);
    assert_eq!(&sink[1..], &data[..]);
    assert!(src.is_empty());
}

#[test]
fn copy_of_a_capped_endless_source() {
    let waker = futures::task::noop_waker();
    let mut cx = Context::from_waker(&waker);
    let mut src = Repeat::new(3).take(5000);
    let mut sink = Gate::per_call(4096);
    {
        let mut op = copy(&mut src, &mut sink);
        assert!(matches!(op.poll(&mut cx), Poll::Ready(Ok(5000))));
    }
    assert_eq!(sink.kept, vec![3u8; 5000]);
    assert_eq!(
        sink.calls,
        vec![Call::Write(2048), Call::Write(2048), Call::Write(904), Call::Flush]
    );
    assert_eq!(src.limit(), 0);
}

#[test]
fn copy_counts_on_from_where_the_count_stands() {
    let waker = futures::task::noop_waker();
    let mut cx = Context::from_waker(&waker);
    let data = [1u8, 2, 3];
    let mut src: &[u8] = &data;
    let mut sink = Sink;
    let mut op = copy(&mut src, &mut sink);
    op.amt = 40;
    assert!(matches!(op.poll(&mut cx), Poll::Ready(Ok(43))));
}

#[test]
fn copy_yields_once_when_the_count_passes_64_bits() {
    let waker = futures::task::noop_waker();
    let mut cx = Context::from_waker(&waker);
    let data = [1u8, 2, 3, 4];
    let mut src: &[u8] = &data;
    let mut sink: Vec<u8> = Vec::new();
    let mut op = copy(&mut src, &mut sink);
    op.amt = u64::MAX - 1;
    assert!(matches!(op.poll(&mut cx), Poll::Pending));
    assert_eq!(op.amt, 2);
    assert_eq!(op.writer.as_slice(), &[1, 2, 3, 4]);
    assert!(matches!(op.poll(&mut cx), Poll::Ready(Ok(2))));
}
