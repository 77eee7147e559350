use core::task::{Context, Poll};
use poll_io::{
    AsyncRead, AsyncReadExt, AsyncWrite, AsyncWriteExt, Compat, Empty, Join, Repeat, Sink, Split,
};

/// A sink that counts what it is asked and can be told to wait or fail.
struct Counter {
    writes: usize,
    flushes: usize,
    closes: usize,
    answer: Poll<Result<(), u8>>,
    kept: Vec<u8>,
}

impl Counter {
    fn new(answer: Poll<Result<(), u8>>) -> Self {
        Counter { writes: 0, flushes: 0, closes: 0, answer, kept: Vec::new() }
    }
}

impl AsyncWrite for Counter {
    type WriteError = u8;
    type FlushError = u8;
    type CloseError = u8;

    fn poll_write(&mut self, _cx: &mut Context<'_>, buf: &[u8]) -> Poll<Result<usize, u8>> {
        self.writes += 1;
        match self.answer {
            Poll::Ready(Ok(())) => {
                let n = buf.len().min(3);
                self.kept.extend_from_slice(&buf[..n]);
                Poll::Ready(Ok(n))
            }
            Poll::Ready(Err(e)) => Poll::Ready(Err(e)),
            Poll::Pending => Poll::Pending,
        }
    }

    fn poll_flush(&mut self, _cx: &mut Context<'_>) -> Poll<Result<(), u8>> {
        self.flushes += 1;
        self.answer
    }

    fn poll_close(&mut self, _cx: &mut Context<'_>) -> Poll<Result<(), u8>> {
        self.closes += 1;
        self.answer
    }
}

#[test]
fn sink_takes_everything() {
    let waker = futures::task::noop_waker();
    let mut cx = Context::from_waker(&waker);
    let mut sink = Sink;
    assert!(matches!(sink.poll_write(&mut cx, b"abcdef"), Poll::Ready(Ok(6))));
    assert!(matches!(sink.poll_write(&mut cx, b""), Poll::Ready(Ok(0))));
    assert!(matches!(sink.poll_flush(&mut cx), Poll::Ready(Ok(()))));
    assert!(matches!(sink.poll_close(&mut cx), Poll::Ready(Ok(()))));
}

#[test]
fn vector_appends_everything() {
    let waker = futures::task::noop_waker();
    let mut cx = Context::from_waker(&waker);
    let mut sink: Vec<u8> = vec![1];
    assert!(matches!(sink.poll_write(&mut cx, &[2, 3]), Poll::Ready(Ok(2))));
    assert!(matches!(sink.poll_write(&mut cx, &[]), Poll::Ready(Ok(0))));
    assert!(matches!(sink.poll_write(&mut cx, &[4]), Poll::Ready(Ok(1))));
    assert!(matches!(sink.poll_flush(&mut cx), Poll::Ready(Ok(()))));
    assert!(matches!(sink.poll_close(&mut cx), Poll::Ready(Ok(()))));
    assert_eq!(sink, vec![1, 2, 3, 4]);
}

#[test]
fn write_polls_once_and_passes_the_answer_on() {
    let waker = futures::task::noop_waker();
    let mut cx = Context::from_waker(&waker);
    let mut sink = Counter::new(Poll::Ready(Ok(())));
    {
        let mut op = sink.write(b"hello");
        assert!(matches!(op.poll(&mut cx), Poll::Ready(Ok(3))));
        assert_eq!(op.buf, b"hello");
    }
    assert_eq!(sink.writes, 1);
    assert_eq!(sink.kept, b"hel");
    sink.answer = Poll::Ready(Err(9));
    {
        let mut op = sink.write(b"hello");
        assert!(matches!(op.poll(&mut cx), Poll::Ready(Err(9))));
    }
    sink.answer = Poll::Pending;
    {
        let mut op = sink.write(b"hello");
        assert!(matches!(op.poll(&mut cx), Poll::Pending));
    }
    assert_eq!(sink.writes, 3);
}

#[test]
fn flush_close_and_shutdown_poll_once_each() {
    let waker = futures::task::noop_waker();
    let mut cx = Context::from_waker(&waker);
    let mut sink = Counter::new(Poll::Pending);
    {
        let mut op = sink.flush();
        assert!(matches!(op.poll(&mut cx), Poll::Pending));
    }
    assert_eq!((sink.flushes, sink.closes), (1, 0));
    sink.answer = Poll::Ready(Ok(()));
    {
        let mut op = sink.flush();
        assert!(matches!(op.poll(&mut cx), Poll::Ready(Ok(()))));
    }
    {
        let mut op = sink.close();
        assert!(matches!(op.poll(&mut cx), Poll::Ready(Ok(()))));
    }
    assert_eq!((sink.flushes, sink.closes), (2, 1));
    sink.answer = Poll::Ready(Err(4));
    {
        let mut op = sink.shutdown();
        assert!(matches!(op.poll(&mut cx), Poll::Ready(Err(4))));
    }
    {
        let mut op = sink.close();
        assert!(matches!(op.poll(&mut cx), Poll::Ready(Err(4))));
    }
    {
        let mut op = sink.flush();
        assert!(matches!(op.poll(&mut cx), Poll::Ready(Err(4))));
    }
    assert_eq!((sink.writes, sink.flushes, sink.closes), (0, 3, 3));
}

#[test]
fn references_and_boxes_are_sinks() {
    let waker = futures::task::noop_waker();
    let mut cx = Context::from_waker(&waker);
    let mut sink: Vec<u8> = Vec::new();
    {
        let mut by_ref = &mut sink;
        assert!(matches!(by_ref.poll_write(&mut cx, &[1, 2]), Poll::Ready(Ok(2))));
        assert!(matches!(by_ref.poll_flush(&mut cx), Poll::Ready(Ok(()))));
        assert!(matches!(by_ref.poll_close(&mut cx), Poll::Ready(Ok(()))));
    }
    let mut boxed = Box::new(sink);
    assert!(matches!(boxed.poll_write(&mut cx, &[3]), Poll::Ready(Ok(1))));
    assert!(matches!(boxed.poll_flush(&mut cx), Poll::Ready(Ok(()))));
    assert!(matches!(boxed.poll_close(&mut cx), Poll::Ready(Ok(()))));
    assert_eq!(*boxed, vec![1, 2, 3]);
}

#[test]
fn join_reads_from_one_half_and_writes_to_the_other() {
    let waker = futures::task::noop_waker();
    let mut cx = Context::from_waker(&waker);
    let mut both = Join::new(Repeat::new(5).take(2), Counter::new(Poll::Ready(Ok(()))));
    let mut buf = [0u8; 4];
    assert!(matches!(both.poll_read(&mut cx, &mut buf), Poll::Ready(Ok(2))));
    assert_eq!(&buf[..2], &[5, 5]);
    assert!(matches!(both.poll_write(&mut cx, b"abcd"), Poll::Ready(Ok(3))));
    assert!(matches!(both.poll_flush(&mut cx), Poll::Ready(Ok(()))));
    assert!(matches!(both.poll_close(&mut cx), Poll::Ready(Ok(()))));
    let (read, write) = both.split();
    assert_eq!(read.limit(), 0);
    assert_eq!(write.kept, b"abc");
    assert_eq!((write.writes, write.flushes, write.closes), (1, 1, 1));
}

#[test]
fn compat_holds_its_stream() {
    let mut c = Compat::new(Repeat::new(1).take(8));
    assert_eq!(c.get_ref().limit(), 8);
    c.get_mut().set_limit(3);
    assert_eq!(c.into_inner().limit(), 3);
    let e: Compat<Empty> = Compat::new(Empty);
    let _inner: Empty = e.into_inner();
}
