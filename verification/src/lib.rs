//! Poll-based byte sources and sinks, and the operations built on them.
//!
//! A stream is polled: each call attempts progress and answers either with
//! a result or with `Pending`, in which case the task is woken through the
//! context when another attempt is worthwhile. Nothing here blocks.
//!
//! - [`read`] and [`write`] hold the two stream traits, `AsyncRead` and
//!   `AsyncWrite`, with the streams that memory offers: a byte slice reads,
//!   a vector writes.
//! - [`simple`] holds the streams that need nothing behind them, [`join`]
//!   makes one stream of a source and a sink.
//! - [`ext`] holds the operations on one stream: a single read or write,
//!   filling a buffer, writing one out, reading to the end, chaining and
//!   capping sources. [`copy`] relays a source to a sink.
//! - [`record`] is the vocabulary in which the contracts of the operations
//!   speak of the polls they make, and [`laws`] states what follows.
//!
//! Every stream says in its `read_step` or `write_step` which answers it
//! can give in which state, and a source says in `keeps_rest` whether it
//! leaves the buffer alone beyond the bytes it hands out. An operation's
//! contract then tells, for each sequence of answers, what the operation
//! does with them.

pub mod buf;
pub mod compat;
pub mod copy;
pub mod ext;
pub mod join;
pub mod laws;
pub mod read;
pub mod record;
pub mod simple;
pub mod task;
pub mod write;

pub use crate::compat::Compat;
pub use crate::copy::{copy, CopyError};
pub use crate::ext::read::{
    AsyncReadExt, Chain, ChainError, Read, ReadBuf, ReadExact, ReadExactError, ReadToEnd,
    ReadToString, ReadToStringError, Take,
};
pub use crate::ext::write::{
    AsyncWriteExt, Close, Flush, Shutdown, Write, WriteAll, WriteAllError, WriteBuf,
};
pub use crate::join::{Join, Split};
pub use crate::read::AsyncRead;
pub use crate::simple::{Empty, Repeat, Sink};
pub use crate::write::AsyncWrite;
