//! Reading a source to its end as text.

use core::str::Utf8Error;
use core::task::{Context, Poll};
use vstd::prelude::*;
use vstd::string::{StrSliceExecFns, StringSliceAdditionalSpecFns};
use vstd::utf8::{encode_utf8, valid_utf8};
use crate::ext::read::read_to_end::{read_to_end_internal, read_to_end_polled};
use crate::read::AsyncRead;
use crate::record::{yielded, ReadStep};

verus! {

/// `core::str::Utf8Error`: where and why bytes are not UTF-8.
#[verifier::external_type_specification]
#[verifier::external_body]
pub struct ExUtf8Error(Utf8Error);

/// Why a source could not be read as text.
#[derive(Debug)]
pub enum ReadToStringError<T> {
    /// The source failed.
    Read(T),
    /// The bytes that were read are not UTF-8.
    Utf8(Utf8Error),
}

/// The operation that appends to the string `buf` all that the source
/// yields until it ends. While it runs, the bytes are collected in `bytes`
/// and `buf` is empty; they become the text of `buf` only once they are
/// known to be UTF-8 as a whole.
#[derive(Debug)]
#[must_use]
pub struct ReadToString<'a, R> {
    pub reader: &'a mut R,
    pub buf: &'a mut String,
    pub bytes: Vec<u8>,
    pub start_len: usize,
}

/// Calls `core::str::from_utf8`, which accepts exactly the byte sequences
/// that are valid UTF-8 and returns them, unchanged, as a string slice.
#[verifier::external_body]
fn from_utf8<'a>(bytes: &'a [u8]) -> (r: Result<&'a str, Utf8Error>)
    ensures
        r is Ok <==> valid_utf8(bytes@),
        r matches Ok(s) ==> s.spec_bytes() == bytes@,
{
    core::str::from_utf8(bytes)
}

/// The operation that reads `reader` to its end and appends to `buf` as
/// text. The bytes of `buf` move into the operation, and `buf` is empty
/// until the operation has succeeded.
pub fn read_to_string<'a, R: AsyncRead>(reader: &'a mut R, buf: &'a mut String) -> (op:
    ReadToString<'a, R>)
    ensures
        op.wf(),
        op.start_len == encode_utf8(old(buf)@).len(),
        op.bytes@ == encode_utf8(old(buf)@),
        op.buf@ == Seq::<char>::empty(),
        *op.reader == *old(reader),
        *final(op.reader) == *final(reader),
        *final(op.buf) == *final(buf),
{
    let bytes: Vec<u8> = buf.as_str().as_bytes_vec();
    let start_len: usize = bytes.len();
    let mut taken = String::new();
    core::mem::swap(buf, &mut taken);
    ReadToString { reader, buf, bytes, start_len }
}

/// What one call of `read_to_string_internal` does, given the polls `t`
/// that it made and the answer `ret` that reading to the end gave.
///
/// The bytes are collected as `read_to_end_internal` collects them. While
/// the source has nothing ready, that is all. Else the collected bytes are
/// judged as a whole: if they are UTF-8 they become the text and the
/// answer of the read is passed on; if not, the text stays as it was and
/// the answer is the error of the read or, where the read succeeded, the
/// decoding error.
pub open spec fn read_to_string_polled<R: AsyncRead>(
    t: Seq<ReadStep<R>>,
    ret: Poll<Result<usize, R::Error>>,
    a0: R,
    a1: R,
    text0: Seq<char>,
    text1: Seq<char>,
    bytes0: Seq<u8>,
    bytes1: Seq<u8>,
    start_len: nat,
    r: Poll<Result<usize, ReadToStringError<R::Error>>>,
) -> bool {
    let all = bytes0 + yielded(t);
    &&& read_to_end_polled(t, a0, a1, bytes0, all, start_len, ret)
    &&& match ret {
        Poll::Pending => {
            &&& r is Pending
            &&& bytes1 == all
            &&& text1 == text0
        },
        Poll::Ready(inner) => {
            if valid_utf8(all) {
                &&& encode_utf8(text1) == all
                &&& bytes1 == Seq::<u8>::empty()
                &&& match inner {
                    Ok(n) => r == Poll::<Result<usize, ReadToStringError<R::Error>>>::Ready(Ok(n)),
                    Err(e) => r == Poll::<Result<usize, ReadToStringError<R::Error>>>::Ready(
                        Err(ReadToStringError::Read(e)),
                    ),
                }
            } else {
                &&& text1 == text0
                &&& bytes1 == all
                &&& match inner {
                    Ok(_) => r matches Poll::Ready(Err(ReadToStringError::Utf8(_))),
                    Err(e) => r == Poll::<Result<usize, ReadToStringError<R::Error>>>::Ready(
                        Err(ReadToStringError::Read(e)),
                    ),
                }
            }
        },
    }
}

/// Reads `reader` to its end into `bytes` and, when that is over, turns
/// `bytes` into the text of `buf` if they are UTF-8.
pub fn read_to_string_internal<R: AsyncRead>(
    reader: &mut R,
    cx: &mut Context<'_>,
    buf: &mut String,
    bytes: &mut Vec<u8>,
    start_len: usize,
) -> (r: Poll<Result<usize, ReadToStringError<R::Error>>>)
    requires
        start_len <= old(bytes)@.len(),
    ensures
        exists|t: Seq<ReadStep<R>>, ret: Poll<Result<usize, R::Error>>| #[trigger]
            read_to_string_polled(
                t,
                ret,
                *old(reader),
                *final(reader),
                old(buf)@,
                final(buf)@,
                old(bytes)@,
                final(bytes)@,
                start_len as nat,
                r,
            ),
{
    let ret = read_to_end_internal(reader, cx, bytes, start_len);
    let ghost t = choose|t: Seq<ReadStep<R>>| #[trigger]
        read_to_end_polled(t, *old(reader), *reader, old(bytes)@, bytes@, start_len as nat, ret);
    let ghost gret = ret;
    let inner = match ret {
        Poll::Pending => {
            let out = Poll::Pending;
            assert(read_to_string_polled(
                t,
                gret,
                *old(reader),
                *reader,
                old(buf)@,
                buf@,
                old(bytes)@,
                bytes@,
                start_len as nat,
                out,
            ));
            return out;
        },
        Poll::Ready(inner) => inner,
    };
    match from_utf8(bytes.as_slice()) {
        Err(e) => {
            let out = Poll::Ready(
                match inner {
                    Ok(_) => Err(ReadToStringError::Utf8(e)),
                    Err(x) => Err(ReadToStringError::Read(x)),
                },
            );
            assert(read_to_string_polled(
                t,
                gret,
                *old(reader),
                *reader,
                old(buf)@,
                buf@,
                old(bytes)@,
                bytes@,
                start_len as nat,
                out,
            ));
            out
        },
        Ok(s) => {
            *buf = s.to_owned();
            bytes.clear();
            let out = Poll::Ready(
                match inner {
                    Ok(n) => Ok(n),
                    Err(x) => Err(ReadToStringError::Read(x)),
                },
            );
            assert(read_to_string_polled(
                t,
                gret,
                *old(reader),
                *reader,
                old(buf)@,
                buf@,
                old(bytes)@,
                bytes@,
                start_len as nat,
                out,
            ));
            out
        },
    }
}

impl<'a, R: AsyncRead> ReadToString<'a, R> {
    /// The collected bytes are at least as many as the string held when
    /// the operation was made.
    pub open spec fn wf(&self) -> bool {
        self.start_len <= self.bytes@.len()
    }

    /// `self` is what a call of `poll` that made the polls `t`, got `ret`
    /// from reading to the end and answered `r` leaves of `before`.
    pub open spec fn polled(
        &self,
        before: &Self,
        t: Seq<ReadStep<R>>,
        ret: Poll<Result<usize, R::Error>>,
        r: Poll<Result<usize, ReadToStringError<R::Error>>>,
    ) -> bool {
        &&& self.start_len == before.start_len
        &&& read_to_string_polled(
            t,
            ret,
            *before.reader,
            *self.reader,
            before.buf@,
            self.buf@,
            before.bytes@,
            self.bytes@,
            before.start_len as nat,
            r,
        )
    }

    /// One call of `read_to_string_internal` on the source, the string and
    /// the collected bytes.
    pub fn poll(&mut self, cx: &mut Context<'_>) -> (r: Poll<
        Result<usize, ReadToStringError<R::Error>>,
    >)
        requires
            old(self).wf(),
        ensures
            *final(final(self).reader) == *final(old(self).reader),
            *final(final(self).buf) == *final(old(self).buf),
            r is Pending ==> final(self).wf(),
            exists|t: Seq<ReadStep<R>>, ret: Poll<Result<usize, R::Error>>| #[trigger]
                final(self).polled(old(self), t, ret, r),
    {
        let r = read_to_string_internal(
            self.reader,
            cx,
            self.buf,
            &mut self.bytes,
            self.start_len,
        );
        proof {
            let (t, ret) = choose|t: Seq<ReadStep<R>>, ret: Poll<Result<usize, R::Error>>| #[trigger]
                read_to_string_polled(
                    t,
                    ret,
                    *old(self).reader,
                    *self.reader,
                    old(self).buf@,
                    self.buf@,
                    old(self).bytes@,
                    self.bytes@,
                    self.start_len as nat,
                    r,
                );
            assert(self.polled(old(self), t, ret, r));
        }
        r
    }
}

} // verus!
