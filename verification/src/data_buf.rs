//! Buffers of body data, as sequences of the bytes that are still to be read.

use vstd::prelude::*;

use bytes::{Buf, Bytes};
use std::io::{Cursor, IoSlice};

verus! {

/// Declares `bytes::Bytes`.
#[verifier::external_type_specification]
#[verifier::external_body]
pub struct ExBytes(bytes::Bytes);

/// Declares `std::io::Cursor`.
#[verifier::external_type_specification]
#[verifier::external_body]
#[verifier::reject_recursive_types(T)]
pub struct ExCursor<T>(std::io::Cursor<T>);

/// Declares `std::io::IoSlice`.
#[verifier::external_type_specification]
#[verifier::external_body]
pub struct ExIoSlice<'a>(std::io::IoSlice<'a>);

/// The bytes that a `Bytes` holds.
pub uninterp spec fn bytes_content(buf: Bytes) -> Seq<u8>;

/// The bytes of a cursor's buffer from its position on.
pub uninterp spec fn cursor_content(cursor: Cursor<Box<[u8]>>) -> Seq<u8>;

/// The bytes that an `IoSlice` refers to.
pub uninterp spec fn io_slice_content(slice: IoSlice<'_>) -> Seq<u8>;

/// The pieces, one after the other.
pub open spec fn gathered(pieces: Seq<Seq<u8>>) -> Seq<u8>
    decreases pieces.len(),
{
    if pieces.len() == 0 {
        Seq::empty()
    } else {
        gathered(pieces.drop_last()) + pieces.last()
    }
}

/// `after` is `before` with the first entries overwritten by slices of the `pieces`, one each.
pub open spec fn filled(before: Seq<IoSlice<'_>>, after: Seq<IoSlice<'_>>, pieces: Seq<Seq<u8>>) -> bool {
    &&& pieces.len() <= before.len()
    &&& after.len() == before.len()
    &&& forall|i: int| 0 <= i < pieces.len() ==> io_slice_content(#[trigger] after[i]) == pieces[i]
    &&& forall|i: int| pieces.len() <= i < before.len() ==> #[trigger] after[i] == before[i]
}

/// The pieces of a contiguous buffer that fit into `slots` slots.
pub open spec fn contiguous(content: Seq<u8>, slots: nat) -> Seq<Seq<u8>> {
    if slots == 0 || content.len() == 0 {
        Seq::empty()
    } else {
        seq![content]
    }
}

/// A chunk of body data, read from front to back.
///
/// Bodies bring their own types of data. One that is verified says what
/// `content`, `front` and `pieces` are and proves the rest; the defaults say
/// nothing, so that code outside of the verifier can implement the trait too.
pub trait DataBuf: Sized {
    /// The bytes that are still to be read.
    open spec fn content(&self) -> Seq<u8> {
        arbitrary()
    }

    /// The part of the content that can be read at once.
    open spec fn front(&self) -> Seq<u8> {
        arbitrary()
    }

    /// The parts of the content that can be read at once through `slots` slots.
    open spec fn pieces(&self, slots: nat) -> Seq<Seq<u8>> {
        arbitrary()
    }

    /// The number of bytes that are still to be read.
    fn remaining(&self) -> (n: usize)
        ensures
            n == self.content().len(),
    ;

    /// The part of the content that can be read at once. It is empty only if nothing is left.
    fn chunk(&self) -> (front: &[u8])
        ensures
            front@ == self.front(),
            self.front().is_prefix_of(self.content()),
            self.front().len() == 0 <==> self.content().len() == 0,
    ;

    /// Skips `cnt` bytes.
    fn advance(&mut self, cnt: usize)
        requires
            cnt <= old(self).content().len(),
        ensures
            final(self).content() == old(self).content().skip(cnt as int),
    ;

    /// Fills `dst` with slices of the content, from its start on, and returns
    /// how many were written.
    fn chunks_vectored<'a>(&'a self, dst: &mut [IoSlice<'a>]) -> (n: usize)
        ensures
            n == self.pieces(old(dst)@.len()).len(),
            filled(old(dst)@, final(dst)@, self.pieces(old(dst)@.len())),
            gathered(self.pieces(old(dst)@.len())).is_prefix_of(self.content()),
            gathered(self.pieces(old(dst)@.len())).len() == 0 <==> self.content().len() == 0 || old(dst)@.len() == 0,
            self.content().len() == 0 ==> n == 0,
    ;
}

/// Calls `Buf::remaining` of `Bytes`: the number of bytes that it holds.
#[verifier::external_body]
fn bytes_remaining(buf: &Bytes) -> (n: usize)
    ensures
        n == bytes_content(*buf).len(),
{
    Buf::remaining(buf)
}

/// Calls `Buf::chunk` of `Bytes`: all the bytes that it holds.
#[verifier::external_body]
fn bytes_chunk(buf: &Bytes) -> (chunk: &[u8])
    ensures
        chunk@ == bytes_content(*buf),
{
    Buf::chunk(buf)
}

/// Calls `Buf::advance` of `Bytes`, which drops the first `cnt` bytes. It
/// panics if there are fewer.
#[verifier::external_body]
fn bytes_advance(buf: &mut Bytes, cnt: usize)
    requires
        cnt <= bytes_content(*old(buf)).len(),
    ensures
        bytes_content(*final(buf)) == bytes_content(*old(buf)).skip(cnt as int),
{
    Buf::advance(buf, cnt)
}

/// Calls `Buf::chunks_vectored` of `Bytes`: all the bytes that it holds go
/// into the first slot; without a slot or without bytes nothing is written.
#[verifier::external_body]
fn bytes_chunks_vectored<'a>(buf: &'a Bytes, dst: &mut [IoSlice<'a>]) -> (n: usize)
    ensures
        final(dst)@.len() == old(dst)@.len(),
        bytes_content(*buf).len() == 0 || old(dst)@.len() == 0 ==> n == 0 && final(dst)@ == old(dst)@,
        bytes_content(*buf).len() > 0 && old(dst)@.len() > 0 ==> n == 1 && io_slice_content(final(dst)@[0])
            == bytes_content(*buf),
        forall|i: int| 1 <= i < old(dst)@.len() ==> #[trigger] final(dst)@[i] == old(dst)@[i],
{
    Buf::chunks_vectored(buf, dst)
}

/// Calls `Buf::remaining` of `Cursor`: the number of bytes from its position
/// on, none if the position lies behind the end.
#[verifier::external_body]
pub(crate) fn cursor_remaining(buf: &Cursor<Box<[u8]>>) -> (n: usize)
    ensures
        n == cursor_content(*buf).len(),
{
    Buf::remaining(buf)
}

/// Calls `Buf::chunk` of `Cursor`: all the bytes from its position on.
#[verifier::external_body]
pub(crate) fn cursor_chunk(buf: &Cursor<Box<[u8]>>) -> (chunk: &[u8])
    ensures
        chunk@ == cursor_content(*buf),
{
    Buf::chunk(buf)
}

/// Calls `Buf::advance` of `Cursor`, which moves its position by `cnt`. It
/// panics if there are fewer bytes from the position on.
#[verifier::external_body]
pub(crate) fn cursor_advance(buf: &mut Cursor<Box<[u8]>>, cnt: usize)
    requires
        cnt <= cursor_content(*old(buf)).len(),
    ensures
        cursor_content(*final(buf)) == cursor_content(*old(buf)).skip(cnt as int),
{
    Buf::advance(buf, cnt)
}

/// Calls `Buf::chunks_vectored` of `Cursor`: all the bytes from its position on go
/// into the first slot; without a slot or without bytes nothing is written.
#[verifier::external_body]
pub(crate) fn cursor_chunks_vectored<'a>(buf: &'a Cursor<Box<[u8]>>, dst: &mut [IoSlice<'a>]) -> (n: usize)
    ensures
        final(dst)@.len() == old(dst)@.len(),
        cursor_content(*buf).len() == 0 || old(dst)@.len() == 0 ==> n == 0 && final(dst)@ == old(dst)@,
        cursor_content(*buf).len() > 0 && old(dst)@.len() > 0 ==> n == 1 && io_slice_content(final(dst)@[0])
            == cursor_content(*buf),
        forall|i: int| 1 <= i < old(dst)@.len() ==> #[trigger] final(dst)@[i] == old(dst)@[i],
{
    Buf::chunks_vectored(buf, dst)
}

/// The pieces of a contiguous buffer make up its content, if there is a slot for it.
pub(crate) proof fn lemma_contiguous(content: Seq<u8>, slots: nat)
    ensures
        gathered(contiguous(content, slots)) == (if slots == 0 { Seq::<u8>::empty() } else { content }),
{
    reveal_with_fuel(gathered, 2);
    if slots > 0 && content.len() > 0 {
        assert(seq![content].drop_last() =~= Seq::<Seq<u8>>::empty());
        assert(gathered(seq![content]) =~= content);
    } else {
        assert(gathered(Seq::<Seq<u8>>::empty()) =~= Seq::<u8>::empty());
        assert(slots > 0 ==> content =~= Seq::<u8>::empty());
    }
}

impl DataBuf for Bytes {
    open spec fn content(&self) -> Seq<u8> {
        bytes_content(*self)
    }

    open spec fn front(&self) -> Seq<u8> {
        bytes_content(*self)
    }

    open spec fn pieces(&self, slots: nat) -> Seq<Seq<u8>> {
        contiguous(bytes_content(*self), slots)
    }

    fn remaining(&self) -> (n: usize) {
        bytes_remaining(self)
    }

    fn chunk(&self) -> (front: &[u8]) {
        bytes_chunk(self)
    }

    fn advance(&mut self, cnt: usize) {
        bytes_advance(self, cnt)
    }

    fn chunks_vectored<'a>(&'a self, dst: &mut [IoSlice<'a>]) -> (n: usize) {
        proof {
            lemma_contiguous(self.content(), dst@.len());
        }
        bytes_chunks_vectored(self, dst)
    }
}

/// A `Bytes` is read at once, or through one slot if there is any: all that it holds.
pub proof fn law_bytes_are_read_at_once(buf: Bytes, slots: nat)
    ensures
        buf.content() == bytes_content(buf),
        buf.front() == bytes_content(buf),
        buf.pieces(slots).len() <= 1,
        slots > 0 ==> gathered(buf.pieces(slots)) == bytes_content(buf),
        slots == 0 ==> buf.pieces(slots).len() == 0,
{
    lemma_contiguous(bytes_content(buf), slots);
}

/// Pieces that are split anywhere and gathered again are the same data.
pub proof fn law_gathering_joins(pieces: Seq<Seq<u8>>, more: Seq<Seq<u8>>)
    ensures
        gathered(pieces + more) == gathered(pieces) + gathered(more),
    decreases more.len(),
{
    if more.len() == 0 {
        assert(pieces + more =~= pieces);
        assert(gathered(pieces) + gathered(more) =~= gathered(pieces));
    } else {
        law_gathering_joins(pieces, more.drop_last());
        assert((pieces + more).drop_last() =~= pieces + more.drop_last());
        assert((pieces + more).last() == more.last());
        assert(gathered(pieces + more) =~= gathered(pieces) + gathered(more));
    }
}

} // verus!
