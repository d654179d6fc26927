//! The buffer type that is handed to a stream.

use vstd::prelude::*;

use std::io::{Cursor, IoSlice};

use crate::data_buf;
use crate::data_buf::{contiguous, cursor_content, filled, gathered, DataBuf};

verus! {

/// Data on its way into a stream.
pub enum SendBuf<B> {
    /// A chunk that a body produced.
    Buf(B),
    /// Bytes that were copied.
    Cursor(Cursor<Box<[u8]>>),
    /// No data.
    Empty,
}

impl<B: DataBuf> SendBuf<B> {
    /// The bytes that are still to be sent.
    pub open spec fn content(&self) -> Seq<u8> {
        match self {
            SendBuf::Buf(b) => b.content(),
            SendBuf::Cursor(c) => cursor_content(*c),
            SendBuf::Empty => Seq::empty(),
        }
    }

    /// The part of the content that can be read at once.
    pub open spec fn front(&self) -> Seq<u8> {
        match self {
            SendBuf::Buf(b) => b.front(),
            SendBuf::Cursor(c) => cursor_content(*c),
            SendBuf::Empty => Seq::empty(),
        }
    }

    /// The parts of the content that can be read at once through `slots` slots.
    pub open spec fn pieces(&self, slots: nat) -> Seq<Seq<u8>> {
        match self {
            SendBuf::Buf(b) => b.pieces(slots),
            SendBuf::Cursor(c) => contiguous(cursor_content(*c), slots),
            SendBuf::Empty => Seq::empty(),
        }
    }

    /// The number of bytes that are still to be sent.
    pub fn remaining(&self) -> (n: usize)
        ensures
            n == self.content().len(),
    {
        match self {
            SendBuf::Buf(b) => b.remaining(),
            SendBuf::Cursor(c) => data_buf::cursor_remaining(c),
            SendBuf::Empty => 0,
        }
    }

    /// The part of the content that can be read at once. It is empty only if nothing is left.
    pub fn chunk(&self) -> (front: &[u8])
        ensures
            front@ == self.front(),
            self.front().is_prefix_of(self.content()),
            self.front().len() == 0 <==> self.content().len() == 0,
    {
        match self {
            SendBuf::Buf(b) => b.chunk(),
            SendBuf::Cursor(c) => data_buf::cursor_chunk(c),
            SendBuf::Empty => &[],
        }
    }

    /// Skips `cnt` bytes. Where there is no data, any `cnt` is accepted and nothing is skipped.
    pub fn advance(&mut self, cnt: usize)
        requires
            *old(self) is Empty || cnt <= old(self).content().len(),
        ensures
            *final(self) is Buf == *old(self) is Buf,
            *final(self) is Cursor == *old(self) is Cursor,
            *final(self) !is Empty ==> final(self).content() == old(self).content().skip(cnt as int),
    {
        match self {
            SendBuf::Buf(b) => b.advance(cnt),
            SendBuf::Cursor(c) => data_buf::cursor_advance(c, cnt),
            SendBuf::Empty => {},
        }
    }

    /// Fills `dst` with slices of the content, from its start on, and returns
    /// how many were written.
    pub fn chunks_vectored<'a>(&'a self, dst: &mut [IoSlice<'a>]) -> (n: usize)
        ensures
            n == self.pieces(old(dst)@.len()).len(),
            filled(old(dst)@, final(dst)@, self.pieces(old(dst)@.len())),
            gathered(self.pieces(old(dst)@.len())).is_prefix_of(self.content()),
            gathered(self.pieces(old(dst)@.len())).len() == 0 <==> self.content().len() == 0 || old(dst)@.len() == 0,
            self.content().len() == 0 ==> n == 0,
    {
        match self {
            SendBuf::Buf(b) => b.chunks_vectored(dst),
            SendBuf::Cursor(c) => {
                proof {
                    data_buf::lemma_contiguous(cursor_content(*c), dst@.len());
                }
                data_buf::cursor_chunks_vectored(c, dst)
            },
            SendBuf::Empty => 0,
        }
    }
}

/// Reading loses nothing: what is read from the front of a buffer, whether as
/// its chunk or through slots, followed by what is left after advancing by as
/// much, is the content that there was.
pub proof fn law_reading_loses_nothing<B: DataBuf>(before: SendBuf<B>, after: SendBuf<B>, read: Seq<u8>)
    requires
        read.is_prefix_of(before.content()),
        after.content() == before.content().skip(read.len() as int),
    ensures
        before.content() == read + after.content(),
{
    assert(before.content() =~= read + after.content());
}

/// A buffer holds what was put into it: all the bytes of a chunk, all the bytes
/// from the position of a cursor on, or none.
pub proof fn law_content_is_what_was_put_in<B: DataBuf>(chunk: B, cursor: Cursor<Box<[u8]>>)
    ensures
        SendBuf::Buf(chunk).content() == chunk.content(),
        SendBuf::<B>::Cursor(cursor).content() == cursor_content(cursor),
        SendBuf::<B>::Empty.content().len() == 0,
{
}

/// A chunk is read through a buffer just as it is read directly, at once or through any number of slots.
pub proof fn law_chunk_is_read_as_it_is<B: DataBuf>(chunk: B, slots: nat)
    ensures
        SendBuf::Buf(chunk).front() == chunk.front(),
        SendBuf::Buf(chunk).pieces(slots) == chunk.pieces(slots),
{
}

/// What is left of a cursor is read at once, or through one slot if there is any.
pub proof fn law_cursor_is_read_at_once<B: DataBuf>(cursor: Cursor<Box<[u8]>>, slots: nat)
    ensures
        SendBuf::<B>::Cursor(cursor).front() == cursor_content(cursor),
        SendBuf::<B>::Cursor(cursor).pieces(slots).len() <= 1,
        slots > 0 ==> gathered(SendBuf::<B>::Cursor(cursor).pieces(slots)) == cursor_content(cursor),
        slots == 0 ==> SendBuf::<B>::Cursor(cursor).pieces(slots).len() == 0,
{
    data_buf::lemma_contiguous(cursor_content(cursor), slots);
}

/// Where there is no data, nothing is read.
pub proof fn law_empty_reads_nothing<B: DataBuf>(slots: nat)
    ensures
        SendBuf::<B>::Empty.front().len() == 0,
        SendBuf::<B>::Empty.pieces(slots).len() == 0,
{
}

} // verus!
