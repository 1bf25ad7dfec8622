//! The byte stream itself: construction, navigation and slicing.

use vstd::prelude::*;
use crate::cursor::Cursor;

verus! {

/// A cursor over a borrowed buffer of bytes.
///
/// The fields are public, as parsers built on a stream read and set them
/// directly; whoever sets one keeps [`ByteStream::wf`] true.
pub struct ByteStream<'a> {
    /// The byte consumed last.
    pub byte: u8,
    /// The index at which the pending slice starts.
    pub mark_index: usize,
    /// The buffer.
    pub stream: &'a [u8],
    /// The number of bytes consumed so far.
    pub stream_index: usize,
}

impl<'a> View for ByteStream<'a> {
    type V = Cursor;

    open spec fn view(&self) -> Cursor {
        Cursor {
            bytes: self.stream@,
            position: self.stream_index as int,
            mark: self.mark_index as int,
            byte: self.byte,
        }
    }
}

impl<'a> ByteStream<'a> {
    /// The stream's invariant: neither index lies beyond the buffer's end.
    pub open spec fn wf(&self) -> bool {
        self@.wf()
    }

    /// Creates a stream at the start of `stream`.
    pub fn new(stream: &'a [u8]) -> (s: ByteStream<'a>)
        ensures
            s@ == Cursor::start(stream@),
            s.stream == stream,
            s.wf(),
    {
        ByteStream { byte: 0, mark_index: 0, stream, stream_index: 0 }
    }

    /// Tells whether every byte has been consumed.
    pub fn at_end(&self) -> (r: bool)
        ensures
            r == self@.at_end(),
    {
        self.stream_index == self.stream.len()
    }

    /// The number of bytes not yet consumed.
    pub fn available(&self) -> (r: usize)
        requires
            self.wf(),
        ensures
            r == self@.available(),
    {
        self.stream.len() - self.stream_index
    }

    /// Tells whether at least `count` bytes are not yet consumed.
    pub fn has_bytes(&self, count: usize) -> (r: bool)
        requires
            self.wf(),
        ensures
            r == self@.has_bytes(count as int),
    {
        count <= self.stream.len() - self.stream_index
    }

    /// Consumes one byte: it becomes the current byte, and the position moves
    /// past it. The caller makes sure that a byte is left.
    pub fn advance(&mut self)
        requires
            old(self).wf(),
            !old(self)@.at_end(),
        ensures
            final(self)@ == old(self)@.advance(),
            final(self).stream == old(self).stream,
            final(self).wf(),
    {
        self.byte = self.stream[self.stream_index];
        self.stream_index += 1;
    }

    /// Moves the position forward by `count` bytes without reading them.
    pub fn jump(&mut self, count: usize)
        requires
            old(self).wf(),
            old(self)@.has_bytes(count as int),
        ensures
            final(self)@ == old(self)@.jump(count as int),
            final(self).stream == old(self).stream,
            final(self).wf(),
    {
        assert(self.stream@.len() == self.stream.len());
        self.stream_index += count;
    }

    /// Moves the position back by `count` bytes. The current byte stays.
    pub fn rewind(&mut self, count: usize)
        requires
            old(self).wf(),
            count <= old(self).stream_index,
        ensures
            final(self)@ == old(self)@.rewind(count as int),
            final(self).stream == old(self).stream,
            final(self).wf(),
    {
        self.stream_index -= count;
    }

    /// Moves the position back by one byte, so that the byte consumed last is
    /// read again.
    pub fn replay(&mut self)
        requires
            old(self).wf(),
            old(self).stream_index >= 1,
        ensures
            final(self)@ == old(self)@.rewind(1),
            final(self).stream == old(self).stream,
            final(self).wf(),
    {
        self.rewind(1);
    }

    /// Sets the position to `index`. The current byte stays.
    pub fn rewind_to(&mut self, index: usize)
        requires
            old(self).wf(),
            index <= old(self).stream@.len(),
        ensures
            final(self)@ == old(self)@.rewind_to(index as int),
            final(self).stream == old(self).stream,
            final(self).wf(),
    {
        self.stream_index = index;
    }

    /// Sets the mark to the position.
    pub fn mark(&mut self)
        ensures
            final(self)@ == old(self)@.mark_here(),
            final(self).stream == old(self).stream,
            old(self).wf() ==> final(self).wf(),
    {
        self.mark_index = self.stream_index;
    }

    /// Sets the mark to `index`.
    pub fn mark_at(&mut self, index: usize)
        requires
            index <= old(self).stream@.len(),
        ensures
            final(self)@ == old(self)@.mark_at(index as int),
            final(self).stream == old(self).stream,
            old(self).wf() ==> final(self).wf(),
    {
        self.mark_index = index;
    }

    /// The next `count` bytes; the position stays.
    pub fn peek(&self, count: usize) -> (r: &'a [u8])
        requires
            self.wf(),
            self@.has_bytes(count as int),
        ensures
            r@ == self@.peek(count as int),
    {
        assert(self.stream@.len() == self.stream.len());
        &self.stream[self.stream_index..self.stream_index + count]
    }

    /// Every byte not yet consumed.
    pub fn remaining(&self) -> (r: &'a [u8])
        requires
            self.wf(),
        ensures
            r@ == self@.remaining(),
    {
        &self.stream[self.stream_index..self.stream.len()]
    }

    /// The bytes from the mark up to the position.
    pub fn slice(&self) -> (r: &'a [u8])
        requires
            self.wf(),
            self.mark_index <= self.stream_index,
        ensures
            r@ == self@.slice(),
    {
        &self.stream[self.mark_index..self.stream_index]
    }

    /// The bytes from the mark up to the position, without the last of them:
    /// the byte that ended a collection.
    pub fn slice_ignoring_last(&self) -> (r: &'a [u8])
        requires
            self.wf(),
            self.mark_index < self.stream_index,
        ensures
            r@ == self@.slice_ignoring_last(),
    {
        &self.stream[self.mark_index..self.stream_index - 1]
    }

    /// The number of bytes from the mark up to the position.
    pub fn slice_length(&self) -> (r: usize)
        requires
            self.mark_index <= self.stream_index,
        ensures
            r == self@.slice_length(),
    {
        self.stream_index - self.mark_index
    }
}

} // verus!
