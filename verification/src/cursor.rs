//! The mathematical model of a byte stream: a sequence of bytes, a position in
//! it, a mark, and the byte consumed last.

use vstd::prelude::*;

verus! {

/// What a [`crate::ByteStream`] stands for in contracts.
pub struct Cursor {
    /// The whole buffer; no operation changes it.
    pub bytes: Seq<u8>,
    /// The number of bytes consumed so far.
    pub position: int,
    /// The index at which the pending slice starts.
    pub mark: int,
    /// The byte consumed last; `0` before the first one.
    pub byte: u8,
}

impl Cursor {
    /// A fresh cursor over `bytes`: nothing consumed, the mark at the start.
    pub open spec fn start(bytes: Seq<u8>) -> Cursor {
        Cursor { bytes, position: 0, mark: 0, byte: 0 }
    }

    /// Position and mark both lie within the buffer, its end included.
    pub open spec fn wf(self) -> bool {
        &&& 0 <= self.position <= self.bytes.len()
        &&& 0 <= self.mark <= self.bytes.len()
    }

    /// Every byte has been consumed.
    pub open spec fn at_end(self) -> bool {
        self.position == self.bytes.len()
    }

    /// The number of bytes not yet consumed.
    pub open spec fn available(self) -> int {
        self.bytes.len() - self.position
    }

    /// At least `count` bytes are not yet consumed.
    pub open spec fn has_bytes(self, count: int) -> bool {
        self.position + count <= self.bytes.len()
    }

    /// The cursor after consuming one byte.
    pub open spec fn advance(self) -> Cursor
        recommends
            self.wf(),
            !self.at_end(),
    {
        Cursor { byte: self.bytes[self.position], position: self.position + 1, ..self }
    }

    /// The cursor after consuming `count` bytes one at a time.
    pub open spec fn advance_by(self, count: nat) -> Cursor
        recommends
            self.wf(),
            self.has_bytes(count as int),
        decreases count,
    {
        if count == 0 {
            self
        } else {
            self.advance_by((count - 1) as nat).advance()
        }
    }

    /// The cursor after consuming `count` bytes at once: the position has
    /// moved past them, and the last of them, if there is one, is the current
    /// byte.
    pub open spec fn consume(self, count: int) -> Cursor
        recommends
            self.wf(),
            0 <= count,
            self.has_bytes(count),
    {
        Cursor {
            byte: if count > 0 {
                self.bytes[self.position + count - 1]
            } else {
                self.byte
            },
            position: self.position + count,
            ..self
        }
    }

    /// The cursor moved forward by `count` bytes without reading any.
    pub open spec fn jump(self, count: int) -> Cursor
        recommends
            self.wf(),
            0 <= count,
            self.has_bytes(count),
    {
        Cursor { position: self.position + count, ..self }
    }

    /// The cursor moved back by `count` bytes.
    pub open spec fn rewind(self, count: int) -> Cursor
        recommends
            self.wf(),
            0 <= count <= self.position,
    {
        Cursor { position: self.position - count, ..self }
    }

    /// The cursor moved to `index`.
    pub open spec fn rewind_to(self, index: int) -> Cursor
        recommends
            0 <= index <= self.bytes.len(),
    {
        Cursor { position: index, ..self }
    }

    /// The cursor with its mark at `index`.
    pub open spec fn mark_at(self, index: int) -> Cursor
        recommends
            0 <= index <= self.bytes.len(),
    {
        Cursor { mark: index, ..self }
    }

    /// The cursor with its mark at the position.
    pub open spec fn mark_here(self) -> Cursor {
        self.mark_at(self.position)
    }

    /// The next `count` bytes.
    pub open spec fn peek(self, count: int) -> Seq<u8>
        recommends
            self.wf(),
            0 <= count,
            self.has_bytes(count),
    {
        self.bytes.subrange(self.position, self.position + count)
    }

    /// Every byte not yet consumed.
    pub open spec fn remaining(self) -> Seq<u8>
        recommends
            self.wf(),
    {
        self.bytes.subrange(self.position, self.bytes.len() as int)
    }

    /// The bytes from the mark up to the position.
    pub open spec fn slice(self) -> Seq<u8>
        recommends
            self.wf(),
            self.mark <= self.position,
    {
        self.bytes.subrange(self.mark, self.position)
    }

    /// The bytes from the mark up to the position, without the last of them.
    pub open spec fn slice_ignoring_last(self) -> Seq<u8>
        recommends
            self.wf(),
            self.mark < self.position,
    {
        self.bytes.subrange(self.mark, self.position - 1)
    }

    /// The number of bytes from the mark up to the position.
    pub open spec fn slice_length(self) -> int {
        self.position - self.mark
    }
}

} // verus!
