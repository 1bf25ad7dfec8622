//! The collection loop and the collectors built on it: consume bytes one at
//! a time until a byte, a count or the end of the stream stops the run.

use vstd::prelude::*;
use crate::cursor::Cursor;
use crate::stream::ByteStream;

verus! {

/// Why a collector returned.
#[derive(Clone, Copy, Debug, PartialEq, Eq, Structural)]
pub enum Stop {
    /// The end of the stream was reached. Nothing was consumed on that
    /// account.
    EndOfStream,
    /// The per-byte callback asked to stop at the byte just consumed.
    Callback,
    /// The byte just consumed does not belong to the run being collected.
    Delimiter,
    /// The requested number of bytes lies between the mark and the position.
    Length,
    /// The byte just consumed is a digit that the accumulator cannot take.
    Overflow,
}

/// A scan from `before` to `after` in which `f` was asked about each byte
/// consumed, and which went on until `f` answered `halt` (then `halted`
/// holds, and that byte is the last one consumed) or no byte was left.
pub open spec fn scanned<F: Fn(u8) -> bool>(
    before: Cursor,
    after: Cursor,
    f: F,
    halt: bool,
    halted: bool,
) -> bool {
    let count = after.position - before.position;
    &&& 0 <= count <= before.available()
    &&& after == before.consume(count)
    &&& forall|i: int|
        before.position <= i < after.position - 1 ==> f.ensures((#[trigger] before.bytes[i],), !halt)
    &&& if halted {
        count > 0 && f.ensures((after.byte,), halt)
    } else {
        after.at_end() && (count > 0 ==> f.ensures((after.byte,), !halt))
    }
}

/// A scan from `before` to `after` that consumed bytes until the callback
/// `f` asked to stop, the position came to lie `length` bytes behind the
/// mark, or no byte was left, and `stop` tells which. The callback is asked
/// first.
pub open spec fn measured<F: Fn(u8) -> bool>(
    before: Cursor,
    after: Cursor,
    length: int,
    f: F,
    stop: Stop,
) -> bool {
    let count = after.position - before.position;
    let target = before.mark + length;
    &&& 0 <= count <= before.available()
    &&& after == before.consume(count)
    &&& !(before.position < target < after.position)
    &&& forall|i: int|
        before.position <= i < after.position - 1 ==> f.ensures((#[trigger] before.bytes[i],), false)
    &&& match stop {
        Stop::EndOfStream => after.at_end() && (count > 0 ==> after.position != target
            && f.ensures((after.byte,), false)),
        Stop::Callback => count > 0 && f.ensures((after.byte,), true),
        Stop::Length => count > 0 && after.position == target && f.ensures(
            (after.byte,),
            false,
        ),
        _ => false,
    }
}

impl<'a> ByteStream<'a> {
    /// Consumes bytes, asking `f` about each, until `f` answers `halt` or no
    /// byte is left. Tells whether `f` ended the scan.
    fn scan<F: Fn(u8) -> bool>(&mut self, f: &F, halt: bool) -> (halted: bool)
        requires
            old(self).wf(),
            forall|b: u8| f.requires((b,)),
        ensures
            final(self).stream == old(self).stream,
            final(self).wf(),
            scanned(old(self)@, final(self)@, *f, halt, halted),
    {
        let ghost before = self@;
        loop
            invariant
                self.wf(),
                self.stream == old(self).stream,
                forall|b: u8| f.requires((b,)),
                before == old(self)@,
                before.position <= self.stream_index,
                self@ == before.consume(self.stream_index - before.position),
                forall|i: int|
                    before.position <= i < self.stream_index ==> f.ensures(
                        (#[trigger] before.bytes[i],),
                        !halt,
                    ),
            decreases self.stream@.len() - self.stream_index,
        {
            if self.at_end() {
                return false;
            }
            self.advance();
            if f(self.byte) == halt {
                return true;
            }
        }
    }

    /// The collection loop. Consumes one byte after another and hands each
    /// to `on_byte`, until `on_byte` returns `true` for the byte just
    /// consumed ([`Stop::Callback`]) or no byte is left
    /// ([`Stop::EndOfStream`]).
    pub fn collect<F: Fn(u8) -> bool>(&mut self, on_byte: F) -> (stop: Stop)
        requires
            old(self).wf(),
            forall|b: u8| on_byte.requires((b,)),
        ensures
            final(self).stream == old(self).stream,
            final(self).wf(),
            stop == Stop::Callback || stop == Stop::EndOfStream,
            scanned(old(self)@, final(self)@, on_byte, true, stop == Stop::Callback),
    {
        if self.scan(&on_byte, true) {
            Stop::Callback
        } else {
            Stop::EndOfStream
        }
    }

    /// Consumes bytes while `predicate` holds of them. The first byte of
    /// which it does not hold is consumed too and ends the run
    /// ([`Stop::Delimiter`]); the run also ends where no byte is left
    /// ([`Stop::EndOfStream`]).
    pub fn collect_while<F: Fn(u8) -> bool>(&mut self, predicate: F) -> (stop: Stop)
        requires
            old(self).wf(),
            forall|b: u8| predicate.requires((b,)),
        ensures
            final(self).stream == old(self).stream,
            final(self).wf(),
            stop == Stop::Delimiter || stop == Stop::EndOfStream,
            scanned(old(self)@, final(self)@, predicate, false, stop == Stop::Delimiter),
    {
        if self.scan(&predicate, false) {
            Stop::Delimiter
        } else {
            Stop::EndOfStream
        }
    }

    /// Consumes bytes until `predicate` holds of one. That byte is consumed
    /// too and ends the run ([`Stop::Delimiter`]); the run also ends where no
    /// byte is left ([`Stop::EndOfStream`]).
    pub fn collect_until<F: Fn(u8) -> bool>(&mut self, predicate: F) -> (stop: Stop)
        requires
            old(self).wf(),
            forall|b: u8| predicate.requires((b,)),
        ensures
            final(self).stream == old(self).stream,
            final(self).wf(),
            stop == Stop::Delimiter || stop == Stop::EndOfStream,
            scanned(old(self)@, final(self)@, predicate, true, stop == Stop::Delimiter),
    {
        if self.scan(&predicate, true) {
            Stop::Delimiter
        } else {
            Stop::EndOfStream
        }
    }

    /// Collects `length` bytes at once: the position moves forward by
    /// `length`, and no byte is read. The caller makes sure that `length`
    /// bytes are left; nothing is clamped.
    pub fn collect_fixed_length(&mut self, length: usize)
        requires
            old(self).wf(),
            old(self)@.has_bytes(length as int),
        ensures
            final(self)@ == old(self)@.jump(length as int),
            final(self).stream == old(self).stream,
            final(self).wf(),
    {
        self.jump(length);
    }

    /// Collects bytes until `length` of them lie between the mark and the
    /// position ([`Stop::Length`]). Each byte consumed is handed to
    /// `on_byte` first, which ends the run by returning `true`
    /// ([`Stop::Callback`]); the run also ends where no byte is left
    /// ([`Stop::EndOfStream`]). The count is looked at only after a byte has
    /// been consumed.
    pub fn collect_fixed_length_with<F: Fn(u8) -> bool>(
        &mut self,
        length: usize,
        on_byte: F,
    ) -> (stop: Stop)
        requires
            old(self).wf(),
            forall|b: u8| on_byte.requires((b,)),
        ensures
            final(self).stream == old(self).stream,
            final(self).wf(),
            measured(old(self)@, final(self)@, length as int, on_byte, stop),
    {
        let ghost before = self@;
        loop
            invariant
                self.wf(),
                self.stream == old(self).stream,
                self.mark_index == old(self).mark_index,
                forall|b: u8| on_byte.requires((b,)),
                before == old(self)@,
                before.position <= self.stream_index,
                self@ == before.consume(self.stream_index - before.position),
                !(before.position < before.mark + length <= self.stream_index),
                forall|i: int|
                    before.position <= i < self.stream_index ==> on_byte.ensures(
                        (#[trigger] before.bytes[i],),
                        false,
                    ),
            decreases self.stream@.len() - self.stream_index,
        {
            if self.at_end() {
                return Stop::EndOfStream;
            }
            self.advance();
            if on_byte(self.byte) {
                return Stop::Callback;
            }
            if self.stream_index >= self.mark_index && self.stream_index - self.mark_index
                == length {
                return Stop::Length;
            }
        }
    }
}

} // verus!
