//! Collectors that read a run of digits into an unsigned integer of a given
//! width, one checked step per digit.

use vstd::prelude::*;
use crate::classify::digit;
use crate::collect::Stop;
use crate::cursor::Cursor;
use crate::stream::ByteStream;

verus! {

/// The width of the unsigned integer that digits are collected into.
#[derive(Clone, Copy, Debug, PartialEq, Eq, Structural)]
pub enum Width {
    /// Eight bits.
    W8,
    /// Sixteen bits.
    W16,
    /// Thirty-two bits.
    W32,
    /// Sixty-four bits.
    W64,
}

impl Width {
    /// The largest number that an unsigned integer of this width holds.
    pub open spec fn max(self) -> int {
        match self {
            Width::W8 => 0xFF,
            Width::W16 => 0xFFFF,
            Width::W32 => 0xFFFF_FFFF,
            Width::W64 => 0xFFFF_FFFF_FFFF_FFFF,
        }
    }

    /// The largest number that an unsigned integer of this width holds.
    pub fn max_value(self) -> (r: u64)
        ensures
            r == self.max(),
    {
        match self {
            Width::W8 => 0xFF,
            Width::W16 => 0xFFFF,
            Width::W32 => 0xFFFF_FFFF,
            Width::W64 => 0xFFFF_FFFF_FFFF_FFFF,
        }
    }
}

/// The value of `byte` as a digit in `base`, which is 10 or 16; `None` where
/// it is no such digit. The letters `A` to `F` count in either case.
pub open spec fn digit_value(byte: u8, base: int) -> Option<int> {
    if digit(byte) {
        Some(byte - 0x30)
    } else if base == 16 && 0x41 <= byte <= 0x46 {
        Some(byte - 0x37)
    } else if base == 16 && 0x61 <= byte <= 0x66 {
        Some(byte - 0x57)
    } else {
        None
    }
}

/// Every byte of `digits` is a digit in `base`.
pub open spec fn all_digits(digits: Seq<u8>, base: int) -> bool {
    forall|i: int| 0 <= i < digits.len() ==> digit_value(#[trigger] digits[i], base) is Some
}

/// The number that results from reading `digits`, each a digit in `base`,
/// after the number `start`: the digits are appended to it.
pub open spec fn spelled(start: int, digits: Seq<u8>, base: int) -> int
    decreases digits.len(),
{
    if digits.len() == 0 {
        start
    } else {
        spelled(start, digits.drop_last(), base) * base + digit_value(digits.last(), base).unwrap()
    }
}

/// A run of digits read from `before` to `after`, which took the
/// accumulator from `start` to `end`.
///
/// The bytes consumed are digits in `base`, but for the last one where `stop`
/// names a byte: a byte that is no digit ([`Stop::Delimiter`]), a digit with
/// which the number would exceed `max` ([`Stop::Overflow`]; the accumulator
/// keeps the number read before it), or a digit at which the callback asked to
/// stop ([`Stop::Callback`]; the accumulator holds it). No number on the way
/// exceeds `max`.
pub open spec fn digits_read(
    before: Cursor,
    after: Cursor,
    start: int,
    end: int,
    max: int,
    base: int,
    stop: Stop,
) -> bool {
    let count = after.position - before.position;
    let taken = if stop == Stop::EndOfStream {
        count
    } else {
        count - 1
    };
    let run = before.bytes.subrange(before.position, before.position + taken);
    let value = spelled(start, run, base);
    &&& 0 <= taken <= count <= before.available()
    &&& after == before.consume(count)
    &&& all_digits(run, base)
    &&& taken > 0 ==> value <= max
    &&& match stop {
        Stop::EndOfStream => after.at_end() && end == value,
        Stop::Delimiter => digit_value(after.byte, base) is None && end == value,
        Stop::Overflow => end == value && digit_value(after.byte, base) is Some && value * base
            + digit_value(after.byte, base).unwrap() > max,
        Stop::Callback => digit_value(after.byte, base) is Some && end == value * base
            + digit_value(after.byte, base).unwrap() && end <= max,
        Stop::Length => false,
    }
}

/// The callback `f` let every digit of a run pass but the last one consumed:
/// asked about each of the first `passed` bytes behind `before`, together
/// with the number read up to and including it, it answered `false`.
pub open spec fn digits_passed<F: Fn(u8, u64) -> bool>(
    before: Cursor,
    passed: int,
    start: int,
    base: int,
    f: F,
) -> bool {
    forall|i: int|
        0 <= i < passed ==> f.ensures(
            (
                #[trigger] before.bytes[before.position + i],
                spelled(
                    start,
                    before.bytes.subrange(before.position, before.position + i + 1),
                    base,
                ) as u64,
            ),
            false,
        )
}

/// The value of `byte` as a digit in `base`.
fn digit_in(byte: u8, base: u64) -> (r: Option<u64>)
    requires
        base == 10 || base == 16,
    ensures
        r is Some <==> digit_value(byte, base as int) is Some,
        r is Some ==> r.unwrap() == digit_value(byte, base as int).unwrap(),
        r is Some ==> r.unwrap() < base,
{
    if byte > 0x2F && byte < 0x3A {
        Some((byte - 0x30) as u64)
    } else if base == 16 && byte > 0x40 && byte < 0x47 {
        Some((byte - 0x37) as u64)
    } else if base == 16 && byte > 0x60 && byte < 0x67 {
        Some((byte - 0x57) as u64)
    } else {
        None
    }
}

/// The number `value` with the digit `d` appended in `base`, where that does
/// not exceed `max`.
fn append_digit(value: u64, d: u64, base: u64, max: u64) -> (r: Option<u64>)
    ensures
        r is Some <==> value * base + d <= max,
        r is Some ==> r.unwrap() == value * base + d,
{
    match value.checked_mul(base) {
        Some(shifted) => match shifted.checked_add(d) {
            Some(next) => if next <= max {
                Some(next)
            } else {
                None
            },
            None => None,
        },
        None => None,
    }
}

/// Reading one more digit appends it to the number read so far.
proof fn lemma_spelled_step(bytes: Seq<u8>, from: int, to: int, start: int, base: int)
    requires
        0 <= from <= to < bytes.len(),
    ensures
        spelled(start, bytes.subrange(from, to + 1), base) == spelled(
            start,
            bytes.subrange(from, to),
            base,
        ) * base + digit_value(bytes[to], base).unwrap(),
{
    assert(bytes.subrange(from, to + 1).drop_last() =~= bytes.subrange(from, to));
}

impl<'a> ByteStream<'a> {
    /// Reads digits in `base` into `accumulator`, which holds a number of
    /// the given width.
    fn accumulate<F: Fn(u8, u64) -> bool>(
        &mut self,
        accumulator: &mut u64,
        width: Width,
        base: u64,
        on_byte: &F,
    ) -> (stop: Stop)
        requires
            old(self).wf(),
            base == 10 || base == 16,
            forall|b: u8, v: u64| on_byte.requires((b, v)),
        ensures
            final(self).stream == old(self).stream,
            final(self).wf(),
            digits_read(
                old(self)@,
                final(self)@,
                *old(accumulator) as int,
                *final(accumulator) as int,
                width.max(),
                base as int,
                stop,
            ),
            digits_passed(
                old(self)@,
                if stop == Stop::EndOfStream {
                    final(self).stream_index - old(self).stream_index
                } else {
                    final(self).stream_index - old(self).stream_index - 1
                },
                *old(accumulator) as int,
                base as int,
                *on_byte,
            ),
            stop == Stop::Callback ==> on_byte.ensures(
                (final(self).byte, *final(accumulator)),
                true,
            ),
    {
        let ghost before = self@;
        let ghost start = *accumulator as int;
        let max = width.max_value();
        loop
            invariant
                self.wf(),
                self.stream == old(self).stream,
                base == 10 || base == 16,
                max == width.max(),
                forall|b: u8, v: u64| on_byte.requires((b, v)),
                before == old(self)@,
                start == *old(accumulator),
                before.position <= self.stream_index,
                self@ == before.consume(self.stream_index - before.position),
                all_digits(
                    before.bytes.subrange(before.position, self.stream_index as int),
                    base as int,
                ),
                *accumulator == spelled(
                    start,
                    before.bytes.subrange(before.position, self.stream_index as int),
                    base as int,
                ),
                self.stream_index > before.position ==> *accumulator <= max,
                digits_passed(
                    before,
                    self.stream_index - before.position,
                    start,
                    base as int,
                    *on_byte,
                ),
            decreases self.stream@.len() - self.stream_index,
        {
            if self.at_end() {
                return Stop::EndOfStream;
            }
            let ghost at = self.stream_index as int;
            self.advance();
            proof {
                lemma_spelled_step(before.bytes, before.position, at, start, base as int);
            }
            match digit_in(self.byte, base) {
                None => {
                    return Stop::Delimiter;
                },
                Some(d) => match append_digit(*accumulator, d, base, max) {
                    None => {
                        return Stop::Overflow;
                    },
                    Some(next) => {
                        *accumulator = next;
                        assert(all_digits(
                            before.bytes.subrange(before.position, at + 1),
                            base as int,
                        ));
                        if on_byte(self.byte, next) {
                            return Stop::Callback;
                        }
                    },
                },
            }
        }
    }

    /// Collects a run of decimal digits into `accumulator`, which holds a
    /// number of the given width: each digit consumed is appended to it.
    ///
    /// The run ends at the first byte that is no decimal digit
    /// ([`Stop::Delimiter`]), at the first digit with which the number would
    /// exceed the width's largest ([`Stop::Overflow`]), or where no byte is
    /// left ([`Stop::EndOfStream`]). The byte that ends it has been consumed,
    /// and the accumulator holds the number read before that byte. A caller
    /// that goes on after an overflow calls again.
    pub fn collect_digits(&mut self, accumulator: &mut u64, width: Width) -> (stop: Stop)
        requires
            old(self).wf(),
        ensures
            final(self).stream == old(self).stream,
            final(self).wf(),
            stop != Stop::Callback,
            digits_read(
                old(self)@,
                final(self)@,
                *old(accumulator) as int,
                *final(accumulator) as int,
                width.max(),
                10,
                stop,
            ),
    {
        let never = |b: u8, v: u64| -> (r: bool)
            ensures
                !r,
            { false };
        self.accumulate(accumulator, width, 10, &never)
    }

    /// As [`ByteStream::collect_digits`], with a callback: each digit that the
    /// accumulator took is handed to `on_byte` together with the
    /// accumulator's new value, and `on_byte` ends the run by returning `true`
    /// ([`Stop::Callback`]). It is not asked about the byte that ends the run
    /// otherwise.
    pub fn collect_digits_with<F: Fn(u8, u64) -> bool>(
        &mut self,
        accumulator: &mut u64,
        width: Width,
        on_byte: F,
    ) -> (stop: Stop)
        requires
            old(self).wf(),
            forall|b: u8, v: u64| on_byte.requires((b, v)),
        ensures
            final(self).stream == old(self).stream,
            final(self).wf(),
            digits_read(
                old(self)@,
                final(self)@,
                *old(accumulator) as int,
                *final(accumulator) as int,
                width.max(),
                10,
                stop,
            ),
            digits_passed(
                old(self)@,
                if stop == Stop::EndOfStream {
                    final(self).stream_index - old(self).stream_index
                } else {
                    final(self).stream_index - old(self).stream_index - 1
                },
                *old(accumulator) as int,
                10,
                on_byte,
            ),
            stop == Stop::Callback ==> on_byte.ensures(
                (final(self).byte, *final(accumulator)),
                true,
            ),
    {
        self.accumulate(accumulator, width, 10, &on_byte)
    }

    /// Collects a run of hexadecimal digits into `accumulator`, which holds a
    /// number of the given width: each digit consumed is appended to it.
    ///
    /// The run ends at the first byte that is no hexadecimal digit
    /// ([`Stop::Delimiter`]), at the first digit with which the number would
    /// exceed the width's largest ([`Stop::Overflow`]), or where no byte is
    /// left ([`Stop::EndOfStream`]). The byte that ends it has been consumed,
    /// and the accumulator holds the number read before that byte. A caller
    /// that goes on after an overflow calls again.
    ///
    /// `'A'` to `'F'` and `'a'` to `'f'` stand for ten to fifteen.
    pub fn collect_hex(&mut self, accumulator: &mut u64, width: Width) -> (stop: Stop)
        requires
            old(self).wf(),
        ensures
            final(self).stream == old(self).stream,
            final(self).wf(),
            stop != Stop::Callback,
            digits_read(
                old(self)@,
                final(self)@,
                *old(accumulator) as int,
                *final(accumulator) as int,
                width.max(),
                16,
                stop,
            ),
    {
        let never = |b: u8, v: u64| -> (r: bool)
            ensures
                !r,
            { false };
        self.accumulate(accumulator, width, 16, &never)
    }

    /// As [`ByteStream::collect_hex`], with a callback: each digit that the
    /// accumulator took is handed to `on_byte` together with the
    /// accumulator's new value, and `on_byte` ends the run by returning `true`
    /// ([`Stop::Callback`]). It is not asked about the byte that ends the run
    /// otherwise.
    pub fn collect_hex_with<F: Fn(u8, u64) -> bool>(
        &mut self,
        accumulator: &mut u64,
        width: Width,
        on_byte: F,
    ) -> (stop: Stop)
        requires
            old(self).wf(),
            forall|b: u8, v: u64| on_byte.requires((b, v)),
        ensures
            final(self).stream == old(self).stream,
            final(self).wf(),
            digits_read(
                old(self)@,
                final(self)@,
                *old(accumulator) as int,
                *final(accumulator) as int,
                width.max(),
                16,
                stop,
            ),
            digits_passed(
                old(self)@,
                if stop == Stop::EndOfStream {
                    final(self).stream_index - old(self).stream_index
                } else {
                    final(self).stream_index - old(self).stream_index - 1
                },
                *old(accumulator) as int,
                16,
                on_byte,
            ),
            stop == Stop::Callback ==> on_byte.ensures(
                (final(self).byte, *final(accumulator)),
                true,
            ),
    {
        self.accumulate(accumulator, width, 16, &on_byte)
    }
}

} // verus!
