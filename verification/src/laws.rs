//! Laws that relate the operations of a stream to one another, stated over
//! the model that their contracts speak of.

use vstd::prelude::*;
use crate::collect::{scanned, Stop};
use crate::cursor::Cursor;
use crate::number::{all_digits, digit_value, digits_read, spelled};
use crate::search::{affirmed, judged, matches_at, occurrences};

verus! {

/// Consuming `count` bytes one by one comes to the same as consuming them
/// at once: the position has moved by `count`, and the current byte is the
/// last one passed.
pub proof fn law_advance_by(cursor: Cursor, count: nat)
    requires
        cursor.wf(),
        cursor.has_bytes(count as int),
    ensures
        cursor.advance_by(count) == cursor.consume(count as int),
        cursor.advance_by(count).wf(),
    decreases count,
{
    if count > 0 {
        law_advance_by(cursor, (count - 1) as nat);
    }
}

/// After `count` bytes have been consumed one by one from the start of a
/// buffer, the position is `count`, and the current byte is the buffer's
/// byte just before it.
pub proof fn law_advance_from_start(bytes: Seq<u8>, count: nat)
    requires
        count <= bytes.len(),
    ensures
        Cursor::start(bytes).advance_by(count).position == count,
        count > 0 ==> Cursor::start(bytes).advance_by(count).byte == bytes[count - 1],
{
    law_advance_by(Cursor::start(bytes), count);
}

/// Marking and then collecting `length` bytes at once, with at least that
/// many left, makes the pending slice the `length` bytes that lay behind
/// the position.
pub proof fn law_mark_then_collect(cursor: Cursor, length: nat)
    requires
        cursor.wf(),
        cursor.has_bytes(length as int),
    ensures
        cursor.mark_here().jump(length as int).slice() == cursor.bytes.subrange(
            cursor.position,
            cursor.position + length,
        ),
        cursor.mark_here().jump(length as int).slice() == cursor.peek(length as int),
{
}

/// Rewinding by `count` bytes and then jumping over as many restores the
/// position, and leaves everything else as it was.
pub proof fn law_rewind_then_jump(cursor: Cursor, count: nat)
    requires
        cursor.wf(),
        count <= cursor.position,
    ensures
        cursor.rewind(count as int).wf(),
        cursor.rewind(count as int).has_bytes(count as int),
        cursor.rewind(count as int).jump(count as int) == cursor,
{
}

/// A pattern longer than what is left of the buffer is no prefix of it.
pub proof fn law_prefix_needs_bytes(cursor: Cursor, pattern: Seq<u8>)
    requires
        cursor.wf(),
        cursor.available() < pattern.len(),
    ensures
        !cursor.starts_with(pattern),
{
}

/// Behind the last byte nothing is found, whatever is looked for.
pub proof fn law_nothing_found_at_end(
    cursor: Cursor,
    start: nat,
    target: u8,
    pattern: Seq<u8>,
    found: Option<usize>,
)
    requires
        cursor.wf(),
        cursor.at_end(),
        cursor.finds_byte(cursor.position + start, target, found) || cursor.finds_pattern(
            cursor.position + start,
            pattern,
            found,
        ),
    ensures
        found is None,
{
}

/// Looking for a byte has one result.
pub proof fn law_find_byte_unique(
    cursor: Cursor,
    from: int,
    target: u8,
    first: Option<usize>,
    second: Option<usize>,
)
    requires
        0 <= from,
        cursor.finds_byte(from, target, first),
        cursor.finds_byte(from, target, second),
    ensures
        first == second,
{
}

/// Looking for a pattern has one result.
pub proof fn law_find_pattern_unique(
    cursor: Cursor,
    from: int,
    pattern: Seq<u8>,
    first: Option<usize>,
    second: Option<usize>,
)
    requires
        cursor.finds_pattern(from, pattern, first),
        cursor.finds_pattern(from, pattern, second),
    ensures
        first == second,
{
    if first is Some && second is Some {
        let a = first.unwrap() as int;
        let b = second.unwrap() as int;
        assert(matches_at(cursor.bytes, pattern, a));
        assert(matches_at(cursor.bytes, pattern, b));
    }
}

/// A scan with a callback whose answer is a function of the byte has one
/// outcome: it ends at the first byte of which the answer is `halt`, or at
/// the end of the buffer where there is none.
pub proof fn law_scan_unique<F: Fn(u8) -> bool>(
    before: Cursor,
    f: F,
    answer: spec_fn(u8) -> bool,
    halt: bool,
    first: Cursor,
    first_halted: bool,
    second: Cursor,
    second_halted: bool,
)
    requires
        before.wf(),
        forall|b: u8, r: bool| f.ensures((b,), r) ==> r == answer(b),
        scanned(before, first, f, halt, first_halted),
        scanned(before, second, f, halt, second_halted),
    ensures
        first == second,
        first_halted == second_halted,
        first_halted ==> answer(first.byte) == halt,
        forall|i: int|
            before.position <= i < first.position - (if first_halted {
                1int
            } else {
                0int
            }) ==> answer(#[trigger] before.bytes[i]) != halt,
{
    if first.position < second.position {
        assert(f.ensures((before.bytes[first.position - 1],), !halt) || first.position
            == before.position);
    } else if second.position < first.position {
        assert(f.ensures((before.bytes[second.position - 1],), !halt) || second.position
            == before.position);
    }
    assert forall|i: int|
        before.position <= i < first.position - (if first_halted {
            1int
        } else {
            0int
        }) implies answer(#[trigger] before.bytes[i]) != halt by {
        if i < first.position - 1 {
            assert(f.ensures((before.bytes[i],), !halt));
        }
    }
}

/// The number read from a run of digits does not shrink as the run grows.
proof fn lemma_spelled_grows(start: int, digits: Seq<u8>, base: int, shorter: int)
    requires
        0 <= start,
        base == 10 || base == 16,
        all_digits(digits, base),
        0 <= shorter <= digits.len(),
    ensures
        0 <= spelled(start, digits.take(shorter), base) <= spelled(start, digits, base),
    decreases digits.len(),
{
    if digits.len() == 0 {
        assert(digits.take(shorter) =~= digits);
    } else if shorter == digits.len() {
        assert(digits.take(shorter) =~= digits);
        lemma_spelled_grows(start, digits.drop_last(), base, shorter - 1);
        assert(digits.drop_last().take(shorter - 1) =~= digits.drop_last());
        assert(digit_value(digits.last(), base) is Some);
        assert(spelled(start, digits.drop_last(), base) * base >= 0) by (nonlinear_arith)
            requires
                spelled(start, digits.drop_last(), base) >= 0,
                base >= 10,
        ;
    } else {
        lemma_spelled_grows(start, digits.drop_last(), base, shorter);
        assert(digits.drop_last().take(shorter) =~= digits.take(shorter));
        assert(digit_value(digits.last(), base) is Some);
        assert(spelled(start, digits.drop_last(), base) * base >= spelled(
            start,
            digits.drop_last(),
            base,
        )) by (nonlinear_arith)
            requires
                spelled(start, digits.drop_last(), base) >= 0,
                base >= 10,
        ;
    }
}

/// Of two runs of digits read from one place, the first is not the shorter.
proof fn lemma_run_not_shorter(
    before: Cursor,
    start: int,
    max: int,
    base: int,
    first: Cursor,
    first_end: int,
    first_stop: Stop,
    second: Cursor,
    second_end: int,
    second_stop: Stop,
)
    requires
        before.wf(),
        0 <= start,
        base == 10 || base == 16,
        first_stop != Stop::Callback,
        digits_read(before, first, start, first_end, max, base, first_stop),
        digits_read(before, second, start, second_end, max, base, second_stop),
    ensures
        first.position - (if first_stop == Stop::EndOfStream {
            0int
        } else {
            1int
        }) >= second.position - (if second_stop == Stop::EndOfStream {
            0int
        } else {
            1int
        }),
{
    let from = before.position;
    let taken = first.position - from - (if first_stop == Stop::EndOfStream {
        0int
    } else {
        1int
    });
    let longer = second.position - from - (if second_stop == Stop::EndOfStream {
        0int
    } else {
        1int
    });
    if taken < longer {
        let run = before.bytes.subrange(from, from + longer);
        assert(first_stop != Stop::EndOfStream);
        assert(run[taken] == before.bytes[from + taken]);
        assert(digit_value(first.byte, base) is Some);
        lemma_spelled_grows(start, run, base, taken + 1);
        assert(run.take(taken + 1).drop_last() =~= before.bytes.subrange(from, from + taken));
        assert(run.take(taken + 1).last() == first.byte);
    }
}

/// Reading a run of digits without a callback has one outcome: where it
/// ends, what the accumulator holds then, and why it ended.
pub proof fn law_digits_read_unique(
    before: Cursor,
    start: int,
    max: int,
    base: int,
    first: Cursor,
    first_end: int,
    first_stop: Stop,
    second: Cursor,
    second_end: int,
    second_stop: Stop,
)
    requires
        before.wf(),
        0 <= start,
        base == 10 || base == 16,
        first_stop != Stop::Callback,
        second_stop != Stop::Callback,
        digits_read(before, first, start, first_end, max, base, first_stop),
        digits_read(before, second, start, second_end, max, base, second_stop),
    ensures
        first == second,
        first_end == second_end,
        first_stop == second_stop,
{
    lemma_run_not_shorter(
        before,
        start,
        max,
        base,
        first,
        first_end,
        first_stop,
        second,
        second_end,
        second_stop,
    );
    lemma_run_not_shorter(
        before,
        start,
        max,
        base,
        second,
        second_end,
        second_stop,
        first,
        first_end,
        first_stop,
    );
}

/// Where a predicate's answer is a function of the byte, the answers that
/// it gives about the bytes of a buffer are those of that function, so a
/// count of them has one result.
pub proof fn law_verdicts_unique<F: Fn(u8) -> bool>(
    bytes: Seq<u8>,
    verdicts: Seq<bool>,
    f: F,
    answer: spec_fn(u8) -> bool,
)
    requires
        forall|b: u8, r: bool| f.ensures((b,), r) ==> r == answer(b),
        judged(bytes, verdicts, f),
    ensures
        verdicts == bytes.map_values(answer),
{
    assert forall|i: int| 0 <= i < bytes.len() implies verdicts[i] == answer(bytes[i]) by {
        assert(f.ensures((bytes[i],), verdicts[i]));
    }
    assert(verdicts =~= bytes.map_values(answer));
}

/// Counting a byte comes to the same as counting the bytes that equal it.
pub proof fn law_count_byte_is_a_count(bytes: Seq<u8>, target: u8)
    ensures
        occurrences(bytes, target) == affirmed(bytes.map_values(|b: u8| b == target)),
    decreases bytes.len(),
{
    let equal = |b: u8| b == target;
    if bytes.len() > 0 {
        law_count_byte_is_a_count(bytes.drop_last(), target);
        assert(bytes.map_values(equal).drop_last() =~= bytes.drop_last().map_values(equal));
    }
}

} // verus!
