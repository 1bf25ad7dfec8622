//! Looking ahead in the bytes not yet consumed: finding a byte or a pattern,
//! counting bytes, and testing for a prefix. None of these moves the
//! position.

use vstd::prelude::*;
use crate::cursor::Cursor;
use crate::stream::ByteStream;

verus! {

/// `pattern` stands in `bytes` at `index`: it is not empty, and the bytes
/// from `index` on begin with it.
pub open spec fn matches_at(bytes: Seq<u8>, pattern: Seq<u8>, index: int) -> bool {
    &&& pattern.len() > 0
    &&& 0 <= index
    &&& index + pattern.len() <= bytes.len()
    &&& bytes.subrange(index, index + pattern.len()) == pattern
}

/// How often `target` occurs in `bytes`.
pub open spec fn occurrences(bytes: Seq<u8>, target: u8) -> nat
    decreases bytes.len(),
{
    if bytes.len() == 0 {
        0
    } else {
        occurrences(bytes.drop_last(), target) + if bytes.last() == target {
            1nat
        } else {
            0nat
        }
    }
}

/// How many of `verdicts` are `true`.
pub open spec fn affirmed(verdicts: Seq<bool>) -> nat
    decreases verdicts.len(),
{
    if verdicts.len() == 0 {
        0
    } else {
        affirmed(verdicts.drop_last()) + if verdicts.last() {
            1nat
        } else {
            0nat
        }
    }
}

/// `verdicts` holds, for each byte of `bytes` in turn, an answer that `f`
/// gives about it.
pub open spec fn judged<F: Fn(u8) -> bool>(bytes: Seq<u8>, verdicts: Seq<bool>, f: F) -> bool {
    &&& verdicts.len() == bytes.len()
    &&& forall|i: int| 0 <= i < bytes.len() ==> f.ensures((bytes[i],), #[trigger] verdicts[i])
}

impl Cursor {
    /// The result of looking for `target` from `from` on: the index of its
    /// first occurrence there, or `None` where it does not occur.
    pub open spec fn finds_byte(self, from: int, target: u8, found: Option<usize>) -> bool {
        match found {
            Some(index) => {
                &&& from <= index < self.bytes.len()
                &&& self.bytes[index as int] == target
                &&& forall|j: int| from <= j < index ==> self.bytes[j] != target
            },
            None => forall|j: int| from <= j < self.bytes.len() ==> self.bytes[j] != target,
        }
    }

    /// The result of looking for `pattern` from `from` on: the first index
    /// there at which it stands, or `None` where it stands at none.
    pub open spec fn finds_pattern(self, from: int, pattern: Seq<u8>, found: Option<usize>) -> bool {
        match found {
            Some(index) => {
                &&& from <= index
                &&& matches_at(self.bytes, pattern, index as int)
                &&& forall|j: int| from <= j < index ==> !matches_at(self.bytes, pattern, j)
            },
            None => forall|j: int| from <= j ==> !matches_at(self.bytes, pattern, j),
        }
    }

    /// The bytes not yet consumed begin with `pattern`.
    pub open spec fn starts_with(self, pattern: Seq<u8>) -> bool {
        &&& self.has_bytes(pattern.len() as int)
        &&& self.peek(pattern.len() as int) == pattern
    }

    /// The cursor with the byte at its position as its current byte.
    pub open spec fn restored(self) -> Cursor
        recommends
            self.wf(),
            !self.at_end(),
    {
        Cursor { byte: self.bytes[self.position], ..self }
    }
}

impl<'a> ByteStream<'a> {
    /// Tells whether the bytes from `index` on begin with `pattern`,
    /// comparing byte by byte up to the first difference.
    fn stands_at(&self, index: usize, pattern: &[u8]) -> (r: bool)
        requires
            index <= self.stream@.len(),
        ensures
            r == (index + pattern@.len() <= self.stream@.len() && self.stream@.subrange(
                index as int,
                index + pattern@.len(),
            ) == pattern@),
    {
        let len = self.stream.len();
        if pattern.len() > len - index {
            return false;
        }
        let mut p: usize = 0;
        while p < pattern.len()
            invariant
                len == self.stream@.len(),
                p <= pattern@.len(),
                index + pattern@.len() <= self.stream@.len(),
                forall|k: int| 0 <= k < p ==> self.stream@[index + k] == pattern@[k],
            decreases pattern@.len() - p,
        {
            if self.stream[index + p] != pattern[p] {
                assert(self.stream@.subrange(index as int, index + pattern@.len())[p as int]
                    != pattern@[p as int]);
                return false;
            }
            p += 1;
        }
        assert(self.stream@.subrange(index as int, index + pattern@.len()) =~= pattern@);
        true
    }

    /// Finds the first `target` among the bytes not yet consumed, and returns
    /// its index in the buffer.
    pub fn find_byte(&self, target: u8) -> (found: Option<usize>)
        requires
            self.wf(),
        ensures
            self@.finds_byte(self@.position, target, found),
    {
        self.find_byte_from(0, target)
    }

    /// Finds the first `target` at least `start` bytes behind the position,
    /// and returns its index in the buffer. Where fewer than `start` bytes
    /// are left there is none.
    pub fn find_byte_from(&self, start: usize, target: u8) -> (found: Option<usize>)
        requires
            self.wf(),
        ensures
            self@.finds_byte(self@.position + start, target, found),
    {
        let len = self.stream.len();
        if start >= len - self.stream_index {
            return None;
        }
        let mut n: usize = self.stream_index + start;
        while n < len
            invariant
                len == self.stream@.len(),
                self.stream_index + start <= n <= len,
                forall|j: int| self.stream_index + start <= j < n ==> self.stream@[j] != target,
            decreases len - n,
        {
            if self.stream[n] == target {
                return Some(n);
            }
            n += 1;
        }
        None
    }

    /// Finds the first place among the bytes not yet consumed at which
    /// `pattern` stands, and returns its index in the buffer. A pattern that
    /// would reach beyond the buffer's end stands nowhere, and neither does an
    /// empty one.
    pub fn find_pattern(&self, pattern: &[u8]) -> (found: Option<usize>)
        requires
            self.wf(),
        ensures
            self@.finds_pattern(self@.position, pattern@, found),
    {
        self.find_pattern_from(0, pattern)
    }

    /// Finds the first place at least `start` bytes behind the position at
    /// which `pattern` stands, and returns its index in the buffer.
    pub fn find_pattern_from(&self, start: usize, pattern: &[u8]) -> (found: Option<usize>)
        requires
            self.wf(),
        ensures
            self@.finds_pattern(self@.position + start, pattern@, found),
    {
        let len = self.stream.len();
        if pattern.len() == 0 || start >= len - self.stream_index {
            return None;
        }
        let mut s: usize = self.stream_index + start;
        while s < len
            invariant
                len == self.stream@.len(),
                pattern@.len() > 0,
                self.stream_index + start <= s <= len,
                forall|j: int|
                    self.stream_index + start <= j < s ==> !matches_at(self.stream@, pattern@, j),
            decreases len - s,
        {
            if self.stands_at(s, pattern) {
                return Some(s);
            }
            s += 1;
        }
        None
    }

    /// Tells whether the bytes not yet consumed begin with `pattern`. Where
    /// fewer bytes are left than the pattern has, they do not.
    pub fn starts_with(&self, pattern: &[u8]) -> (r: bool)
        requires
            self.wf(),
        ensures
            r == self@.starts_with(pattern@),
    {
        self.stands_at(self.stream_index, pattern)
    }

    /// Counts the bytes not yet consumed that equal `target`.
    pub fn count_byte(&self, target: u8) -> (count: usize)
        requires
            self.wf(),
        ensures
            count == occurrences(self@.remaining(), target),
    {
        let len = self.stream.len();
        let mut count: usize = 0;
        let mut n: usize = self.stream_index;
        assert(self.stream@.subrange(self.stream_index as int, n as int) =~= Seq::<u8>::empty());
        while n < len
            invariant
                len == self.stream@.len(),
                self.stream_index <= n <= len,
                count <= n - self.stream_index,
                count == occurrences(
                    self.stream@.subrange(self.stream_index as int, n as int),
                    target,
                ),
            decreases len - n,
        {
            assert(self.stream@.subrange(self.stream_index as int, n + 1).drop_last()
                =~= self.stream@.subrange(self.stream_index as int, n as int));
            if self.stream[n] == target {
                count += 1;
            }
            n += 1;
        }
        count
    }

    /// Counts the bytes not yet consumed of which `predicate` holds.
    ///
    /// Each byte looked at becomes the current byte while `predicate` is
    /// asked; in the end the current byte is the one at the position, which
    /// has not moved. So a byte must be left.
    pub fn count_matching<F: Fn(u8) -> bool>(&mut self, predicate: F) -> (count: usize)
        requires
            old(self).wf(),
            !old(self)@.at_end(),
            forall|b: u8| predicate.requires((b,)),
        ensures
            final(self)@ == old(self)@.restored(),
            final(self).stream == old(self).stream,
            final(self).wf(),
            count <= old(self)@.available(),
            exists|verdicts: Seq<bool>| #[trigger]
                judged(old(self)@.remaining(), verdicts, predicate) && count == affirmed(verdicts),
    {
        let len = self.stream.len();
        let mut count: usize = 0;
        let mut n: usize = self.stream_index;
        let ghost mut verdicts: Seq<bool> = Seq::empty();
        while n < len
            invariant
                self.stream == old(self).stream,
                self.stream_index == old(self).stream_index,
                self.mark_index == old(self).mark_index,
                forall|b: u8| predicate.requires((b,)),
                len == self.stream@.len(),
                self.stream_index <= n <= len,
                count <= n - self.stream_index,
                count == affirmed(verdicts),
                judged(
                    self.stream@.subrange(self.stream_index as int, n as int),
                    verdicts,
                    predicate,
                ),
            decreases len - n,
        {
            self.byte = self.stream[n];
            let verdict = predicate(self.byte);
            proof {
                assert(verdicts.push(verdict).drop_last() =~= verdicts);
                verdicts = verdicts.push(verdict);
            }
            if verdict {
                count += 1;
            }
            n += 1;
        }
        self.byte = self.stream[self.stream_index];
        assert(self.stream@.subrange(self.stream_index as int, n as int) == old(self)@.remaining());
        count
    }
}

} // verus!
