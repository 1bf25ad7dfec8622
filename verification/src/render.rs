//! A one-line description of a stream's state, for diagnostics.

use vstd::prelude::*;
use crate::classify::{is_visible_8bit, visible_8bit};
use crate::cursor::Cursor;
use crate::stream::ByteStream;

verus! {

/// `String::push` appends the character to the string and changes nothing
/// else of it.
pub assume_specification[ String::push ](s: &mut String, ch: char)
    ensures
        final(s)@ == old(s)@.push(ch),
;

/// `String::push_str` appends the characters of the given string slice to
/// the string, in their order, and changes nothing else of it.
pub assume_specification[ String::push_str ](s: &mut String, string: &str)
    ensures
        final(s)@ == old(s)@ + string@,
;

/// The character that stands for the digit `d`, which is below ten.
pub open spec fn digit_char(d: nat) -> char {
    (0x30 + d) as u8 as char
}

/// The decimal numeral of `n`, without leading zeros.
pub open spec fn decimal(n: nat) -> Seq<char>
    decreases n,
{
    if n < 10 {
        seq![digit_char(n)]
    } else {
        decimal(n / 10).push(digit_char(n % 10))
    }
}

/// A description shows `byte` as a character where it is printable, the
/// space or `0xFF`.
pub open spec fn shown(byte: u8) -> bool {
    visible_8bit(byte) || byte == 0x20 || byte == 0xFF
}

impl Cursor {
    /// The description of the cursor: the current byte as a number and,
    /// where it is shown, as a character, then the mark and the position.
    pub open spec fn description(self) -> Seq<char> {
        "byte["@ + decimal(self.byte as nat) + "]='"@ + (if shown(self.byte) {
            seq![self.byte as char]
        } else {
            Seq::<char>::empty()
        }) + "', mark_index="@ + decimal(self.mark as nat) + ", stream_index="@ + decimal(
            self.position as nat,
        )
    }

    /// The description of the cursor with the type's name around it.
    pub open spec fn debug_description(self) -> Seq<char> {
        "ByteStream("@ + self.description() + ")"@
    }
}

/// Appends the decimal numeral of `n` to `out`.
fn push_decimal(out: &mut String, n: usize)
    ensures
        final(out)@ == old(out)@ + decimal(n as nat),
    decreases n,
{
    if n >= 10 {
        push_decimal(out, n / 10);
    }
    let d: u8 = (n % 10) as u8;
    out.push((0x30 + d) as char);
    proof {
        if n >= 10 {
            assert(old(out)@ + decimal(n as nat) =~= (old(out)@ + decimal((n / 10) as nat)).push(
                digit_char((n % 10) as nat),
            ));
        } else {
            assert(old(out)@ + decimal(n as nat) =~= old(out)@.push(digit_char(n as nat)));
        }
    }
}

impl<'a> ByteStream<'a> {
    /// Appends the stream's description to `out`.
    fn describe(&self, out: &mut String)
        ensures
            final(out)@ == old(out)@ + self@.description(),
    {
        out.push_str("byte[");
        push_decimal(out, self.byte as usize);
        out.push_str("]='");
        if is_visible_8bit(self.byte) || self.byte == 0x20 || self.byte == 0xFF {
            out.push(self.byte as char);
        }
        out.push_str("', mark_index=");
        push_decimal(out, self.mark_index);
        out.push_str(", stream_index=");
        push_decimal(out, self.stream_index);
        assert(final(out)@ =~= old(out)@ + self@.description());
    }

    /// The stream's state in one line, such as
    /// `byte[66]='B', mark_index=0, stream_index=1`. Between the quotes
    /// stands the current byte as a character where it is printable, the
    /// space or `0xFF`, and nothing otherwise.
    pub fn display_string(&self) -> (text: String)
        ensures
            text@ == self@.description(),
    {
        let mut text = String::new();
        self.describe(&mut text);
        text
    }

    /// As [`ByteStream::display_string`], with `ByteStream(` before it and
    /// `)` behind.
    pub fn debug_string(&self) -> (text: String)
        ensures
            text@ == self@.debug_description(),
    {
        let mut text = String::new();
        text.push_str("ByteStream(");
        self.describe(&mut text);
        text.push(')');
        proof {
            reveal_strlit(")");
            assert(text@ =~= self@.debug_description());
        }
        text
    }
}

} // verus!
