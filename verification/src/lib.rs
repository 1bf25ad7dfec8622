//! A cursor over a byte buffer in memory, for parsers that read their input
//! one byte at a time.
//!
//! A [`ByteStream`] borrows a buffer and keeps three things about it: the
//! position (how many bytes have been consumed), a mark (where the slice
//! that is being collected starts) and the byte consumed last. On it stand
//! operations that move the position, hand out slices, look ahead for a
//! byte or a pattern, and collect runs of bytes: until a predicate fails,
//! until a count is reached, or digit by digit into a number that is
//! checked for overflow at each step.
//!
//! Every operation has a contract over [`Cursor`], the mathematical model of
//! a stream. Where an operation needs bytes that might not be there, its
//! `requires` says so, and the caller tests with [`ByteStream::at_end`] or
//! [`ByteStream::has_bytes`] first.

pub mod classify;
pub mod collect;
pub mod cursor;
pub mod laws;
pub mod number;
pub mod render;
pub mod search;
pub mod stream;

pub use crate::classify::{
    is_alpha, is_control, is_digit, is_hex, is_not_visible_7bit, is_not_visible_8bit,
    is_visible_7bit, is_visible_8bit,
};
pub use crate::collect::Stop;
pub use crate::cursor::Cursor;
pub use crate::number::Width;
pub use crate::stream::ByteStream;
