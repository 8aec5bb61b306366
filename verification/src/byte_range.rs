//! Byte ranges: a part of a resource, named by its first and last byte.

use vstd::prelude::*;
use crate::primitives::{decimal_integer_at, parse_decimal_integer};

verus! {

/// An inclusive range of byte offsets within a resource.
#[derive(Clone, Copy, Debug, PartialEq, Eq, Structural)]
pub struct ByteRange {
    pub first_byte: u64,
    pub last_byte: u64,
}

impl ByteRange {
    /// A range holds at least one byte, and the offset that follows it fits
    /// the offset type, so that a later range can continue from it.
    pub open spec fn wf(self) -> bool {
        self.first_byte <= self.last_byte < u64::MAX
    }
}

/// Where a range starts: at the offset written behind `@`, or, where none is
/// written, at `current_byte`, the offset that follows the previous range of
/// the same stream (zero where there was none). `at` is the offset of the
/// character that follows the length. `None` where `@` is followed by no
/// readable number.
pub open spec fn byte_range_start(line: Seq<char>, at: int, current_byte: Option<u64>) -> Option<
    u64,
> {
    if at < line.len() && line[at] == '@' {
        match decimal_integer_at(line, at + 1).0 {
            Ok(start) => Some(start),
            Err(_) => None,
        }
    } else {
        match current_byte {
            Some(next) => Some(next),
            None => Some(0),
        }
    }
}

/// The byte range written at `offset` as `<length>` or `<length>@<start>`:
/// the `length` bytes from the start on. There is no range where the length
/// or the start cannot be read, where the length is zero, or where the range
/// would reach past the last offset that can be continued from.
pub open spec fn byte_range_at(line: Seq<char>, offset: int, current_byte: Option<u64>) -> Option<
    ByteRange,
> {
    match decimal_integer_at(line, offset) {
        (Ok(length), at) => match byte_range_start(line, at, current_byte) {
            Some(start) => if length >= 1 && start + length <= u64::MAX {
                Some(ByteRange { first_byte: start, last_byte: (start + length - 1) as u64 })
            } else {
                None
            },
            None => None,
        },
        (Err(_), _) => None,
    }
}

/// Reads the byte range written at `offset`.
pub fn parse_byte_range(line: &[char], offset: usize, current_byte: Option<u64>) -> (out: Option<
    ByteRange,
>)
    ensures
        out == byte_range_at(line@, offset as int, current_byte),
        out matches Some(range) ==> range.wf(),
{
    let (length, at) = parse_decimal_integer(line, offset);
    let length = match length {
        Ok(length) => length,
        Err(_) => {
            return None;
        },
    };
    let start = if at < line.len() && line[at] == '@' {
        match parse_decimal_integer(line, at + 1).0 {
            Ok(start) => start,
            Err(_) => {
                return None;
            },
        }
    } else {
        match current_byte {
            Some(next) => next,
            None => 0,
        }
    };
    if length >= 1 && length <= u64::MAX - start {
        Some(ByteRange { first_byte: start, last_byte: start + (length - 1) })
    } else {
        None
    }
}

} // verus!
