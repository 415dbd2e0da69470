//! Messages on the wire: a header that ends in an empty line and gives the
//! length of the content, then the content.

use vstd::prelude::*;
use crate::number::{digits_text, push_decimal};
use crate::text::concat3;

verus! {

/// Carriage return, line feed, carriage return, line feed stand at `i`.
pub open spec fn blank_line_at(bytes: Seq<u8>, i: int) -> bool {
    0 <= i && i + 4 <= bytes.len() && bytes[i] == 13 && bytes[i + 1] == 10 && bytes[i + 2] == 13
        && bytes[i + 3] == 10
}

/// The first offset from `from` on at which the header ends.
pub open spec fn header_end(bytes: Seq<u8>, from: int) -> Option<int>
    decreases bytes.len() - from,
{
    if from < 0 || from + 4 > bytes.len() {
        None
    } else if blank_line_at(bytes, from) {
        Some(from)
    } else {
        header_end(bytes, from + 1)
    }
}

/// The first offset from `from` on, before `limit`, at which a line feed
/// stands; `limit` where none does.
pub open spec fn line_feed(bytes: Seq<u8>, from: int, limit: int) -> int
    decreases limit - from,
{
    if from < 0 || from >= limit || from >= bytes.len() {
        limit
    } else if bytes[from] == 10 {
        from
    } else {
        line_feed(bytes, from + 1, limit)
    }
}

/// The text `Content-Length: ` in bytes.
pub open spec fn length_field() -> Seq<u8> {
    seq![67u8, 111, 110, 116, 101, 110, 116, 45, 76, 101, 110, 103, 116, 104, 58, 32]
}

/// `bytes` holds `prefix` from `from` on, before `to`.
pub open spec fn has_prefix(bytes: Seq<u8>, from: int, to: int, prefix: Seq<u8>) -> bool {
    from + prefix.len() <= to && forall|i: int|
        0 <= i < prefix.len() ==> bytes[from + i] == #[trigger] prefix[i]
}

/// The number that the decimal digits from `from` to `to` write.
pub open spec fn digits_value(bytes: Seq<u8>, from: int, to: int) -> int
    decreases to - from,
{
    if to <= from {
        0
    } else {
        digits_value(bytes, from, to - 1) * 10 + (bytes[to - 1] - 48)
    }
}

/// Every byte from `from` to `to` is a decimal digit.
pub open spec fn all_digits(bytes: Seq<u8>, from: int, to: int) -> bool {
    forall|i: int| from <= i < to ==> 48 <= #[trigger] bytes[i] <= 57
}

/// The length that the bytes from `from` to `to` give: an optional `+`, then
/// at least one digit, and no more than a `usize` holds.
pub open spec fn length_value(bytes: Seq<u8>, from: int, to: int) -> Option<int> {
    let start = if from < to && bytes[from] == 43 {
        from + 1
    } else {
        from
    };
    if start < to && all_digits(bytes, start, to) && digits_value(bytes, start, to) <= usize::MAX {
        Some(digits_value(bytes, start, to))
    } else {
        None
    }
}

/// The end of the line from `from` to `to` without the carriage return at its
/// end.
pub open spec fn trimmed(bytes: Seq<u8>, from: int, to: int) -> int {
    if from < to && bytes[to - 1] == 13 {
        to - 1
    } else {
        to
    }
}

/// The length that the header gives: that of the first line, from `from` on,
/// that starts with `Content-Length: `. `None` where no line does, and where
/// what follows on that line is no length.
pub open spec fn content_length(bytes: Seq<u8>, from: int, limit: int) -> Option<int>
    decreases limit - from,
{
    if from < 0 || from >= limit || limit > bytes.len() {
        None
    } else {
        let end = line_feed(bytes, from, limit);
        let stop = trimmed(bytes, from, end);
        if has_prefix(bytes, from, stop, length_field()) {
            length_value(bytes, from + 16, stop)
        } else if from <= end < limit {
            content_length(bytes, end + 1, limit)
        } else {
            None
        }
    }
}

/// What the start of a buffer holds.
#[derive(Debug, Clone, Copy, PartialEq, Eq, Structural)]
pub enum Frame {
    /// Not yet a whole message: more bytes are to be read.
    Incomplete,
    /// A header without a length of its content.
    Invalid,
    /// A whole message: its content stands from `start` up to `end`.
    Message { start: usize, end: usize },
}

/// What the start of `bytes` holds. The header ends with the first empty
/// line; its length field gives the length of the content behind it.
pub open spec fn frame_of(bytes: Seq<u8>) -> Frame {
    match header_end(bytes, 0) {
        Some(h) => match content_length(bytes, 0, h) {
            Some(n) => if h + 4 + n <= bytes.len() {
                Frame::Message { start: (h + 4) as usize, end: (h + 4 + n) as usize }
            } else {
                Frame::Incomplete
            },
            None => Frame::Invalid,
        },
        None => Frame::Incomplete,
    }
}

/// What `header_end` finds lies within the bytes.
pub proof fn lemma_header_end(bytes: Seq<u8>, from: int)
    requires
        0 <= from,
    ensures
        header_end(bytes, from) matches Some(h) ==> from <= h && h + 4 <= bytes.len(),
    decreases bytes.len() - from,
{
    if from + 4 <= bytes.len() && !blank_line_at(bytes, from) {
        lemma_header_end(bytes, from + 1);
    }
}

fn find_header_end(bytes: &[u8]) -> (r: Option<usize>)
    ensures
        r.is_some() == header_end(bytes@, 0).is_some(),
        r.is_some() ==> r.unwrap() == header_end(bytes@, 0).unwrap() && r.unwrap() + 4
            <= bytes@.len(),
{
    let n = bytes.len();
    if n < 4 {
        return None;
    }
    let mut i: usize = 0;
    while i <= n - 4
        invariant
            n == bytes@.len(),
            n >= 4,
            i <= n - 3,
            header_end(bytes@, i as int) == header_end(bytes@, 0),
        decreases n - i,
    {
        if bytes[i] == 13 && bytes[i + 1] == 10 && bytes[i + 2] == 13 && bytes[i + 3] == 10 {
            return Some(i);
        }
        i += 1;
    }
    None
}

fn find_line_feed(bytes: &[u8], from: usize, limit: usize) -> (r: usize)
    requires
        from <= limit <= bytes@.len(),
    ensures
        r == line_feed(bytes@, from as int, limit as int),
        from <= r <= limit,
{
    let mut i: usize = from;
    while i < limit
        invariant
            from <= i <= limit <= bytes@.len(),
            line_feed(bytes@, i as int, limit as int) == line_feed(
                bytes@,
                from as int,
                limit as int,
            ),
        decreases limit - i,
    {
        if bytes[i] == 10 {
            return i;
        }
        i += 1;
    }
    limit
}

fn starts_with_length_field(bytes: &[u8], from: usize, to: usize) -> (r: bool)
    requires
        from <= to <= bytes@.len(),
    ensures
        r == has_prefix(bytes@, from as int, to as int, length_field()),
{
    if to - from < 16 {
        return false;
    }
    let ok = bytes[from] == 67 && bytes[from + 1] == 111 && bytes[from + 2] == 110 && bytes[from
        + 3] == 116 && bytes[from + 4] == 101 && bytes[from + 5] == 110 && bytes[from + 6] == 116
        && bytes[from + 7] == 45 && bytes[from + 8] == 76 && bytes[from + 9] == 101 && bytes[from
        + 10] == 110 && bytes[from + 11] == 103 && bytes[from + 12] == 116 && bytes[from + 13]
        == 104 && bytes[from + 14] == 58 && bytes[from + 15] == 32;
    proof {
        let p = length_field();
        if ok {
            assert forall|i: int| 0 <= i < p.len() implies bytes@[from + i] == #[trigger] p[i] by {}
        } else {
            if has_prefix(bytes@, from as int, to as int, p) {
                assert(bytes@[from + 0] == p[0]);
                assert(bytes@[from + 1] == p[1]);
                assert(bytes@[from + 2] == p[2]);
                assert(bytes@[from + 3] == p[3]);
                assert(bytes@[from + 4] == p[4]);
                assert(bytes@[from + 5] == p[5]);
                assert(bytes@[from + 6] == p[6]);
                assert(bytes@[from + 7] == p[7]);
                assert(bytes@[from + 8] == p[8]);
                assert(bytes@[from + 9] == p[9]);
                assert(bytes@[from + 10] == p[10]);
                assert(bytes@[from + 11] == p[11]);
                assert(bytes@[from + 12] == p[12]);
                assert(bytes@[from + 13] == p[13]);
                assert(bytes@[from + 14] == p[14]);
                assert(bytes@[from + 15] == p[15]);
            }
        }
    }
    ok
}

/// The digits read so far write no more than all the digits do.
proof fn lemma_digits_grow(bytes: Seq<u8>, from: int, k: int, to: int)
    requires
        from <= k <= to,
        all_digits(bytes, from, to),
    ensures
        0 <= digits_value(bytes, from, k) <= digits_value(bytes, from, to),
    decreases to - k,
{
    lemma_digits_nonnegative(bytes, from, k);
    if k < to {
        lemma_digits_grow(bytes, from, k, to - 1);
        lemma_digits_nonnegative(bytes, from, to - 1);
        assert(48 <= bytes[to - 1] <= 57);
    }
}

proof fn lemma_digits_nonnegative(bytes: Seq<u8>, from: int, to: int)
    requires
        all_digits(bytes, from, to),
    ensures
        0 <= digits_value(bytes, from, to),
    decreases to - from,
{
    if from < to {
        lemma_digits_nonnegative(bytes, from, to - 1);
        assert(48 <= bytes[to - 1] <= 57);
    }
}

fn read_length(bytes: &[u8], from: usize, to: usize) -> (r: Option<usize>)
    requires
        from <= to <= bytes@.len(),
    ensures
        r.is_some() == length_value(bytes@, from as int, to as int).is_some(),
        r.is_some() ==> r.unwrap() == length_value(bytes@, from as int, to as int).unwrap(),
{
    let start = if from < to && bytes[from] == 43 {
        from + 1
    } else {
        from
    };
    if start >= to {
        return None;
    }
    let mut value: usize = 0;
    let mut i: usize = start;
    while i < to
        invariant
            start <= i <= to <= bytes@.len(),
            start < to,
            start == if from < to && bytes@[from as int] == 43 {
                from + 1
            } else {
                from as int
            },
            all_digits(bytes@, start as int, i as int),
            value == digits_value(bytes@, start as int, i as int),
        decreases to - i,
    {
        let b = bytes[i];
        if b < 48 || b > 57 {
            assert(!(48 <= bytes@[i as int] <= 57));
            return None;
        }
        let digit = (b - 48) as usize;
        let next = match value.checked_mul(10) {
            Some(v) => v.checked_add(digit),
            None => None,
        };
        match next {
            Some(v) => {
                value = v;
            },
            None => {
                proof {
                    assert(digits_value(bytes@, start as int, i + 1) == value * 10 + digit);
                    if all_digits(bytes@, start as int, to as int) {
                        lemma_digits_grow(bytes@, start as int, i + 1, to as int);
                    }
                }
                return None;
            },
        }
        i += 1;
    }
    Some(value)
}

fn read_content_length(bytes: &[u8], limit: usize) -> (r: Option<usize>)
    requires
        limit <= bytes@.len(),
    ensures
        r.is_some() == content_length(bytes@, 0, limit as int).is_some(),
        r.is_some() ==> r.unwrap() == content_length(bytes@, 0, limit as int).unwrap(),
{
    let mut from: usize = 0;
    while from < limit
        invariant
            from <= limit <= bytes@.len(),
            content_length(bytes@, from as int, limit as int) == content_length(
                bytes@,
                0,
                limit as int,
            ),
        decreases limit - from,
    {
        let end = find_line_feed(bytes, from, limit);
        let stop = if from < end && bytes[end - 1] == 13 {
            end - 1
        } else {
            end
        };
        if starts_with_length_field(bytes, from, stop) {
            return read_length(bytes, from + 16, stop);
        }
        if end >= limit {
            return None;
        }
        from = end + 1;
    }
    None
}

/// What the start of the buffer holds.
pub fn next_frame(bytes: &[u8]) -> (r: Frame)
    ensures
        r == frame_of(bytes@),
{
    let total = bytes.len();
    let h = match find_header_end(bytes) {
        Some(h) => h,
        None => {
            return Frame::Incomplete;
        },
    };
    let n = match read_content_length(bytes, h) {
        Some(n) => n,
        None => {
            return Frame::Invalid;
        },
    };
    let start = h + 4;
    match start.checked_add(n) {
        Some(end) => {
            if end <= total {
                Frame::Message { start, end }
            } else {
                Frame::Incomplete
            }
        },
        None => Frame::Incomplete,
    }
}

/// The header of a message whose content has `length` bytes.
pub open spec fn header_of(length: usize) -> Seq<char> {
    "Content-Length: "@ + digits_text(length as int) + "\r\n\r\n"@
}

/// The header of a message whose content has `length` bytes.
pub fn header_for(length: usize) -> (r: String)
    ensures
        r@ == header_of(length),
{
    let mut digits = String::new();
    push_decimal(&mut digits, length as u64);
    assert(digits@ =~= digits_text(length as int));
    concat3("Content-Length: ", digits.as_str(), "\r\n\r\n")
}

} // verus!
