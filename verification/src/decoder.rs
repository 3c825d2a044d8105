//! The escape-sequence decoder: one byte slice in, at most one input event out.
//!
//! The parsing itself is `terminput`'s. This module guards the call, names its
//! outcome for the contracts of the rest of the crate, and writes out the few
//! outcomes that the stream's laws rest on.

use terminput::Event;
use vstd::prelude::*;
use vstd::slice::slice_subrange;

verus! {

/// The byte that opens every escape sequence.
pub const ESC: u8 = 0x1B;

/// `;`, which separates the numbers of a report.
pub const SEMICOLON: u8 = 0x3B;

/// `+`, which integer parsing accepts before the digits.
pub const PLUS: u8 = 0x2B;

/// The digit `0`.
pub const ZERO: u8 = 0x30;

/// The digit `9`.
pub const NINE: u8 = 0x39;

/// `[`, the second byte of a control sequence.
pub const BRACKET: u8 = 0x5B;

/// `<`, which marks a mouse report in SGR form.
pub const LESS_THAN: u8 = 0x3C;

/// `M`, which closes a mouse report.
pub const UPPER_M: u8 = 0x4D;

/// `m`, which closes the report of a released button.
pub const LOWER_M: u8 = 0x6D;

/// `O`, the second byte of a cursor sequence in application mode.
pub const UPPER_O: u8 = 0x4F;

/// `~`, which closes a numbered key sequence.
pub const TILDE: u8 = 0x7E;

/// The digit `2`.
pub const TWO: u8 = 0x32;

/// An input event as `terminput` models it. The crate hands such values on
/// and never looks inside one.
#[verifier::external_type_specification]
#[verifier::external_body]
pub struct ExEvent(Event);

/// What the decoder makes of a byte slice.
#[derive(Debug, PartialEq, Eq)]
pub enum Decoded {
    /// The bytes may begin an event, but more of them are needed.
    Incomplete,
    /// The bytes are one complete event.
    Complete(Event),
    /// The bytes are no event and no beginning of one.
    Invalid,
}

/// The outcome of `terminput::Event::parse_from` on `bytes`.
pub uninterp spec fn parser_outcome(bytes: Seq<u8>) -> Decoded;

/// A byte that stands for itself: a printable ASCII character.
pub open spec fn is_printable(byte: u8) -> bool {
    0x20 <= byte <= 0x7E
}

/// `ESC [` or `ESC O`: the two bytes that open a cursor-movement sequence.
pub open spec fn is_cursor_introducer(bytes: Seq<u8>) -> bool {
    bytes.len() == 2 && bytes[0] == ESC && (bytes[1] == BRACKET || bytes[1] == UPPER_O)
}

/// A cursor-movement sequence: an introducer and one of `A`, `B`, `C`, `D`
/// (up, down, right, left).
pub open spec fn is_cursor_sequence(bytes: Seq<u8>) -> bool {
    bytes.len() == 3 && is_cursor_introducer(bytes.take(2)) && 0x41 <= bytes[2] <= 0x44
}

/// The parser's outcome on `bytes`, with three facts about it written out:
/// a cursor introducer alone is incomplete, and both a single printable byte
/// and a cursor-movement sequence are complete events. Which event they are,
/// and every other outcome, is the parser's own.
pub open spec fn parse_spec(bytes: Seq<u8>) -> Decoded {
    if is_cursor_introducer(bytes) {
        Decoded::Incomplete
    } else if (bytes.len() == 1 && is_printable(bytes[0])) || is_cursor_sequence(bytes) {
        Decoded::Complete(parser_outcome(bytes)->Complete_0)
    } else {
        parser_outcome(bytes)
    }
}

/// The length of the run of bytes before the first `;` of `text`.
pub open spec fn field_len(text: Seq<u8>) -> nat
    decreases text.len(),
{
    if text.len() == 0 || text[0] == SEMICOLON {
        0
    } else {
        1 + field_len(text.skip(1))
    }
}

/// The field of `text` at `index`, counting from zero, where `;` separates
/// the fields; `None` where `text` has fewer fields.
pub open spec fn field(text: Seq<u8>, index: nat) -> Option<Seq<u8>>
    decreases index,
{
    let len = field_len(text);
    if index == 0 {
        Some(text.take(len as int))
    } else if len == text.len() {
        None
    } else {
        field(text.skip(len as int + 1), (index - 1) as nat)
    }
}

/// Whether `digits` is one or more `0` and nothing else.
pub open spec fn all_zeros(digits: Seq<u8>) -> bool {
    digits.len() > 0 && forall|i: int| 0 <= i < digits.len() ==> digits[i] == ZERO
}

/// Whether `digits` is a decimal text of the number zero: one or more `0`,
/// with or without a `+` before them.
pub open spec fn reads_as_zero(digits: Seq<u8>) -> bool {
    if digits.len() > 0 && digits[0] == PLUS {
        all_zeros(digits.skip(1))
    } else {
        all_zeros(digits)
    }
}

/// Whether the field of `text` at `index` is there and reads as zero.
pub open spec fn zero_field(text: Seq<u8>, index: nat) -> bool {
    field(text, index) matches Some(digits) && reads_as_zero(digits)
}

/// Whether `bytes` begin with the marker that opens a bracketed paste,
/// `ESC [ 2 0 0 ~`.
pub open spec fn opens_paste(bytes: Seq<u8>) -> bool {
    &&& bytes.len() >= 6
    &&& bytes[0] == ESC
    &&& bytes[1] == BRACKET
    &&& bytes[2] == TWO
    &&& bytes[3] == ZERO
    &&& bytes[4] == ZERO
    &&& bytes[5] == TILDE
}

/// Whether `bytes` have the frame of a mouse report with numbers in it:
/// `ESC [ <` up to a closing `M` or `m`, or `ESC [` and a digit up to a
/// closing `M`, the latter outside a bracketed paste.
pub open spec fn is_numeric_mouse_report(bytes: Seq<u8>) -> bool {
    let last = bytes[bytes.len() - 1];
    &&& bytes.len() >= 4
    &&& bytes[0] == ESC
    &&& bytes[1] == BRACKET
    &&& {
        ||| bytes[2] == LESS_THAN && (last == UPPER_M || last == LOWER_M)
        ||| ZERO <= bytes[2] <= NINE && last == UPPER_M && !opens_paste(bytes)
    }
}

/// A mouse report that names column or row zero. Positions in a report
/// count from one, so such a report is malformed; the parser subtracts one
/// from each position without a check and must not be handed one.
pub open spec fn is_zero_position_report(bytes: Seq<u8>) -> bool {
    let body = bytes.subrange(2, bytes.len() - 1);
    is_numeric_mouse_report(bytes) && (zero_field(body, 1) || zero_field(body, 2))
}

/// What the decoder makes of `bytes`: a mouse report that names position
/// zero is invalid, and of all other bytes the parser decides.
pub open spec fn decode_spec(bytes: Seq<u8>) -> Decoded {
    if is_zero_position_report(bytes) {
        Decoded::Invalid
    } else {
        parse_spec(bytes)
    }
}

/// Calls `terminput::Event::parse_from` and tells its three outcomes apart:
/// an event, `None` for bytes that need more, an error for bytes that are no
/// event. The outcome is a function of the bytes alone, so it has a name, and
/// `parse_spec` adds what the parser's first `match` and its `parse_csi` show
/// for single printable bytes and for cursor sequences. Mouse reports with a
/// position of zero are left out, since the parser computes `0 - 1` on them.
#[verifier::external_body]
fn parse_event(bytes: &[u8]) -> (out: Decoded)
    requires
        !is_zero_position_report(bytes@),
    ensures
        out == parser_outcome(bytes@),
        out == parse_spec(bytes@),
{
    match Event::parse_from(bytes) {
        Ok(Some(event)) => Decoded::Complete(event),
        Ok(None) => Decoded::Incomplete,
        Err(_) => Decoded::Invalid,
    }
}

/// Finds the end of the field of `text` that begins at `from`.
fn field_end(text: &[u8], from: usize) -> (end: usize)
    requires
        from <= text@.len(),
    ensures
        from <= end <= text@.len(),
        end - from == field_len(text@.skip(from as int)),
{
    let mut end = from;
    while end < text.len() && text[end] != SEMICOLON
        invariant
            from <= end <= text@.len(),
            field_len(text@.skip(from as int)) == (end - from) + field_len(
                text@.skip(end as int),
            ),
        decreases text@.len() - end,
    {
        proof {
            assert(text@.skip(end as int).skip(1) =~= text@.skip(end + 1));
        }
        end += 1;
    }
    end
}

/// Tests whether the bytes of `text` from `from` up to `to` read as zero.
fn reads_zero(text: &[u8], from: usize, to: usize) -> (zero: bool)
    requires
        from <= to <= text@.len(),
    ensures
        zero == reads_as_zero(text@.subrange(from as int, to as int)),
{
    let ghost digits = text@.subrange(from as int, to as int);
    let start = if from < to && text[from] == PLUS {
        from + 1
    } else {
        from
    };
    let ghost zeros = text@.subrange(start as int, to as int);
    proof {
        if start != from {
            assert(digits.skip(1) =~= zeros);
        } else {
            assert(digits =~= zeros);
        }
    }
    if start == to {
        return false;
    }
    let mut at = start;
    while at < to
        invariant
            start <= at <= to <= text@.len(),
            from <= start,
            digits == text@.subrange(from as int, to as int),
            zeros == text@.subrange(start as int, to as int),
            reads_as_zero(digits) == all_zeros(zeros),
            forall|i: int| 0 <= i < at - start ==> zeros[i] == ZERO,
        decreases to - at,
    {
        if text[at] != ZERO {
            assert(zeros[at - start] != ZERO);
            return false;
        }
        at += 1;
    }
    true
}

/// Tests whether the second or the third field of `body` reads as zero.
fn names_position_zero(body: &[u8]) -> (zero: bool)
    ensures
        zero == (zero_field(body@, 1) || zero_field(body@, 2)),
{
    let len = body.len();
    let first_end = field_end(body, 0);
    proof {
        reveal_with_fuel(field, 3);
        assert(body@.skip(0) =~= body@);
    }
    if first_end == len {
        return false;
    }
    let second = first_end + 1;
    let second_end = field_end(body, second);
    proof {
        assert(body@.skip(second as int).take(second_end - second) =~= body@.subrange(
            second as int,
            second_end as int,
        ));
    }
    if reads_zero(body, second, second_end) {
        return true;
    }
    if second_end == len {
        return false;
    }
    let third = second_end + 1;
    let third_end = field_end(body, third);
    proof {
        assert(body@.skip(second as int).skip(second_end - second + 1) =~= body@.skip(
            third as int,
        ));
        assert(body@.skip(third as int).take(third_end - third) =~= body@.subrange(
            third as int,
            third_end as int,
        ));
    }
    reads_zero(body, third, third_end)
}

/// Tests whether `bytes` open a bracketed paste.
fn has_paste_opening(bytes: &[u8]) -> (opens: bool)
    ensures
        opens == opens_paste(bytes@),
{
    bytes.len() >= 6 && bytes[0] == ESC && bytes[1] == BRACKET && bytes[2] == TWO && bytes[3]
        == ZERO && bytes[4] == ZERO && bytes[5] == TILDE
}

/// Tests whether `bytes` are a mouse report that names column or row zero.
pub fn names_zero_position(bytes: &[u8]) -> (zero: bool)
    ensures
        zero == is_zero_position_report(bytes@),
{
    let len = bytes.len();
    if len < 4 || bytes[0] != ESC || bytes[1] != BRACKET {
        return false;
    }
    let last = bytes[len - 1];
    let framed = if bytes[2] == LESS_THAN {
        last == UPPER_M || last == LOWER_M
    } else {
        ZERO <= bytes[2] && bytes[2] <= NINE && last == UPPER_M && !has_paste_opening(bytes)
    };
    if !framed {
        return false;
    }
    names_position_zero(slice_subrange(bytes, 2, len - 1))
}

/// Decodes `bytes` as one input event.
///
/// The result is `Complete` with the event where the bytes are exactly one
/// event, `Incomplete` where they may be the beginning of one (no bytes at
/// all among them), and `Invalid` where they are neither.
pub fn decode(bytes: &[u8]) -> (out: Decoded)
    ensures
        out == decode_spec(bytes@),
{
    if names_zero_position(bytes) {
        Decoded::Invalid
    } else {
        parse_event(bytes)
    }
}

} // verus!
