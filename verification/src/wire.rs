//! Numbers as bytes, the lowest byte first, and the calls into the
//! serialiser that puts them on the wire.

use nanoserde::{DeBin, SerBin};
use vstd::prelude::*;

verus! {

/// Why a message could not be read.
#[derive(Clone, Copy, Debug, PartialEq, Eq, Structural)]
pub enum DecodeError {
    /// The message ends before the value does.
    Truncated,
}

/// The error of nanoserde's binary reader, kept opaque.
#[verifier::external_type_specification]
#[verifier::external_body]
pub struct ExDeBinErr(nanoserde::DeBinErr);

/// 256 to the power of `width`.
pub open spec fn pow256(width: nat) -> nat
    decreases width,
{
    if width == 0 {
        1
    } else {
        256 * pow256((width - 1) as nat)
    }
}

/// The `width` lowest bytes of `value`, the lowest first.
pub open spec fn le_bytes(value: nat, width: nat) -> Seq<u8>
    decreases width,
{
    if width == 0 {
        Seq::empty()
    } else {
        seq![(value % 256) as u8] + le_bytes(value / 256, (width - 1) as nat)
    }
}

/// The number whose bytes these are, the lowest first.
pub open spec fn le_value(bytes: Seq<u8>) -> nat
    decreases bytes.len(),
{
    if bytes.len() == 0 {
        0
    } else {
        bytes[0] as nat + 256 * le_value(bytes.skip(1))
    }
}

/// `le_bytes` gives as many bytes as asked for.
pub proof fn lemma_le_bytes_len(value: nat, width: nat)
    ensures
        le_bytes(value, width).len() == width,
    decreases width,
{
    if width > 0 {
        lemma_le_bytes_len(value / 256, (width - 1) as nat);
    }
}

/// A number of `n` bytes is below 256 to the power of `n`.
pub proof fn lemma_le_value_bound(bytes: Seq<u8>)
    ensures
        le_value(bytes) < pow256(bytes.len()),
    decreases bytes.len(),
{
    if bytes.len() > 0 {
        lemma_le_value_bound(bytes.skip(1));
    }
}

/// Reading the bytes of a number gives the number back, if the number fits
/// in that many bytes.
pub proof fn lemma_le_round_trip(value: nat, width: nat)
    requires
        value < pow256(width),
    ensures
        le_value(le_bytes(value, width)) == value,
    decreases width,
{
    if width > 0 {
        let rest = le_bytes(value / 256, (width - 1) as nat);
        lemma_le_round_trip(value / 256, (width - 1) as nat);
        assert(le_bytes(value, width).skip(1) =~= rest);
    }
}

/// The bytes of a 16-bit number.
///
/// Calls `serialize_bin` of nanoserde's `SerBin` for `u16`. Trusted: the
/// result is the two bytes of the number, the low byte first.
#[verifier::external_body]
pub(crate) fn ser_u16(value: u16) -> (bytes: Vec<u8>)
    ensures
        bytes@ == le_bytes(value as nat, 2),
{
    SerBin::serialize_bin(&value)
}

/// The 16-bit number at the start of a message.
///
/// Calls `deserialize_bin` of nanoserde's `DeBin` for `u16`. Trusted: the
/// call fails exactly on a message of fewer than two bytes; otherwise the
/// result is the number spelt by the first two bytes, the low byte first,
/// and what follows them is ignored.
#[verifier::external_body]
pub(crate) fn de_u16(bytes: &[u8]) -> (value: Result<u16, nanoserde::DeBinErr>)
    ensures
        bytes@.len() < 2 ==> value is Err,
        bytes@.len() >= 2 ==> value is Ok && value->Ok_0 as nat == le_value(bytes@.take(2)),
{
    DeBin::deserialize_bin(bytes)
}

/// One byte as a message.
///
/// Calls `serialize_bin` of nanoserde's `SerBin` for `u8`. Trusted: the
/// result is that one byte.
#[verifier::external_body]
pub(crate) fn ser_u8(value: u8) -> (bytes: Vec<u8>)
    ensures
        bytes@ == seq![value],
{
    SerBin::serialize_bin(&value)
}

/// The byte at the start of a message.
///
/// Calls `deserialize_bin` of nanoserde's `DeBin` for `u8`. Trusted: the
/// call fails exactly on an empty message; otherwise the result is the first
/// byte, and what follows it is ignored.
#[verifier::external_body]
pub(crate) fn de_u8(bytes: &[u8]) -> (value: Result<u8, nanoserde::DeBinErr>)
    ensures
        bytes@.len() < 1 ==> value is Err,
        bytes@.len() >= 1 ==> value is Ok && value->Ok_0 == bytes@[0],
{
    DeBin::deserialize_bin(bytes)
}

/// Three bytes as a message.
///
/// Calls `serialize_bin` of nanoserde's `SerBin` for an array of bytes.
/// Trusted: the result is the three bytes in their order, with nothing
/// before or after them.
#[verifier::external_body]
pub(crate) fn ser_triple(value: &[u8; 3]) -> (bytes: Vec<u8>)
    ensures
        bytes@ == value@,
{
    SerBin::serialize_bin(value)
}

/// The three bytes at the start of a message.
///
/// Calls `deserialize_bin` of nanoserde's `DeBin` for an array of three
/// bytes. Trusted: the call fails exactly on a message of fewer than three
/// bytes; otherwise the result is the first three bytes in their order, and
/// what follows them is ignored.
#[verifier::external_body]
pub(crate) fn de_triple(bytes: &[u8]) -> (value: Result<[u8; 3], nanoserde::DeBinErr>)
    ensures
        bytes@.len() < 3 ==> value is Err,
        bytes@.len() >= 3 ==> value is Ok && value->Ok_0@ == bytes@.take(3),
{
    DeBin::deserialize_bin(bytes)
}

/// Reads `width` bytes at `at` as a number, the lowest byte first.
pub fn read_le(bytes: &[u8], at: usize, width: usize) -> (value: u64)
    requires
        width <= 8,
        at + width <= bytes@.len(),
    ensures
        value as nat == le_value(bytes@.subrange(at as int, at + width)),
{
    let len = bytes.len();
    let mut value: u64 = 0;
    let mut left: usize = width;
    assert(bytes@.subrange(at + width, at + width) =~= Seq::<u8>::empty());
    while left > 0
        invariant
            left <= width <= 8,
            len == bytes@.len(),
            at + width <= bytes@.len(),
            value as nat == le_value(bytes@.subrange(at + left, at + width)),
        decreases left,
    {
        left -= 1;
        let byte = bytes[at + left];
        proof {
            let tail = bytes@.subrange(at + left + 1, at + width);
            let more = bytes@.subrange(at + left, at + width);
            assert(more.skip(1) =~= tail);
            assert(more[0] == byte);
            lemma_le_value_bound(tail);
            lemma_le_value_bound(more);
            lemma_pow256_of_eight(more.len());
        }
        value = value * 256 + byte as u64;
    }
    value
}

/// No number of at most eight bytes exceeds 64 bits.
proof fn lemma_pow256_of_eight(width: nat)
    requires
        width <= 8,
    ensures
        pow256(width) <= 0x1_0000_0000_0000_0000,
{
    reveal_with_fuel(pow256, 10);
}

/// The bytes of one line of a start message: the port and the horizontal
/// place as 16-bit numbers, then the vertical place as one byte.
pub open spec fn line_bytes(line: (u16, (u16, u8))) -> Seq<u8> {
    le_bytes(line.0 as nat, 2) + le_bytes(line.1.0 as nat, 2) + seq![line.1.1]
}

/// The bytes of the lines of a start message, one after the other.
pub open spec fn lines_bytes(lines: Seq<(u16, (u16, u8))>) -> Seq<u8>
    decreases lines.len(),
{
    if lines.len() == 0 {
        Seq::empty()
    } else {
        lines_bytes(lines.drop_last()) + line_bytes(lines.last())
    }
}

/// The bytes of a start message: the number of lines as a 64-bit number,
/// then the lines.
pub open spec fn list_bytes(lines: Seq<(u16, (u16, u8))>) -> Seq<u8> {
    le_bytes(lines.len(), 8) + lines_bytes(lines)
}

/// The bytes of a list of lines.
///
/// Calls `serialize_bin` of nanoserde's `SerBin` for a `Vec` of nested
/// pairs. Trusted: the result is the length of the list as eight bytes, the
/// lowest first, followed for each element in order by the two bytes of the
/// first number, the two bytes of the second and the single last byte.
#[verifier::external_body]
pub(crate) fn ser_lines(lines: &Vec<(u16, (u16, u8))>) -> (bytes: Vec<u8>)
    ensures
        bytes@ == list_bytes(lines@),
{
    SerBin::serialize_bin(lines)
}

/// The number of lines that a start message claims to hold.
pub open spec fn claimed_lines(bytes: Seq<u8>) -> nat {
    le_value(bytes.take(8))
}

/// Whether a message holds a count and as many lines as the count claims.
pub open spec fn holds_list(bytes: Seq<u8>) -> bool {
    bytes.len() >= 8 && 8 + 5 * claimed_lines(bytes) <= bytes.len()
}

/// The line that starts at `at`.
pub open spec fn line_at(bytes: Seq<u8>, at: int) -> (u16, (u16, u8)) {
    (
        le_value(bytes.subrange(at, at + 2)) as u16,
        (le_value(bytes.subrange(at + 2, at + 4)) as u16, bytes[at + 4]),
    )
}

/// The lines of a start message.
pub open spec fn decoded_lines(bytes: Seq<u8>) -> Seq<(u16, (u16, u8))> {
    Seq::new(claimed_lines(bytes), |i: int| line_at(bytes, 8 + 5 * i))
}

/// The list of lines at the start of a message.
///
/// Calls `deserialize_bin` of nanoserde's `DeBin` for a `Vec` of nested
/// pairs. The reader makes room for as many elements as the count claims
/// before it reads the first, so it is only asked where the message holds
/// what its count claims. Trusted: on such a message the call succeeds; the
/// result has as many elements as the first eight bytes spell, the lowest
/// first, and each is read from its five bytes as two 16-bit numbers, the
/// low byte first, and one byte. What follows the last element is ignored.
#[verifier::external_body]
pub(crate) fn de_lines(bytes: &[u8]) -> (lines: Result<
    Vec<(u16, (u16, u8))>,
    nanoserde::DeBinErr,
>)
    requires
        holds_list(bytes@),
    ensures
        lines is Ok,
        lines->Ok_0@ == decoded_lines(bytes@),
{
    DeBin::deserialize_bin(bytes)
}

/// Every line takes five bytes.
pub proof fn lemma_lines_bytes_len(lines: Seq<(u16, (u16, u8))>)
    ensures
        lines_bytes(lines).len() == 5 * lines.len(),
    decreases lines.len(),
{
    if lines.len() > 0 {
        lemma_lines_bytes_len(lines.drop_last());
        lemma_le_bytes_len(lines.last().0 as nat, 2);
        lemma_le_bytes_len(lines.last().1.0 as nat, 2);
    }
}

/// The five bytes of line `i` stand at five times `i`.
pub proof fn lemma_line_in_lines(lines: Seq<(u16, (u16, u8))>, i: int)
    requires
        0 <= i < lines.len(),
    ensures
        lines_bytes(lines).len() == 5 * lines.len(),
        lines_bytes(lines).subrange(5 * i, 5 * i + 5) == line_bytes(lines[i]),
    decreases lines.len(),
{
    let front = lines.drop_last();
    lemma_lines_bytes_len(lines);
    lemma_lines_bytes_len(front);
    lemma_le_bytes_len(lines.last().0 as nat, 2);
    lemma_le_bytes_len(lines.last().1.0 as nat, 2);
    if i == lines.len() - 1 {
        assert(lines_bytes(lines).subrange(5 * i, 5 * i + 5) =~= line_bytes(lines.last()));
    } else {
        lemma_line_in_lines(front, i);
        assert(lines_bytes(lines).subrange(5 * i, 5 * i + 5) =~= lines_bytes(front).subrange(
            5 * i,
            5 * i + 5,
        ));
    }
}

/// Five bytes that spell a line read back as that line.
pub proof fn lemma_line_round_trip(bytes: Seq<u8>, at: int, line: (u16, (u16, u8)))
    requires
        0 <= at,
        at + 5 <= bytes.len(),
        bytes.subrange(at, at + 5) == line_bytes(line),
    ensures
        line_at(bytes, at) == line,
{
    let five = bytes.subrange(at, at + 5);
    lemma_le_bytes_len(line.0 as nat, 2);
    lemma_le_bytes_len(line.1.0 as nat, 2);
    assert(bytes.subrange(at, at + 2) =~= five.subrange(0, 2));
    assert(bytes.subrange(at + 2, at + 4) =~= five.subrange(2, 4));
    assert(five.subrange(0, 2) =~= le_bytes(line.0 as nat, 2));
    assert(five.subrange(2, 4) =~= le_bytes(line.1.0 as nat, 2));
    assert(bytes[at + 4] == five[4]);
    assert(five[4] == line.1.1);
    reveal_with_fuel(pow256, 3);
    lemma_le_round_trip(line.0 as nat, 2);
    lemma_le_round_trip(line.1.0 as nat, 2);
}

/// A start message reads back as the lines it was written from: the count
/// and every line are found again, whatever follows the message.
pub proof fn lemma_list_round_trip(lines: Seq<(u16, (u16, u8))>, rest: Seq<u8>)
    requires
        lines.len() < pow256(8),
    ensures
        holds_list(list_bytes(lines) + rest),
        decoded_lines(list_bytes(lines) + rest) == lines,
{
    let bytes = list_bytes(lines) + rest;
    lemma_le_bytes_len(lines.len(), 8);
    lemma_lines_bytes_len(lines);
    assert(bytes.take(8) =~= le_bytes(lines.len(), 8));
    lemma_le_round_trip(lines.len(), 8);
    assert(claimed_lines(bytes) == lines.len());
    assert forall|i: int| 0 <= i < lines.len() implies line_at(bytes, 8 + 5 * i) == lines[i] by {
        lemma_line_in_lines(lines, i);
        assert(bytes.subrange(8 + 5 * i, 8 + 5 * i + 5) =~= lines_bytes(lines).subrange(
            5 * i,
            5 * i + 5,
        ));
        lemma_line_round_trip(bytes, 8 + 5 * i, lines[i]);
    }
    assert(decoded_lines(bytes) =~= lines);
}

} // verus!
