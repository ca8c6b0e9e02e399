//! The two kinds of field that a stored record is made of, and the calls into
//! `borsh` that read and write them.
//!
//! An integer field is the eight bytes of a `u64`, least significant first.
//! A text field is the byte length of the text as a `u32`, least significant
//! byte first, followed by the text in UTF-8.

use vstd::bytes::{
    spec_u32_from_le_bytes, spec_u32_to_le_bytes, spec_u64_from_le_bytes, spec_u64_to_le_bytes,
};
use vstd::prelude::*;
use vstd::utf8::{decode_utf8, encode_utf8, valid_utf8};

verus! {

/// The encoding of an integer field.
pub open spec fn integer_field(value: u64) -> Seq<u8> {
    spec_u64_to_le_bytes(value)
}

/// Whether a text is short enough for its length to be written in front of it.
pub open spec fn text_fits(text: Seq<char>) -> bool {
    encode_utf8(text).len() <= u32::MAX
}

/// The encoding of a text field.
pub open spec fn text_field(text: Seq<char>) -> Seq<u8> {
    spec_u32_to_le_bytes(encode_utf8(text).len() as u32) + encode_utf8(text)
}

/// Reads an integer field from the front of `bytes`: the value and the bytes
/// behind the field, or `None` if fewer than eight bytes are left.
pub open spec fn take_integer(bytes: Seq<u8>) -> Option<(u64, Seq<u8>)> {
    if bytes.len() < 8 {
        None
    } else {
        Some((spec_u64_from_le_bytes(bytes.subrange(0, 8)), bytes.subrange(8, bytes.len() as int)))
    }
}

/// Reads a text field from the front of `bytes`: the text and the bytes behind
/// the field. There is none if the length is cut short, if fewer bytes follow
/// than the length announces, or if those bytes are not UTF-8.
pub open spec fn take_text(bytes: Seq<u8>) -> Option<(Seq<char>, Seq<u8>)> {
    if bytes.len() < 4 {
        None
    } else {
        let n = spec_u32_from_le_bytes(bytes.subrange(0, 4)) as int;
        if bytes.len() < 4 + n || !valid_utf8(bytes.subrange(4, 4 + n)) {
            None
        } else {
            Some((decode_utf8(bytes.subrange(4, 4 + n)), bytes.subrange(4 + n, bytes.len() as int)))
        }
    }
}

/// The value of eight bytes, read as digits to the base 256 with the least
/// significant first.
pub open spec fn little_endian(bytes: Seq<u8>) -> int
    recommends
        bytes.len() == 8,
{
    bytes[0] + 0x100 * bytes[1] + 0x1_0000 * bytes[2] + 0x100_0000 * bytes[3] + 0x1_0000_0000
        * bytes[4] + 0x100_0000_0000 * bytes[5] + 0x1_0000_0000_0000 * bytes[6]
        + 0x100_0000_0000_0000 * bytes[7]
}

/// An integer field holds the digits of its value to the base 256, the least
/// significant first.
pub proof fn lemma_integer_field_is_little_endian(value: u64)
    ensures
        integer_field(value).len() == 8,
        little_endian(integer_field(value)) == value,
{
    vstd::bytes::lemma_auto_spec_u64_to_from_le_bytes();
    vstd::bytes::spec_u64_to_le_bytes_to_open(value);
    let x = value;
    assert(x == (x & 0xff) + 0x100 * ((x >> 8) & 0xff) + 0x1_0000 * ((x >> 16) & 0xff) + 0x100_0000
        * ((x >> 24) & 0xff) + 0x1_0000_0000 * ((x >> 32) & 0xff) + 0x100_0000_0000 * ((x >> 40)
        & 0xff) + 0x1_0000_0000_0000 * ((x >> 48) & 0xff) + 0x100_0000_0000_0000 * ((x >> 56)
        & 0xff)) by (bit_vector);
    assert((x & 0xff) < 0x100 && ((x >> 8) & 0xff) < 0x100 && ((x >> 16) & 0xff) < 0x100 && ((x
        >> 24) & 0xff) < 0x100 && ((x >> 32) & 0xff) < 0x100 && ((x >> 40) & 0xff) < 0x100 && ((x
        >> 48) & 0xff) < 0x100 && ((x >> 56) & 0xff) < 0x100) by (bit_vector);
}

/// An integer field holds nothing but zeros exactly when its value is zero.
pub proof fn lemma_zero_integer_field(value: u64)
    ensures
        (forall|i: int| 0 <= i < 8 ==> integer_field(value)[i] == 0) <==> value == 0,
{
    lemma_integer_field_is_little_endian(value);
    if value == 0 {
        let field = integer_field(value);
        assert(forall|i: int| 0 <= i < 8 ==> field[i] == 0) by {
            assert(field[0] == 0 && field[1] == 0 && field[2] == 0 && field[3] == 0 && field[4] == 0
                && field[5] == 0 && field[6] == 0 && field[7] == 0);
        }
    }
}

/// Eight bytes are read as the integer whose digits they are.
pub proof fn lemma_little_endian_value(bytes: Seq<u8>)
    requires
        bytes.len() == 8,
    ensures
        spec_u64_from_le_bytes(bytes) == little_endian(bytes),
{
    vstd::bytes::lemma_auto_spec_u64_to_from_le_bytes();
    lemma_integer_field_is_little_endian(spec_u64_from_le_bytes(bytes));
    assert(spec_u64_to_le_bytes(spec_u64_from_le_bytes(bytes)) == bytes);
}

/// An integer field that is written and read again gives the same value, and
/// the bytes behind it are left over.
pub proof fn lemma_take_written_integer(value: u64, behind: Seq<u8>)
    ensures
        integer_field(value).len() == 8,
        take_integer(integer_field(value) + behind) == Some((value, behind)),
{
    vstd::bytes::lemma_auto_spec_u64_to_from_le_bytes();
    let bytes = integer_field(value) + behind;
    assert(bytes.subrange(0, 8) =~= integer_field(value));
    assert(bytes.subrange(8, bytes.len() as int) =~= behind);
}

/// The bytes that an integer field was read from are the written value,
/// followed by what the reading left over.
pub proof fn lemma_written_taken_integer(bytes: Seq<u8>)
    requires
        take_integer(bytes) is Some,
    ensures
        take_integer(bytes) matches Some((value, behind)) && bytes == integer_field(value) + behind,
{
    vstd::bytes::lemma_auto_spec_u64_to_from_le_bytes();
    let head = bytes.subrange(0, 8);
    assert(spec_u64_to_le_bytes(spec_u64_from_le_bytes(head)) == head);
    assert(bytes =~= head + bytes.subrange(8, bytes.len() as int));
}

/// A text field that is written and read again gives the same text, and the
/// bytes behind it are left over.
pub proof fn lemma_take_written_text(text: Seq<char>, behind: Seq<u8>)
    requires
        text_fits(text),
    ensures
        text_field(text).len() == 4 + encode_utf8(text).len(),
        take_text(text_field(text) + behind) == Some((text, behind)),
{
    vstd::bytes::lemma_auto_spec_u32_to_from_le_bytes();
    vstd::utf8::encode_utf8_valid_utf8(text);
    vstd::utf8::encode_utf8_decode_utf8(text);
    let n = encode_utf8(text).len() as u32;
    let bytes = text_field(text) + behind;
    assert(bytes.subrange(0, 4) =~= spec_u32_to_le_bytes(n));
    assert(bytes.subrange(4, 4 + n) =~= encode_utf8(text));
    assert(bytes.subrange(4 + n, bytes.len() as int) =~= behind);
}

/// The bytes that a text field was read from are the written text, followed
/// by what the reading left over; and a text that was read can be written.
pub proof fn lemma_written_taken_text(bytes: Seq<u8>)
    requires
        take_text(bytes) is Some,
    ensures
        take_text(bytes) matches Some((text, behind)) && text_fits(text) && bytes == text_field(
            text,
        ) + behind,
{
    vstd::bytes::lemma_auto_spec_u32_to_from_le_bytes();
    let prefix = bytes.subrange(0, 4);
    let n = spec_u32_from_le_bytes(prefix);
    let body = bytes.subrange(4, 4 + n);
    vstd::utf8::decode_utf8_encode_utf8(body);
    assert(spec_u32_to_le_bytes(spec_u32_from_le_bytes(prefix)) == prefix);
    assert(bytes =~= prefix + body + bytes.subrange(4 + n, bytes.len() as int));
}

/// Calls `<u64 as borsh::BorshDeserialize>::deserialize`, which fails on fewer
/// than eight bytes and otherwise returns the little-endian value of the first
/// eight and moves the slice behind them.
#[verifier::external_body]
pub(crate) fn read_integer<'a>(bytes: &'a [u8]) -> (r: Option<(u64, &'a [u8])>)
    ensures
        match r {
            Some((value, rest)) => take_integer(bytes@) == Some((value, rest@)),
            None => take_integer(bytes@) is None,
        },
{
    let mut rest = bytes;
    match <u64 as borsh::BorshDeserialize>::deserialize(&mut rest) {
        Ok(value) => Some((value, rest)),
        Err(_) => None,
    }
}

/// Calls `<String as borsh::BorshDeserialize>::deserialize`, which reads a
/// `u32` length and that many bytes, fails if either is cut short or if the
/// bytes are refused by `String::from_utf8`, and otherwise returns them as a
/// `String` and moves the slice behind them.
#[verifier::external_body]
pub(crate) fn read_text<'a>(bytes: &'a [u8]) -> (r: Option<(String, &'a [u8])>)
    ensures
        match r {
            Some((text, rest)) => take_text(bytes@) == Some((text@, rest@)),
            None => take_text(bytes@) is None,
        },
{
    let mut rest = bytes;
    match <String as borsh::BorshDeserialize>::deserialize(&mut rest) {
        Ok(text) => Some((text, rest)),
        Err(_) => None,
    }
}

/// Calls `<u64 as borsh::BorshSerialize>::try_to_vec`, which writes the eight
/// bytes of `u64::to_le_bytes` into a fresh vector and cannot fail on one.
#[verifier::external_body]
pub(crate) fn write_integer(value: u64) -> (r: Option<Vec<u8>>)
    ensures
        match r {
            Some(bytes) => bytes@ == integer_field(value),
            None => false,
        },
{
    match borsh::BorshSerialize::try_to_vec(&value) {
        Ok(bytes) => Some(bytes),
        Err(_) => None,
    }
}

/// Calls `<String as borsh::BorshSerialize>::try_to_vec`, which fails if the
/// byte length of the text exceeds a `u32` and otherwise writes that length,
/// least significant byte first, and then the bytes of the text.
#[verifier::external_body]
pub(crate) fn write_text(text: &String) -> (r: Option<Vec<u8>>)
    ensures
        match r {
            Some(bytes) => text_fits(text@) && bytes@ == text_field(text@),
            None => !text_fits(text@),
        },
{
    match borsh::BorshSerialize::try_to_vec(text) {
        Ok(bytes) => Some(bytes),
        Err(_) => None,
    }
}

} // verus!
