//! What the length prefixes and the integer encodings mean, stated byte by
//! byte over the input.
use vstd::prelude::*;
use vstd::utf8::{decode_utf8, valid_utf8};
use crate::db::spec_rdb_load_len;
use crate::error::RdbError;
use crate::num::{be_signed, be_value, byte_bound, decimal};
use crate::pair::{spec_parse_pair, spec_read_key_string, spec_read_string_encoding, PairModel};
use crate::rdb_string::spec_parse_string;

verus! {

/// The value of the byte `x` read as a signed 8-bit integer.
pub open spec fn as_i8(x: u8) -> int {
    if x >= 128 { x - 256 } else { x as int }
}

/// The value of the bytes `x`, `y` read as a big-endian signed 16-bit integer.
pub open spec fn as_i16(x: u8, y: u8) -> int {
    if x >= 128 { x * 256 + y - 65536 } else { x * 256 + y }
}

/// The value of four bytes read as a big-endian unsigned 32-bit integer.
pub open spec fn as_u32(a: u8, b: u8, c: u8, d: u8) -> int {
    a * 16777216 + b * 65536 + c * 256 + d
}

/// The value of four bytes read as a big-endian signed 32-bit integer.
pub open spec fn as_i32(a: u8, b: u8, c: u8, d: u8) -> int {
    if a >= 128 { as_u32(a, b, c, d) - 4294967296 } else { as_u32(a, b, c, d) }
}

pub proof fn lemma_be1(b: Seq<u8>)
    requires
        b.len() == 1,
    ensures
        be_value(b) == b[0],
        be_signed(b) == as_i8(b[0]),
{
    reveal_with_fuel(be_value, 2);
    reveal_with_fuel(byte_bound, 2);
    assert(b.drop_last() =~= Seq::<u8>::empty());
}

pub proof fn lemma_be2(b: Seq<u8>)
    requires
        b.len() == 2,
    ensures
        be_value(b) == b[0] * 256 + b[1],
        be_signed(b) == as_i16(b[0], b[1]),
{
    reveal_with_fuel(byte_bound, 3);
    lemma_be1(b.drop_last());
}

pub proof fn lemma_be3(b: Seq<u8>)
    requires
        b.len() == 3,
    ensures
        be_value(b) == b[0] * 65536 + b[1] * 256 + b[2],
{
    lemma_be2(b.drop_last());
}

pub proof fn lemma_be4(b: Seq<u8>)
    requires
        b.len() == 4,
    ensures
        be_value(b) == as_u32(b[0], b[1], b[2], b[3]),
        be_signed(b) == as_i32(b[0], b[1], b[2], b[3]),
{
    reveal_with_fuel(byte_bound, 5);
    lemma_be3(b.drop_last());
}

pub proof fn lemma_be8(b: Seq<u8>)
    requires
        b.len() == 8,
    ensures
        be_value(b) == as_u32(b[0], b[1], b[2], b[3]) * 4294967296 + as_u32(b[4], b[5], b[6], b[7]),
{
    let c = b.drop_last();
    let d = c.drop_last();
    let e = d.drop_last();
    let f = e.drop_last();
    lemma_be4(f);
    assert(be_value(b) == be_value(c) * 256 + b[7]);
    assert(be_value(c) == be_value(d) * 256 + b[6]);
    assert(be_value(d) == be_value(e) * 256 + b[5]);
    assert(be_value(e) == be_value(f) * 256 + b[4]);
}

/// Law: a first byte below 64 (top bits `00`) is the whole length of a plain
/// string, all six low bits of it, and the prefix is that one byte; the
/// table-size length reads it the same way.
pub proof fn law_six_bit_length(s: Seq<u8>, pos: int)
    requires
        0 <= pos < s.len(),
        s[pos] < 64,
    ensures
        spec_read_string_encoding(s, pos) == (Ok::<(u8, usize), RdbError>((0u8, s[pos] as usize)), pos + 1),
        spec_rdb_load_len(s, pos) == (Ok::<usize, RdbError>(s[pos] as usize), pos + 1),
{
}

/// Law: a first byte with top bits `01` gives the length `(first - 64) * 256
/// + second`, over two bytes, in both length encodings.
pub proof fn law_fourteen_bit_length(s: Seq<u8>, pos: int)
    requires
        0 <= pos,
        pos + 1 < s.len(),
        64 <= s[pos] < 128,
    ensures
        spec_read_string_encoding(s, pos) == (Ok::<(u8, usize), RdbError>((0u8, ((s[pos] - 64) * 256 + s[pos + 1]) as usize)), pos + 2),
        spec_rdb_load_len(s, pos) == (Ok::<usize, RdbError>(((s[pos] - 64) * 256 + s[pos + 1]) as usize), pos + 2),
{
}

/// Law: a first byte with top bits `10` gives, for a string, the big-endian
/// value of the next four bytes; for a table size, the big-endian value of
/// the low six bits and the next three bytes (the fourth is passed over).
/// Both read five bytes.
pub proof fn law_thirty_two_bit_length(s: Seq<u8>, pos: int)
    requires
        0 <= pos,
        pos + 4 < s.len(),
        128 <= s[pos] < 192,
    ensures
        spec_read_string_encoding(s, pos) == (Ok::<(u8, usize), RdbError>((0u8, as_u32(s[pos + 1], s[pos + 2], s[pos + 3], s[pos + 4]) as usize)), pos + 5),
        spec_rdb_load_len(s, pos) == (Ok::<usize, RdbError>(as_u32((s[pos] - 128) as u8, s[pos + 1], s[pos + 2], s[pos + 3]) as usize), pos + 5),
{
    lemma_be4(s.subrange(pos + 1, pos + 5));
    let low = (s[pos] % 64) as u8;
    let w = seq![low] + s.subrange(pos + 1, pos + 5).subrange(0, 3);
    lemma_be4(w);
}

/// Law: a first byte with top bits `11` gives, for a table size, the
/// big-endian value of the low six bits and the next seven bytes, over nine
/// bytes.
pub proof fn law_sixty_four_bit_load_len(s: Seq<u8>, pos: int)
    requires
        0 <= pos,
        pos + 8 < s.len(),
        192 <= s[pos],
    ensures
        spec_rdb_load_len(s, pos) == (Ok::<usize, RdbError>(
            (as_u32((s[pos] - 192) as u8, s[pos + 1], s[pos + 2], s[pos + 3]) * 4294967296
                + as_u32(s[pos + 4], s[pos + 5], s[pos + 6], s[pos + 7])) as usize), pos + 9),
{
    let low = (s[pos] % 64) as u8;
    let w = seq![low] + s.subrange(pos + 1, pos + 9).subrange(0, 7);
    lemma_be8(w);
}

/// Law: a first byte with top bits `11` selects a special string encoding by
/// its low six bits: 0, 1, 2 an integer of 1, 2, 4 bytes, 3 a compressed
/// string, and any other value is an error; the prefix is that one byte.
pub proof fn law_special_encodings(s: Seq<u8>, pos: int)
    requires
        0 <= pos < s.len(),
        192 <= s[pos],
    ensures
        spec_read_string_encoding(s, pos).1 == pos + 1,
        s[pos] == 192 ==> spec_read_string_encoding(s, pos).0 == Ok::<(u8, usize), RdbError>((1u8, 1usize)),
        s[pos] == 193 ==> spec_read_string_encoding(s, pos).0 == Ok::<(u8, usize), RdbError>((2u8, 2usize)),
        s[pos] == 194 ==> spec_read_string_encoding(s, pos).0 == Ok::<(u8, usize), RdbError>((3u8, 4usize)),
        s[pos] == 195 ==> spec_read_string_encoding(s, pos).0 == Ok::<(u8, usize), RdbError>((4u8, 0usize)),
        s[pos] > 195 ==> spec_read_string_encoding(s, pos).0 == Err::<(u8, usize), RdbError>(RdbError::InvalidStringEncoding),
{
}

/// Law: a key with a six-bit length prefix `n` is the UTF-8 text of the `n`
/// bytes after the prefix, where they are valid.
pub proof fn law_short_plain_key(s: Seq<u8>, pos: int)
    requires
        0 <= pos < s.len(),
        s[pos] < 64,
        pos + 1 + s[pos] <= s.len(),
        valid_utf8(s.subrange(pos + 1, pos + 1 + s[pos])),
    ensures
        spec_read_key_string(s, pos) == (Ok::<Seq<char>, RdbError>(decode_utf8(s.subrange(pos + 1, pos + 1 + s[pos]))), pos + 1 + s[pos]),
{
}

/// Law: a key with an integer encoding is the decimal text of the signed
/// big-endian value of all its bytes: one byte after `0xC0`, two after
/// `0xC1`, four after `0xC2`.
pub proof fn law_integer_keys(s: Seq<u8>, pos: int)
    requires
        0 <= pos < s.len(),
    ensures
        s[pos] == 0xC0 && pos + 1 < s.len() ==> spec_read_key_string(s, pos) == (Ok::<Seq<char>, RdbError>(decimal(as_i8(s[pos + 1]))), pos + 2),
        s[pos] == 0xC1 && pos + 2 < s.len() ==> spec_read_key_string(s, pos) == (Ok::<Seq<char>, RdbError>(decimal(as_i16(s[pos + 1], s[pos + 2]))), pos + 3),
        s[pos] == 0xC2 && pos + 4 < s.len() ==> spec_read_key_string(s, pos) == (Ok::<Seq<char>, RdbError>(decimal(as_i32(s[pos + 1], s[pos + 2], s[pos + 3], s[pos + 4]))), pos + 5),
{
    if s[pos] == 0xC0 && pos + 1 < s.len() {
        lemma_be1(s.subrange(pos + 1, pos + 2));
    }
    if s[pos] == 0xC1 && pos + 2 < s.len() {
        lemma_be2(s.subrange(pos + 1, pos + 3));
    }
    if s[pos] == 0xC2 && pos + 4 < s.len() {
        lemma_be4(s.subrange(pos + 1, pos + 5));
    }
}

/// Law: after its key, a string pair whose value is `0xC0 b` holds the
/// decimal text of the byte `b` read unsigned, with size 1, type `String`
/// and no expiry, and ends after `b`.
pub proof fn law_int8_value(s: Seq<u8>, pos: int)
    requires
        0 <= pos,
        spec_read_key_string(s, pos).0 is Ok,
        spec_read_key_string(s, pos).1 + 1 < s.len(),
        s[spec_read_key_string(s, pos).1] == 0xC0,
    ensures
        ({
            let key = spec_read_key_string(s, pos).0->Ok_0;
            let k = spec_read_key_string(s, pos).1;
            spec_parse_string(s, pos) == (
                Ok::<PairModel, RdbError>(PairModel { key_name: key, val: decimal(s[k + 1] as int), val_type: "String"@, size: 1, expiry: None }),
                k + 2)
        }),
{
    reveal(spec_parse_string);
    let k = spec_read_key_string(s, pos).1;
    lemma_be1(s.subrange(k + 1, k + 2));
}

/// Law: after its key, a string pair whose value is `0xC1 b0 b1` holds the
/// decimal text of the signed big-endian value of both bytes, with size 2,
/// type `String` and no expiry, and ends after `b1`.
pub proof fn law_int16_value(s: Seq<u8>, pos: int)
    requires
        0 <= pos,
        spec_read_key_string(s, pos).0 is Ok,
        spec_read_key_string(s, pos).1 + 2 < s.len(),
        s[spec_read_key_string(s, pos).1] == 0xC1,
    ensures
        ({
            let key = spec_read_key_string(s, pos).0->Ok_0;
            let k = spec_read_key_string(s, pos).1;
            spec_parse_string(s, pos) == (
                Ok::<PairModel, RdbError>(PairModel { key_name: key, val: decimal(as_i16(s[k + 1], s[k + 2])), val_type: "String"@, size: 2, expiry: None }),
                k + 3)
        }),
{
    reveal(spec_parse_string);
    let k = spec_read_key_string(s, pos).1;
    lemma_be2(s.subrange(k + 1, k + 3));
}

/// Law: after its key, a string pair whose value is `0xC2 b0 b1 b2 b3`
/// holds the decimal text of the signed big-endian value of all four bytes,
/// with size 4, type `String` and no expiry, and ends after `b3`.
pub proof fn law_int32_value(s: Seq<u8>, pos: int)
    requires
        0 <= pos,
        spec_read_key_string(s, pos).0 is Ok,
        spec_read_key_string(s, pos).1 + 4 < s.len(),
        s[spec_read_key_string(s, pos).1] == 0xC2,
    ensures
        ({
            let key = spec_read_key_string(s, pos).0->Ok_0;
            let k = spec_read_key_string(s, pos).1;
            spec_parse_string(s, pos) == (
                Ok::<PairModel, RdbError>(PairModel { key_name: key, val: decimal(as_i32(s[k + 1], s[k + 2], s[k + 3], s[k + 4])), val_type: "String"@, size: 4, expiry: None }),
                k + 5)
        }),
{
    reveal(spec_parse_string);
    let k = spec_read_key_string(s, pos).1;
    lemma_be4(s.subrange(k + 1, k + 5));
}

/// Law: the value-type byte alone decides what kind of pair is read. Type 0
/// is a string pair read from the next byte on; types 1 to 4 give a blank
/// pair with an empty type; every type above 4 gives a blank pair of type
/// `Unknown`. The last two read nothing after the type byte and never fail.
pub proof fn law_pair_by_type(s: Seq<u8>, pos: int)
    requires
        0 <= pos < s.len(),
    ensures
        s[pos] == 0 ==> spec_parse_pair(s, pos) == spec_parse_string(s, pos + 1),
        1 <= s[pos] <= 4 ==> spec_parse_pair(s, pos) == (
            Ok::<PairModel, RdbError>(PairModel { key_name: Seq::empty(), val: Seq::empty(), val_type: Seq::empty(), size: 0, expiry: None }),
            pos + 1),
        s[pos] > 4 ==> spec_parse_pair(s, pos) == (
            Ok::<PairModel, RdbError>(PairModel { key_name: Seq::empty(), val: Seq::empty(), val_type: "Unknown"@, size: 0, expiry: None }),
            pos + 1),
{
}

} // verus!
