//! String values of a database section.
use vstd::prelude::*;
use vstd::utf8::{decode_utf8, valid_utf8};
use crate::cursor::{spec_read_bytes, Cursor};
use crate::error::{result_view, RdbError};
use crate::num::{be_int, be_signed, decimal, decimal_string};
use crate::pair::{
    read_key_string, read_string_encoding, spec_read_key_string,
    spec_read_string_encoding, Pair, PairModel, lemma_read_key_string_advances,
    lemma_read_string_encoding_advances,
};
use crate::text::{string_from_utf8_lossy, utf8_lossy};

verus! {

/// A string pair with key `key`, value `val` and size `size`.
pub open spec fn string_pair(key: Seq<char>, val: Seq<char>, size: usize) -> PairModel {
    PairModel { key_name: key, val, val_type: "String"@, size, expiry: None }
}

/// The string pair at `pos` (after its type byte) and the position after it.
///
/// The key is read as [`spec_read_key_string`] says; then the value's string
/// encoding. A plain value is its bytes decoded as UTF-8 where they are
/// valid, and otherwise what `String::from_utf8_lossy` makes of them;
/// an 8-bit integer gives the decimal text of the byte, unsigned; 16- and
/// 32-bit integers the decimal text of the signed big-endian value. The size
/// is the length of the encoding. A compressed value is not read, and gives
/// an empty value of size 0.
#[verifier::opaque]
pub open spec fn spec_parse_string(s: Seq<u8>, pos: int) -> (Result<PairModel, RdbError>, int) {
    let (rk, pk) = spec_read_key_string(s, pos);
    match rk {
        Err(e) => (Err(e), pk),
        Ok(key) => {
            let (re, pe) = spec_read_string_encoding(s, pk);
            match re {
                Err(e) => (Err(e), pe),
                Ok((encoding, length)) => {
                    if encoding > 3 {
                        (Ok(string_pair(key, Seq::empty(), 0)), pe)
                    } else {
                        let (rb, pb) = spec_read_bytes(s, pe, length as int);
                        match rb {
                            Err(e) => (Err(e), pb),
                            Ok(b) => {
                                let val = if encoding == 0 {
                                    if valid_utf8(b) {
                                        decode_utf8(b)
                                    } else {
                                        utf8_lossy(b)
                                    }
                                } else if encoding == 1 {
                                    decimal(b[0] as int)
                                } else {
                                    decimal(be_signed(b))
                                };
                                (Ok(string_pair(key, val, length)), pb)
                            },
                        }
                    }
                },
            }
        },
    }
}

/// Reads a string pair, the type byte already read: its key, then its value.
pub fn parse_string(cursor: &mut Cursor) -> (res: Result<Pair, RdbError>)
    ensures
        final(cursor).bytes() == old(cursor).bytes(),
        (result_view(res), final(cursor).pos()) == spec_parse_string(old(cursor).bytes(), old(cursor).pos()),
        final(cursor).pos() <= final(cursor).bytes().len(),
        old(cursor).pos() <= old(cursor).bytes().len() ==> old(cursor).pos() <= final(cursor).pos(),
        res is Ok ==> old(cursor).pos() < final(cursor).pos(),
{
    reveal(spec_parse_string);
    let key = read_key_string(cursor)?;
    let (encoding, length) = read_string_encoding(cursor)?;
    proof { reveal_strlit("String"); }
    if encoding > 3 {
        return Ok(Pair {
            key_name: key,
            val: String::new(),
            val_type: String::from_str("String"),
            size: 0,
            expiry: None,
        });
    }
    let b = cursor.read_bytes(length)?;
    let value = if encoding == 0 {
        string_from_utf8_lossy(b)
    } else if encoding == 1 {
        decimal_string(b[0] as i64)
    } else {
        decimal_string(be_int(b))
    };
    Ok(Pair {
        key_name: key,
        val: value,
        val_type: String::from_str("String"),
        size: length,
        expiry: None,
    })
}

/// The string-pair reader never moves back nor past the end; on success it
/// has moved forward.
pub proof fn lemma_parse_string_advances(s: Seq<u8>, pos: int)
    requires
        0 <= pos <= s.len(),
    ensures
        pos <= spec_parse_string(s, pos).1 <= s.len(),
        spec_parse_string(s, pos).0 is Ok ==> pos < spec_parse_string(s, pos).1,
{
    reveal(spec_parse_string);
    lemma_read_key_string_advances(s, pos);
    let pk = spec_read_key_string(s, pos).1;
    lemma_read_string_encoding_advances(s, pk);
}

} // verus!
