//! Key/value pairs of a database section and the string encodings they use.
use vstd::prelude::*;
use vstd::utf8::{decode_utf8, valid_utf8};
use crate::cursor::{spec_read_bytes, spec_read_u8, Cursor};
use crate::data_type::{HASH_ENCODING, LIST_ENCODING, SET_ENCODING, STRING_ENCODING, ZSET_ENCODING};
use crate::error::{result_view, RdbError};
use crate::parser::Parser;
use crate::num::{be_int, be_signed, be_uint, be_value, decimal, decimal_string, push_digits};
use crate::rdb_string::{parse_string, spec_parse_string};
use crate::text::string_from_utf8;
use crate::trace::{events_view, push_event, EventModel, ParseEvent};

verus! {

/// A key with its value, as read from a database section.
#[derive(Debug)]
pub struct Pair {
    pub key_name: String,
    pub val: String,
    pub val_type: String,
    pub size: usize,
    pub expiry: Option<u64>,
}

/// The content of a [`Pair`], its strings taken as character sequences.
pub struct PairModel {
    pub key_name: Seq<char>,
    pub val: Seq<char>,
    pub val_type: Seq<char>,
    pub size: usize,
    pub expiry: Option<u64>,
}

impl View for Pair {
    type V = PairModel;

    open spec fn view(&self) -> PairModel {
        PairModel {
            key_name: self.key_name@,
            val: self.val@,
            val_type: self.val_type@,
            size: self.size,
            expiry: self.expiry,
        }
    }
}

/// A pair with every string empty, size zero and no expiry, but for the
/// value type `val_type`.
pub open spec fn blank_pair(val_type: Seq<char>) -> PairModel {
    PairModel { key_name: Seq::empty(), val: Seq::empty(), val_type, size: 0, expiry: None }
}

/// The string encoding at `pos`: a pair (encoding, length) and the position
/// after it.
///
/// The two top bits of the first byte select the form: `00` gives a length
/// in the low six bits, `01` a length in the low six bits and the next byte,
/// `10` a length in the next four bytes, big-endian; each with encoding 0,
/// a plain string of that length. `11` selects by the low six bits a special
/// encoding: 0, 1 and 2 an integer of 1, 2 and 4 bytes (encodings 1, 2, 3),
/// 3 a compressed string (encoding 4, length 0); any other value is an error.
pub open spec fn spec_read_string_encoding(s: Seq<u8>, pos: int) -> (Result<(u8, usize), RdbError>, int) {
    let (r, p1) = spec_read_u8(s, pos);
    match r {
        Err(e) => (Err(e), p1),
        Ok(first) => {
            let low = first % 64;
            if first < 64 {
                (Ok((0u8, low as usize)), p1)
            } else if first < 128 {
                let (r2, p2) = spec_read_u8(s, p1);
                match r2 {
                    Err(e) => (Err(e), p2),
                    Ok(second) => (Ok((0u8, (low * 256 + second) as usize)), p2),
                }
            } else if first < 192 {
                let (r2, p2) = spec_read_bytes(s, p1, 4);
                match r2 {
                    Err(e) => (Err(e), p2),
                    Ok(b) => (Ok((0u8, be_value(b) as usize)), p2),
                }
            } else if low == 0 {
                (Ok((1u8, 1usize)), p1)
            } else if low == 1 {
                (Ok((2u8, 2usize)), p1)
            } else if low == 2 {
                (Ok((3u8, 4usize)), p1)
            } else if low == 3 {
                (Ok((4u8, 0usize)), p1)
            } else {
                (Err(RdbError::InvalidStringEncoding), p1)
            }
        },
    }
}

/// The string-encoding reader never moves back nor past the end; on success
/// it has moved forward.
pub proof fn lemma_read_string_encoding_advances(s: Seq<u8>, pos: int)
    requires
        0 <= pos <= s.len(),
    ensures
        pos <= spec_read_string_encoding(s, pos).1 <= s.len(),
        spec_read_string_encoding(s, pos).0 is Ok ==> pos < spec_read_string_encoding(s, pos).1,
{
}

/// The key reader never moves back nor past the end; on success it has
/// moved forward.
pub proof fn lemma_read_key_string_advances(s: Seq<u8>, pos: int)
    requires
        0 <= pos <= s.len(),
    ensures
        pos <= spec_read_key_string(s, pos).1 <= s.len(),
        spec_read_key_string(s, pos).0 is Ok ==> pos < spec_read_key_string(s, pos).1,
{
    lemma_read_string_encoding_advances(s, pos);
    let p1 = spec_read_string_encoding(s, pos).1;
    lemma_read_string_encoding_advances(s, p1);
    let pc = spec_read_length(s, p1).1;
    lemma_read_string_encoding_advances(s, pc);
}

/// Reads a string encoding: which kind of string follows and its length.
pub fn read_string_encoding(cursor: &mut Cursor) -> (res: Result<(u8, usize), RdbError>)
    ensures
        final(cursor).bytes() == old(cursor).bytes(),
        (res, final(cursor).pos()) == spec_read_string_encoding(old(cursor).bytes(), old(cursor).pos()),
        final(cursor).pos() <= final(cursor).bytes().len(),
        old(cursor).pos() <= old(cursor).bytes().len() ==> old(cursor).pos() <= final(cursor).pos(),
        res is Ok ==> old(cursor).pos() < final(cursor).pos(),
{
    let first = cursor.read_u8()?;
    let low = first % 64;
    if first < 64 {
        Ok((0, low as usize))
    } else if first < 128 {
        let second = cursor.read_u8()?;
        Ok((0, (low as usize) * 256 + second as usize))
    } else if first < 192 {
        let b = cursor.read_bytes(4)?;
        let v = be_uint(b);
        Ok((0, v as usize))
    } else if low == 0 {
        Ok((1, 1))
    } else if low == 1 {
        Ok((2, 2))
    } else if low == 2 {
        Ok((3, 4))
    } else if low == 3 {
        Ok((4, 0))
    } else {
        Err(RdbError::InvalidStringEncoding)
    }
}

/// The length part of the string encoding at `pos`.
pub open spec fn spec_read_length(s: Seq<u8>, pos: int) -> (Result<usize, RdbError>, int) {
    let (r, p1) = spec_read_string_encoding(s, pos);
    match r {
        Err(e) => (Err(e), p1),
        Ok((_, length)) => (Ok(length), p1),
    }
}

/// Reads a string encoding and keeps its length.
pub fn read_length(cursor: &mut Cursor) -> (res: Result<usize, RdbError>)
    ensures
        final(cursor).bytes() == old(cursor).bytes(),
        (res, final(cursor).pos()) == spec_read_length(old(cursor).bytes(), old(cursor).pos()),
        final(cursor).pos() <= final(cursor).bytes().len(),
        old(cursor).pos() <= old(cursor).bytes().len() ==> old(cursor).pos() <= final(cursor).pos(),
        res is Ok ==> old(cursor).pos() < final(cursor).pos(),
{
    let (_, length) = read_string_encoding(cursor)?;
    Ok(length)
}

/// The text that stands for a compressed string of `clen` bytes that
/// expands to `ulen` bytes.
pub open spec fn compressed_text(clen: int, ulen: int) -> Seq<char> {
    "Compressed string (compressed: "@ + decimal(clen) + ", uncompressed: "@ + decimal(ulen) + ")"@
}

/// The key string at `pos` and the position after it.
///
/// A plain string is its bytes decoded as UTF-8 (an error where they are
/// not); an integer encoding gives the decimal text of the signed big-endian
/// integer; a compressed string is skipped (two lengths, then the compressed
/// bytes) and gives a text that states both lengths.
pub open spec fn spec_read_key_string(s: Seq<u8>, pos: int) -> (Result<Seq<char>, RdbError>, int) {
    let (r, p1) = spec_read_string_encoding(s, pos);
    match r {
        Err(e) => (Err(e), p1),
        Ok((encoding, length)) => {
            if encoding == 0 {
                let (r2, p2) = spec_read_bytes(s, p1, length as int);
                match r2 {
                    Err(e) => (Err(e), p2),
                    Ok(b) => if valid_utf8(b) {
                        (Ok(decode_utf8(b)), p2)
                    } else {
                        (Err(RdbError::InvalidUtf8), p2)
                    },
                }
            } else if encoding <= 3 {
                let (r2, p2) = spec_read_bytes(s, p1, length as int);
                match r2 {
                    Err(e) => (Err(e), p2),
                    Ok(b) => (Ok(decimal(be_signed(b))), p2),
                }
            } else {
                let (rc, pc) = spec_read_length(s, p1);
                match rc {
                    Err(e) => (Err(e), pc),
                    Ok(clen) => {
                        let (ru, pu) = spec_read_length(s, pc);
                        match ru {
                            Err(e) => (Err(e), pu),
                            Ok(ulen) => {
                                let (rb, pb) = spec_read_bytes(s, pu, clen as int);
                                match rb {
                                    Err(e) => (Err(e), pb),
                                    Ok(_) => (Ok(compressed_text(clen as int, ulen as int)), pb),
                                }
                            },
                        }
                    },
                }
            }
        },
    }
}

/// Reads a key: a string in any of the string encodings.
pub fn read_key_string(cursor: &mut Cursor) -> (res: Result<String, RdbError>)
    ensures
        final(cursor).bytes() == old(cursor).bytes(),
        (result_view(res), final(cursor).pos()) == spec_read_key_string(old(cursor).bytes(), old(cursor).pos()),
        final(cursor).pos() <= final(cursor).bytes().len(),
        old(cursor).pos() <= old(cursor).bytes().len() ==> old(cursor).pos() <= final(cursor).pos(),
        res is Ok ==> old(cursor).pos() < final(cursor).pos(),
{
    let (encoding, length) = read_string_encoding(cursor)?;
    if encoding == 0 {
        let b = cursor.read_bytes(length)?;
        match string_from_utf8(b) {
            Some(text) => Ok(text),
            None => Err(RdbError::InvalidUtf8),
        }
    } else if encoding <= 3 {
        let b = cursor.read_bytes(length)?;
        Ok(decimal_string(be_int(b)))
    } else {
        let clen = read_length(cursor)?;
        let ulen = read_length(cursor)?;
        let _compressed = cursor.read_bytes(clen)?;
        proof {
            reveal_strlit("Compressed string (compressed: ");
            reveal_strlit(", uncompressed: ");
            reveal_strlit(")");
        }
        let mut text = String::from_str("Compressed string (compressed: ");
        push_digits(&mut text, clen as u64);
        text.append(", uncompressed: ");
        push_digits(&mut text, ulen as u64);
        text.append(")");
        assert(text@ =~= compressed_text(clen as int, ulen as int));
        Ok(text)
    }
}

/// The value-type byte at `pos`.
pub open spec fn spec_parse_val_type(s: Seq<u8>, pos: int) -> (Result<u8, RdbError>, int) {
    spec_read_u8(s, pos)
}

/// Reads the value-type byte that precedes a key.
pub fn parse_val_type(cursor: &mut Cursor) -> (res: Result<u8, RdbError>)
    ensures
        final(cursor).bytes() == old(cursor).bytes(),
        (res, final(cursor).pos()) == spec_parse_val_type(old(cursor).bytes(), old(cursor).pos()),
        final(cursor).pos() <= final(cursor).bytes().len(),
        old(cursor).pos() <= old(cursor).bytes().len() ==> old(cursor).pos() <= final(cursor).pos(),
        res is Ok ==> final(cursor).pos() == old(cursor).pos() + 1,
{
    cursor.read_u8()
}

/// The pair at `pos` and the position after it: a value-type byte, then for
/// a string value its key and value; the other types of the first five are
/// not read further and give a blank pair; any other type byte gives a blank
/// pair of type `Unknown`.
pub open spec fn spec_parse_pair(s: Seq<u8>, pos: int) -> (Result<PairModel, RdbError>, int) {
    let (r, p1) = spec_parse_val_type(s, pos);
    match r {
        Err(e) => (Err(e), p1),
        Ok(t) => if t == STRING_ENCODING {
            spec_parse_string(s, p1)
        } else if t <= HASH_ENCODING {
            (Ok(blank_pair(Seq::empty())), p1)
        } else {
            (Ok(blank_pair("Unknown"@)), p1)
        },
    }
}

/// The notices of the pair at `pos`: the value type, where it is one of
/// the collection types whose value is not read.
pub open spec fn spec_pair_events(s: Seq<u8>, pos: int) -> Seq<EventModel> {
    match spec_parse_val_type(s, pos).0 {
        Ok(t) => if LIST_ENCODING <= t <= HASH_ENCODING {
            seq![EventModel::CollectionType(t)]
        } else {
            Seq::empty()
        },
        Err(_) => Seq::empty(),
    }
}

/// Reads a pair as [`Pair::parse`] does, and appends its notices to `events`.
pub fn parse_pair_with_events(cursor: &mut Cursor, events: &mut Vec<ParseEvent>) -> (res: Result<Pair, RdbError>)
    ensures
        final(cursor).bytes() == old(cursor).bytes(),
        (result_view(res), final(cursor).pos()) == spec_parse_pair(old(cursor).bytes(), old(cursor).pos()),
        final(cursor).pos() <= final(cursor).bytes().len(),
        old(cursor).pos() <= old(cursor).bytes().len() ==> old(cursor).pos() <= final(cursor).pos(),
        res is Ok ==> old(cursor).pos() < final(cursor).pos(),
        events_view(final(events)@) == events_view(old(events)@) + spec_pair_events(old(cursor).bytes(), old(cursor).pos()),
{
    let val_type = match parse_val_type(cursor) {
        Ok(t) => t,
        Err(e) => {
            assert(events_view(events@) =~= events_view(old(events)@) + Seq::<EventModel>::empty());
            return Err(e);
        },
    };
    if val_type == STRING_ENCODING {
        assert(events_view(events@) =~= events_view(old(events)@) + Seq::<EventModel>::empty());
        parse_string(cursor)
    } else if val_type == LIST_ENCODING || val_type == SET_ENCODING || val_type == ZSET_ENCODING
        || val_type == HASH_ENCODING {
        push_event(events, ParseEvent::CollectionType(val_type));
        assert(events_view(events@) =~= events_view(old(events)@) + seq![EventModel::CollectionType(val_type)]);
        Ok(Pair {
            key_name: String::new(),
            val: String::new(),
            val_type: String::new(),
            size: 0,
            expiry: None,
        })
    } else {
        assert(events_view(events@) =~= events_view(old(events)@) + Seq::<EventModel>::empty());
        proof { reveal_strlit("Unknown"); }
        Ok(Pair {
            key_name: String::new(),
            val: String::new(),
            val_type: String::from_str("Unknown"),
            size: 0,
            expiry: None,
        })
    }
}

impl Parser for Pair {
    /// Reads a pair: its value type, then for a string value its key and value.
    fn parse(cursor: &mut Cursor) -> (res: Result<Pair, RdbError>)
        ensures
            final(cursor).bytes() == old(cursor).bytes(),
            (result_view(res), final(cursor).pos()) == spec_parse_pair(old(cursor).bytes(), old(cursor).pos()),
            final(cursor).pos() <= final(cursor).bytes().len(),
            old(cursor).pos() <= old(cursor).bytes().len() ==> old(cursor).pos() <= final(cursor).pos(),
            res is Ok ==> old(cursor).pos() < final(cursor).pos(),
    {
        let mut events: Vec<ParseEvent> = Vec::new();
        parse_pair_with_events(cursor, &mut events)
    }
}

} // verus!
