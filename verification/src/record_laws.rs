//! What the header, the auxiliary fields, plain and compressed strings and
//! database sections hold, stated byte by byte over the input.
use vstd::prelude::*;
use vstd::utf8::{decode_utf8, valid_utf8};
use crate::base_info::{spec_parse_aux_info, spec_parse_base_info, AuxInfoModel, BaseInfoModel};
use crate::db::{spec_db_body, spec_db_events, spec_parse_db_info, spec_parse_fb, spec_rdb_load_len, DbInfo, ResizeDbInfo};
use crate::error::RdbError;
use crate::num::{decimal, spec_parse_usize};
use crate::pair::{spec_pair_events, spec_parse_pair, spec_read_key_string, PairModel};
use crate::trace::EventModel;
use crate::rdb_flag::{FB, FE};
use crate::rdb_string::spec_parse_string;

verus! {

/// Law: the header is the UTF-8 text of the first five bytes (the magic)
/// and of the next four (the version), and ends after nine bytes; a buffer
/// of fewer than nine bytes has no header.
pub proof fn law_header(s: Seq<u8>)
    ensures
        s.len() < 9 ==> spec_parse_base_info(s, 0) == (Err::<BaseInfoModel, RdbError>(RdbError::HeaderTooShort), 0int),
        s.len() >= 9 && valid_utf8(s.subrange(0, 5)) && valid_utf8(s.subrange(5, 9)) ==> spec_parse_base_info(s, 0) == (
            Ok::<BaseInfoModel, RdbError>(BaseInfoModel { magic: decode_utf8(s.subrange(0, 5)), rdb_version: decode_utf8(s.subrange(5, 9)) }),
            9int),
        s.len() >= 9 && !valid_utf8(s.subrange(0, 5)) ==> spec_parse_base_info(s, 0).0 == Err::<BaseInfoModel, RdbError>(RdbError::InvalidMagic),
        s.len() >= 9 && valid_utf8(s.subrange(0, 5)) && !valid_utf8(s.subrange(5, 9)) ==> spec_parse_base_info(s, 0).0 == Err::<BaseInfoModel, RdbError>(RdbError::InvalidVersion),
{
}

/// Law: an auxiliary field is a name of `n <= 127` raw-length-prefixed UTF-8
/// bytes and a value of `m <= 127` such bytes. A `redis-ver` field gives the
/// value as the server version; a `used-mem` field gives the decimal value
/// of the text as the memory figure, 0 where it is not a decimal `usize`;
/// any other name gives nothing. The field ends after the value.
pub proof fn law_aux_record(s: Seq<u8>, pos: int)
    requires
        0 <= pos < s.len(),
        s[pos] <= 127,
        pos + 1 + s[pos] < s.len(),
        valid_utf8(s.subrange(pos + 1, pos + 1 + s[pos])),
        s[pos + 1 + s[pos]] <= 127,
        pos + 2 + s[pos] + s[pos + 1 + s[pos]] <= s.len(),
        valid_utf8(s.subrange(pos + 2 + s[pos], pos + 2 + s[pos] + s[pos + 1 + s[pos]])),
    ensures
        ({
            let name = decode_utf8(s.subrange(pos + 1, pos + 1 + s[pos]));
            let value = decode_utf8(s.subrange(pos + 2 + s[pos], pos + 2 + s[pos] + s[pos + 1 + s[pos]]));
            let end = pos + 2 + s[pos] + s[pos + 1 + s[pos]];
            &&& name == "redis-ver"@ ==> spec_parse_aux_info(s, pos) == (
                Ok::<AuxInfoModel, RdbError>(AuxInfoModel { redis_server_version: value, used_mem: 0 }), end)
            &&& name == "used-mem"@ ==> spec_parse_aux_info(s, pos) == (
                Ok::<AuxInfoModel, RdbError>(AuxInfoModel {
                    redis_server_version: Seq::empty(),
                    used_mem: match spec_parse_usize(value) { Some(n) => n, None => 0 },
                }), end)
            &&& name != "redis-ver"@ && name != "used-mem"@ ==> spec_parse_aux_info(s, pos) == (
                Ok::<AuxInfoModel, RdbError>(AuxInfoModel { redis_server_version: Seq::empty(), used_mem: 0 }), end)
        }),
{
    reveal_strlit("used-mem");
    reveal_strlit("redis-ver");
    assert("used-mem"@.len() != "redis-ver"@.len());
}

/// Law: an auxiliary field whose value length byte is above 127 has the
/// empty value, and ends right after that byte.
pub proof fn law_aux_high_value_length(s: Seq<u8>, pos: int)
    requires
        0 <= pos < s.len(),
        s[pos] <= 127,
        pos + 1 + s[pos] < s.len(),
        valid_utf8(s.subrange(pos + 1, pos + 1 + s[pos])),
        s[pos + 1 + s[pos]] > 127,
    ensures
        decode_utf8(s.subrange(pos + 1, pos + 1 + s[pos])) == "redis-ver"@ ==> spec_parse_aux_info(s, pos) == (
            Ok::<AuxInfoModel, RdbError>(AuxInfoModel { redis_server_version: Seq::empty(), used_mem: 0 }), pos + 2 + s[pos]),
        spec_parse_aux_info(s, pos).1 == pos + 2 + s[pos],
        spec_parse_aux_info(s, pos).0 matches Ok(a) && a.redis_server_version.len() == 0 && a.used_mem == 0,
{
}

/// Law: a key that is a compressed string (`0xC3`, then two six-bit lengths
/// `c` and `u`, then `c` bytes) reads as a text that states both lengths,
/// and ends after the `c` bytes.
pub proof fn law_compressed_key(s: Seq<u8>, pos: int)
    requires
        0 <= pos,
        pos + 2 < s.len(),
        s[pos] == 0xC3,
        s[pos + 1] < 64,
        s[pos + 2] < 64,
        pos + 3 + s[pos + 1] <= s.len(),
    ensures
        spec_read_key_string(s, pos) == (
            Ok::<Seq<char>, RdbError>("Compressed string (compressed: "@ + decimal(s[pos + 1] as int) + ", uncompressed: "@ + decimal(s[pos + 2] as int) + ")"@),
            pos + 3 + s[pos + 1]),
{
}

/// Law: after its key, a string pair whose value has a six-bit length `n`
/// holds the UTF-8 text of the `n` bytes after it where they are valid, with
/// size `n`, type `String` and no expiry; a compressed value (`0xC3`) is not
/// read and gives an empty value of size 0, the pair ending after `0xC3`.
pub proof fn law_short_plain_and_compressed_values(s: Seq<u8>, pos: int)
    requires
        0 <= pos,
        spec_read_key_string(s, pos).0 is Ok,
        spec_read_key_string(s, pos).1 < s.len(),
    ensures
        ({
            let key = spec_read_key_string(s, pos).0->Ok_0;
            let k = spec_read_key_string(s, pos).1;
            let n = s[k];
            &&& n < 64 && k + 1 + n <= s.len() && valid_utf8(s.subrange(k + 1, k + 1 + n)) ==> spec_parse_string(s, pos) == (
                Ok::<PairModel, RdbError>(PairModel { key_name: key, val: decode_utf8(s.subrange(k + 1, k + 1 + n)), val_type: "String"@, size: n as usize, expiry: None }),
                k + 1 + n)
            &&& n == 0xC3 ==> spec_parse_string(s, pos) == (
                Ok::<PairModel, RdbError>(PairModel { key_name: key, val: Seq::empty(), val_type: "String"@, size: 0, expiry: None }),
                k + 1)
        }),
{
    reveal(spec_parse_string);
}

/// Law: a database section is its number byte, then a body that the next
/// database-selection opcode ends; a selection opcode right after the
/// number gives an empty section of two bytes.
pub proof fn law_db_section_number(s: Seq<u8>, pos: int)
    requires
        0 <= pos,
        pos + 1 < s.len(),
        s[pos + 1] == FE,
    ensures
        spec_parse_db_info(s, pos) == (Ok::<DbInfo, RdbError>(DbInfo { db_id: s[pos] }), pos + 2),
        spec_db_body(s, pos + 1) == (Ok::<(), RdbError>(()), pos + 2),
{
}

/// Law: the table sizes are two lengths, each kept to its low eight bits.
pub proof fn law_table_sizes(s: Seq<u8>, pos: int)
    requires
        spec_rdb_load_len(s, pos).0 is Ok,
        spec_rdb_load_len(s, spec_rdb_load_len(s, pos).1).0 is Ok,
    ensures
        ({
            let (a, p) = spec_rdb_load_len(s, pos);
            let (b, q) = spec_rdb_load_len(s, p);
            spec_parse_fb(s, pos) == (
                Ok::<ResizeDbInfo, RdbError>(ResizeDbInfo { total_db_key: (a->Ok_0 % 256) as u8, total_expire_key: (b->Ok_0 % 256) as u8 }),
                q)
        }),
{
}

/// Law: in a database section, a table-size opcode is followed by the two
/// sizes and one pair: where the pair reads, the section goes on after it,
/// and its notices are the sizes, those of the pair and the pair itself;
/// where the pair fails, the section fails with that error.
pub proof fn law_table_size_record(s: Seq<u8>, pos: int)
    requires
        0 <= pos < s.len(),
        s[pos] == FB,
    ensures
        ({
            let (rf, p2) = spec_parse_fb(s, pos + 1);
            let (rp, p3) = spec_parse_pair(s, p2);
            &&& rp is Err ==> spec_db_body(s, pos) == (Err::<(), RdbError>(rp->Err_0), p3)
            &&& rp is Ok ==> spec_db_body(s, pos) == spec_db_body(s, p3)
            &&& rp is Ok ==> spec_db_events(s, pos) == seq![EventModel::TableSizes(rf)] + spec_pair_events(s, p2)
                + seq![EventModel::ParsedPair(rp->Ok_0)] + spec_db_events(s, p3)
        }),
{
    let (rf, p2) = spec_parse_fb(s, pos + 1);
    let (rp, p3) = spec_parse_pair(s, p2);
    if rp is Ok {
        let head = seq![EventModel::TableSizes(rf)] + spec_pair_events(s, p2);
        assert(head.push(EventModel::ParsedPair(rp->Ok_0)) =~= head + seq![EventModel::ParsedPair(rp->Ok_0)]);
    }
}

} // verus!
