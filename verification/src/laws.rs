//! Properties of the parsers as a whole.
use vstd::prelude::*;
use crate::base_info::{
    aux_field, lemma_parse_aux_info_advances, spec_parse_aux_info, spec_parse_base_info,
    spec_parser_aux_name, AuxInfoModel, BaseInfoModel,
};
use crate::db::{lemma_parse_db_info_advances, spec_db_body, spec_parse_db_info};
use crate::error::RdbError;
use crate::parser::{merge_aux, no_aux, spec_file_events, spec_parse_rdb, spec_sections};
use crate::trace::EventModel;
use crate::rdb_flag::{FA, FB, FC, FD, FE, FF};
use crate::num::{decimal, law_decimal_roundtrip};
use crate::cursor::{spec_read_bytes, spec_read_u8};
use crate::db::spec_rdb_load_len;
use crate::pair::{
    lemma_read_key_string_advances, lemma_read_string_encoding_advances, spec_parse_pair,
    spec_read_key_string, spec_read_length, spec_read_string_encoding,
};
use crate::rdb_string::{lemma_parse_string_advances, spec_parse_string};

verus! {

/// `s1` and `s2` both reach `hi` and hold the same bytes from `lo` up to `hi`.
pub open spec fn same_bytes(s1: Seq<u8>, s2: Seq<u8>, lo: int, hi: int) -> bool {
    &&& 0 <= lo
    &&& hi <= s1.len()
    &&& hi <= s2.len()
    &&& forall|i: int| lo <= i < hi ==> s1[i] == s2[i]
}

proof fn lemma_read_u8_local(s1: Seq<u8>, s2: Seq<u8>, pos: int)
    requires
        spec_read_u8(s1, pos).0 is Ok,
        same_bytes(s1, s2, pos, pos + 1),
    ensures
        spec_read_u8(s2, pos) == spec_read_u8(s1, pos),
{
}

proof fn lemma_read_bytes_local(s1: Seq<u8>, s2: Seq<u8>, pos: int, n: int)
    requires
        spec_read_bytes(s1, pos, n).0 is Ok,
        same_bytes(s1, s2, pos, pos + n),
    ensures
        spec_read_bytes(s2, pos, n) == spec_read_bytes(s1, pos, n),
{
    assert(s1.subrange(pos, pos + n) =~= s2.subrange(pos, pos + n));
}

/// Law: a string encoding that reads from `s1` reads the same from any
/// buffer that holds the same bytes where it was read.
pub proof fn law_string_encoding_reads_only_its_bytes(s1: Seq<u8>, s2: Seq<u8>, pos: int)
    requires
        spec_read_string_encoding(s1, pos).0 is Ok,
        same_bytes(s1, s2, pos, spec_read_string_encoding(s1, pos).1),
    ensures
        spec_read_string_encoding(s2, pos) == spec_read_string_encoding(s1, pos),
{
    lemma_read_u8_local(s1, s2, pos);
    let first = s1[pos];
    if 64 <= first < 128 {
        lemma_read_u8_local(s1, s2, pos + 1);
    } else if 128 <= first < 192 {
        lemma_read_bytes_local(s1, s2, pos + 1, 4);
    }
}

/// Law: a table-size length that reads from `s1` reads the same from any
/// buffer that holds the same bytes where it was read.
pub proof fn law_load_len_reads_only_its_bytes(s1: Seq<u8>, s2: Seq<u8>, pos: int)
    requires
        spec_rdb_load_len(s1, pos).0 is Ok,
        same_bytes(s1, s2, pos, spec_rdb_load_len(s1, pos).1),
    ensures
        spec_rdb_load_len(s2, pos) == spec_rdb_load_len(s1, pos),
{
    lemma_read_u8_local(s1, s2, pos);
    let first = s1[pos];
    if 64 <= first < 128 {
        lemma_read_u8_local(s1, s2, pos + 1);
    } else if 128 <= first < 192 {
        lemma_read_bytes_local(s1, s2, pos + 1, 4);
    } else if 192 <= first {
        lemma_read_bytes_local(s1, s2, pos + 1, 8);
    }
}

proof fn lemma_read_length_local(s1: Seq<u8>, s2: Seq<u8>, pos: int)
    requires
        spec_read_length(s1, pos).0 is Ok,
        same_bytes(s1, s2, pos, spec_read_length(s1, pos).1),
    ensures
        spec_read_length(s2, pos) == spec_read_length(s1, pos),
{
    law_string_encoding_reads_only_its_bytes(s1, s2, pos);
}

/// Law: a key that reads from `s1` reads the same from any buffer that
/// holds the same bytes where it was read.
pub proof fn law_key_string_reads_only_its_bytes(s1: Seq<u8>, s2: Seq<u8>, pos: int)
    requires
        spec_read_key_string(s1, pos).0 is Ok,
        same_bytes(s1, s2, pos, spec_read_key_string(s1, pos).1),
    ensures
        spec_read_key_string(s2, pos) == spec_read_key_string(s1, pos),
{
    let end = spec_read_key_string(s1, pos).1;
    lemma_read_string_encoding_advances(s1, pos);
    let (r1, p1) = spec_read_string_encoding(s1, pos);
    law_string_encoding_reads_only_its_bytes(s1, s2, pos);
    let (encoding, length) = r1->Ok_0;
    if encoding <= 3 {
        lemma_read_bytes_local(s1, s2, p1, length as int);
    } else {
        lemma_read_string_encoding_advances(s1, p1);
        let pc = spec_read_length(s1, p1).1;
        lemma_read_string_encoding_advances(s1, pc);
        let pu = spec_read_length(s1, pc).1;
        lemma_read_length_local(s1, s2, p1);
        lemma_read_length_local(s1, s2, pc);
        let clen = spec_read_length(s1, p1).0->Ok_0;
        lemma_read_bytes_local(s1, s2, pu, clen as int);
    }
}

proof fn lemma_parse_string_local(s1: Seq<u8>, s2: Seq<u8>, pos: int)
    requires
        spec_parse_string(s1, pos).0 is Ok,
        same_bytes(s1, s2, pos, spec_parse_string(s1, pos).1),
    ensures
        spec_parse_string(s2, pos) == spec_parse_string(s1, pos),
{
    reveal(spec_parse_string);
    lemma_read_key_string_advances(s1, pos);
    let pk = spec_read_key_string(s1, pos).1;
    law_key_string_reads_only_its_bytes(s1, s2, pos);
    lemma_read_string_encoding_advances(s1, pk);
    law_string_encoding_reads_only_its_bytes(s1, s2, pk);
    let (re, pe) = spec_read_string_encoding(s1, pk);
    let (encoding, length) = re->Ok_0;
    if encoding <= 3 {
        lemma_read_bytes_local(s1, s2, pe, length as int);
    }
}

/// Law: a pair that reads from `s1` reads the same from any buffer that
/// holds the same bytes where it was read: what follows a pair, or how the
/// buffer ends after it, does not change it.
pub proof fn law_pair_reads_only_its_bytes(s1: Seq<u8>, s2: Seq<u8>, pos: int)
    requires
        spec_parse_pair(s1, pos).0 is Ok,
        same_bytes(s1, s2, pos, spec_parse_pair(s1, pos).1),
    ensures
        spec_parse_pair(s2, pos) == spec_parse_pair(s1, pos),
{
    lemma_parse_string_advances(s1, pos + 1);
    lemma_read_u8_local(s1, s2, pos);
    if s1[pos] == 0 {
        assert(spec_parse_pair(s1, pos) == spec_parse_string(s1, pos + 1));
        assert(spec_parse_pair(s2, pos) == spec_parse_string(s2, pos + 1));
        lemma_parse_string_local(s1, s2, pos + 1);
    }
}

/// Law: an auxiliary field that reads from `s1` reads the same from any
/// buffer that holds the same bytes where it was read.
pub proof fn law_aux_field_reads_only_its_bytes(s1: Seq<u8>, s2: Seq<u8>, pos: int)
    requires
        spec_parse_aux_info(s1, pos).0 is Ok,
        same_bytes(s1, s2, pos, spec_parse_aux_info(s1, pos).1),
    ensures
        spec_parse_aux_info(s2, pos) == spec_parse_aux_info(s1, pos),
{
    lemma_read_u8_local(s1, s2, pos);
    let n = s1[pos];
    lemma_read_bytes_local(s1, s2, pos + 1, n as int);
    let pn = spec_parser_aux_name(s1, pos).1;
    lemma_read_u8_local(s1, s2, pn);
    let m = s1[pn];
    if m <= 127 {
        lemma_read_bytes_local(s1, s2, pn + 1, m as int);
    }
}

/// Law: for the one- and two-byte forms (top bits `00` and `01`) the
/// table-size length and the string length read the same value and end at
/// the same place.
pub proof fn law_short_lengths_agree(s: Seq<u8>, pos: int)
    requires
        0 <= pos < s.len(),
        s[pos] < 128,
    ensures
        spec_rdb_load_len(s, pos) == spec_read_length(s, pos),
{
}

/// Law: a `used-mem` field whose value is the decimal text of a memory
/// figure reads back as that figure.
pub proof fn law_used_mem_roundtrip(n: usize)
    ensures
        aux_field("used-mem"@, decimal(n as int)).used_mem == n,
{
    law_decimal_roundtrip(n);
    assert("used-mem"@ != "redis-ver"@) by {
        reveal_strlit("used-mem");
        reveal_strlit("redis-ver");
        assert("used-mem"@.len() != "redis-ver"@.len());
    }
}

/// Law: an expiry opcode (`FC` or `FD`) in a database section reads nothing
/// after itself: the section goes on at the next byte.
pub proof fn law_expiry_opcodes_read_nothing_more(s: Seq<u8>, pos: int)
    requires
        0 <= pos < s.len(),
        s[pos] == FC || s[pos] == FD,
    ensures
        spec_db_body(s, pos) == spec_db_body(s, pos + 1),
{
}

/// The auxiliary fields and the database numbers that the opcode loop of
/// the file meets from `pos` on, each in the order met, up to the end
/// opcode, the end of the buffer or the first record that fails.
pub open spec fn file_records(s: Seq<u8>, pos: int) -> (Seq<AuxInfoModel>, Seq<u8>)
    decreases s.len() - pos,
{
    if !(0 <= pos < s.len()) {
        (Seq::empty(), Seq::empty())
    } else {
        let flag = s[pos];
        if flag == FA {
            match spec_parse_aux_info(s, pos + 1) {
                (Ok(a), p) => {
                    proof { lemma_parse_aux_info_advances(s, pos + 1); }
                    let (auxes, ids) = file_records(s, p);
                    (seq![a] + auxes, ids)
                },
                (Err(_), _) => (Seq::empty(), Seq::empty()),
            }
        } else if flag == FE {
            match spec_parse_db_info(s, pos + 1) {
                (Ok(d), p) => {
                    proof { lemma_parse_db_info_advances(s, pos + 1); }
                    let (auxes, ids) = file_records(s, p);
                    (auxes, seq![d.db_id] + ids)
                },
                (Err(_), _) => (Seq::empty(), Seq::empty()),
            }
        } else if flag == FF {
            (Seq::empty(), Seq::empty())
        } else {
            file_records(s, pos + 1)
        }
    }
}

/// The last non-empty server version among `recs`, or `d` where there is none.
pub open spec fn last_version_or(recs: Seq<AuxInfoModel>, d: Seq<char>) -> Seq<char>
    decreases recs.len(),
{
    if recs.len() == 0 {
        d
    } else if recs.last().redis_server_version.len() > 0 {
        recs.last().redis_server_version
    } else {
        last_version_or(recs.drop_last(), d)
    }
}

/// The last non-zero memory figure among `recs`, or `d` where there is none.
pub open spec fn last_used_mem_or(recs: Seq<AuxInfoModel>, d: usize) -> usize
    decreases recs.len(),
{
    if recs.len() == 0 {
        d
    } else if recs.last().used_mem > 0 {
        recs.last().used_mem
    } else {
        last_used_mem_or(recs.drop_last(), d)
    }
}

/// The last of `ids`, or `d` where there is none.
pub open spec fn last_id_or(ids: Seq<u8>, d: u8) -> u8 {
    if ids.len() == 0 {
        d
    } else {
        ids.last()
    }
}

proof fn lemma_last_prepend(a: AuxInfoModel, rest: Seq<AuxInfoModel>, dv: Seq<char>, dm: usize)
    ensures
        last_version_or(seq![a] + rest, dv) == last_version_or(rest, merge_aux(AuxInfoModel { redis_server_version: dv, used_mem: dm }, a).redis_server_version),
        last_used_mem_or(seq![a] + rest, dm) == last_used_mem_or(rest, merge_aux(AuxInfoModel { redis_server_version: dv, used_mem: dm }, a).used_mem),
    decreases rest.len(),
{
    let all = seq![a] + rest;
    if rest.len() == 0 {
        let m = merge_aux(AuxInfoModel { redis_server_version: dv, used_mem: dm }, a);
        assert(all.last() == a);
        assert(all.drop_last() =~= Seq::<AuxInfoModel>::empty());
        assert(last_version_or(Seq::<AuxInfoModel>::empty(), dv) == dv);
        assert(last_version_or(rest, m.redis_server_version) == m.redis_server_version);
        assert(last_used_mem_or(Seq::<AuxInfoModel>::empty(), dm) == dm);
        assert(last_used_mem_or(rest, m.used_mem) == m.used_mem);
    } else {
        assert(all.last() == rest.last());
        assert(all.drop_last() =~= seq![a] + rest.drop_last());
        lemma_last_prepend(a, rest.drop_last(), dv, dm);
    }
}

proof fn lemma_sections_fold(s: Seq<u8>, pos: int, aux: AuxInfoModel, db_id: u8)
    requires
        0 <= pos,
        spec_sections(s, pos, aux, db_id) is Ok,
    ensures
        ({
            let (a, d) = spec_sections(s, pos, aux, db_id)->Ok_0;
            let (auxes, ids) = file_records(s, pos);
            &&& a.redis_server_version == last_version_or(auxes, aux.redis_server_version)
            &&& a.used_mem == last_used_mem_or(auxes, aux.used_mem)
            &&& d == last_id_or(ids, db_id)
        }),
    decreases s.len() - pos,
{
    if 0 <= pos < s.len() {
        let flag = s[pos];
        if flag == FA {
            lemma_parse_aux_info_advances(s, pos + 1);
            let (r, p) = spec_parse_aux_info(s, pos + 1);
            let a = r->Ok_0;
            lemma_sections_fold(s, p, merge_aux(aux, a), db_id);
            lemma_last_prepend(a, file_records(s, p).0, aux.redis_server_version, aux.used_mem);
        } else if flag == FE {
            lemma_parse_db_info_advances(s, pos + 1);
            let (r, p) = spec_parse_db_info(s, pos + 1);
            let d = r->Ok_0;
            lemma_sections_fold(s, p, aux, d.db_id);
            let ids = file_records(s, p).1;
            if ids.len() > 0 {
                assert((seq![d.db_id] + ids).last() == ids.last());
            }
        } else if flag != FF {
            lemma_sections_fold(s, pos + 1, aux, db_id);
        }
    }
}

/// Law: a parsed file holds the header read from its first nine bytes; the
/// last non-empty server version and the last non-zero memory figure among
/// the auxiliary fields met (empty and 0 where there are none); and the
/// number of the last database section met (0 where there is none).
pub proof fn law_file_keeps_last_fields(s: Seq<u8>)
    requires
        spec_parse_rdb(s) is Ok,
    ensures
        ({
            let m = spec_parse_rdb(s)->Ok_0;
            let (auxes, ids) = file_records(s, spec_parse_base_info(s, 0).1);
            &&& spec_parse_base_info(s.subrange(0, 9), 0).0 == Ok::<BaseInfoModel, RdbError>(m.base_info)
            &&& m.aux_info.redis_server_version == last_version_or(auxes, Seq::empty())
            &&& m.aux_info.used_mem == last_used_mem_or(auxes, 0)
            &&& m.db_id == last_id_or(ids, 0)
        }),
{
    let h = s.subrange(0, 9);
    assert(h.subrange(0, 5) =~= s.subrange(0, 5));
    assert(h.subrange(5, 9) =~= s.subrange(5, 9));
    lemma_sections_fold(s, spec_parse_base_info(s, 0).1, no_aux(), 0);
}

/// Law: at the top level of a file, a byte other than the auxiliary-field,
/// database-selection and end opcodes is passed over: the sections read from
/// it give the same result and the same notices as those read from the next
/// byte.
pub proof fn law_stray_top_level_byte_skipped(s: Seq<u8>, pos: int, aux: AuxInfoModel, db_id: u8)
    requires
        0 <= pos < s.len(),
        s[pos] != FA,
        s[pos] != FE,
        s[pos] != FF,
    ensures
        spec_sections(s, pos, aux, db_id) == spec_sections(s, pos + 1, aux, db_id),
        spec_file_events(s, pos) == spec_file_events(s, pos + 1),
{
    assert(spec_sections(s, pos, aux, db_id) == spec_sections(s, pos + 1, aux, db_id));
    assert(spec_file_events(s, pos) == spec_file_events(s, pos + 1));
}

/// Law: the top level stops at the end opcode and at the end of the buffer,
/// keeping what it gathered; at the end opcode it gives that one notice.
pub proof fn law_top_level_stops(s: Seq<u8>, pos: int, aux: AuxInfoModel, db_id: u8)
    requires
        0 <= pos <= s.len(),
    ensures
        pos == s.len() ==> spec_sections(s, pos, aux, db_id) == Ok::<(AuxInfoModel, u8), RdbError>((aux, db_id)),
        pos == s.len() ==> spec_file_events(s, pos) == Seq::<EventModel>::empty(),
        pos < s.len() && s[pos] == FF ==> spec_sections(s, pos, aux, db_id) == Ok::<(AuxInfoModel, u8), RdbError>((aux, db_id)),
        pos < s.len() && s[pos] == FF ==> spec_file_events(s, pos) == seq![EventModel::EndOfFile],
{
}

/// Law: inside a database section, a byte other than the table-size and
/// database-selection opcodes is passed over without reading anything after
/// it.
pub proof fn law_stray_section_byte_skipped(s: Seq<u8>, pos: int)
    requires
        0 <= pos < s.len(),
        s[pos] != FB,
        s[pos] != FE,
    ensures
        spec_db_body(s, pos) == spec_db_body(s, pos + 1),
{
}

} // verus!
