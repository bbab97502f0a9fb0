//! The whole file: header, auxiliary fields and database sections.
use vstd::prelude::*;
use crate::base_info::{
    lemma_parse_aux_info_advances, parse_aux_with_events, spec_aux_events, spec_parse_aux_info,
    spec_parse_base_info, AuxInfo, AuxInfoModel, BaseInfo, BaseInfoModel,
};
use crate::cursor::Cursor;
use crate::db::{
    lemma_parse_db_info_advances, parse_db_with_events, spec_db_section_events, spec_parse_db_info,
    DbInfo,
};
use crate::error::RdbError;
use crate::num::{parse_usize, spec_parse_usize};
use crate::rdb_flag::{FA, FE, FF};
use crate::trace::{events_view, push_event, EventModel, ParseEvent};

verus! {

/// The record types that read themselves from a cursor.
pub trait Parser: Sized {
    fn parse(cursor: &mut Cursor) -> Result<Self, RdbError>;
}

/// What the parser gathers from a whole file.
#[derive(Debug)]
pub struct RDBInfo {
    pub base_info: BaseInfo,
    pub aux_info: AuxInfo,
    pub db_info: DbInfo,
}

/// The content of an [`RDBInfo`].
pub struct RDBInfoModel {
    pub base_info: BaseInfoModel,
    pub aux_info: AuxInfoModel,
    pub db_id: u8,
}

impl View for RDBInfo {
    type V = RDBInfoModel;

    open spec fn view(&self) -> RDBInfoModel {
        RDBInfoModel { base_info: self.base_info@, aux_info: self.aux_info@, db_id: self.db_info.db_id }
    }
}

/// The parser of whole files.
pub struct ParserFactory;

/// The auxiliary fields with no field read yet.
pub open spec fn no_aux() -> AuxInfoModel {
    AuxInfoModel { redis_server_version: Seq::empty(), used_mem: 0 }
}

/// The fields `cur` after the field `new`: a non-empty server version and a
/// non-zero memory figure replace the earlier ones.
pub open spec fn merge_aux(cur: AuxInfoModel, new: AuxInfoModel) -> AuxInfoModel {
    AuxInfoModel {
        redis_server_version: if new.redis_server_version.len() > 0 {
            new.redis_server_version
        } else {
            cur.redis_server_version
        },
        used_mem: if new.used_mem > 0 {
            new.used_mem
        } else {
            cur.used_mem
        },
    }
}

/// The sections of the file from `pos` on, with the fields `aux` and the
/// database number `db_id` gathered so far: an auxiliary field (`FA`) is
/// merged in, a database section (`FE`) sets the number, the end opcode
/// (`FF`) or the end of the buffer stops, and any other byte is passed over.
pub open spec fn spec_sections(s: Seq<u8>, pos: int, aux: AuxInfoModel, db_id: u8) -> Result<(AuxInfoModel, u8), RdbError>
    decreases s.len() - pos,
{
    if !(0 <= pos < s.len()) {
        Ok((aux, db_id))
    } else {
        let flag = s[pos];
        if flag == FA {
            let (r, p) = spec_parse_aux_info(s, pos + 1);
            match r {
                Err(e) => Err(e),
                Ok(a) => {
                    proof { lemma_parse_aux_info_advances(s, pos + 1); }
                    spec_sections(s, p, merge_aux(aux, a), db_id)
                },
            }
        } else if flag == FE {
            let (r, p) = spec_parse_db_info(s, pos + 1);
            match r {
                Err(e) => Err(e),
                Ok(d) => {
                    proof { lemma_parse_db_info_advances(s, pos + 1); }
                    spec_sections(s, p, aux, d.db_id)
                },
            }
        } else if flag == FF {
            Ok((aux, db_id))
        } else {
            spec_sections(s, pos + 1, aux, db_id)
        }
    }
}

/// What parsing the file `s` gives: its header, then its sections.
pub open spec fn spec_parse_rdb(s: Seq<u8>) -> Result<RDBInfoModel, RdbError> {
    let (rb, pb) = spec_parse_base_info(s, 0);
    match rb {
        Err(e) => Err(e),
        Ok(b) => match spec_sections(s, pb, no_aux(), 0) {
            Err(e) => Err(e),
            Ok((a, d)) => Ok(RDBInfoModel { base_info: b, aux_info: a, db_id: d }),
        },
    }
}

/// True where the header of `s` reads but its version is not a decimal
/// number: the file on which the parser stops the program.
pub open spec fn version_not_a_number(s: Seq<u8>) -> bool {
    match spec_parse_base_info(s, 0).0 {
        Ok(b) => spec_parse_usize(b.rdb_version) is None,
        Err(_) => false,
    }
}

/// The notices of the sections of the file from `pos` on: those of each
/// auxiliary field and each database section, in order, and the end opcode.
pub open spec fn spec_file_events(s: Seq<u8>, pos: int) -> Seq<EventModel>
    decreases s.len() - pos,
{
    if !(0 <= pos < s.len()) {
        Seq::empty()
    } else {
        let flag = s[pos];
        if flag == FA {
            let (r, p) = spec_parse_aux_info(s, pos + 1);
            let ev = spec_aux_events(s, pos + 1);
            match r {
                Err(_) => ev,
                Ok(_) => {
                    proof { lemma_parse_aux_info_advances(s, pos + 1); }
                    ev + spec_file_events(s, p)
                },
            }
        } else if flag == FE {
            let (r, p) = spec_parse_db_info(s, pos + 1);
            let ev = spec_db_section_events(s, pos + 1);
            match r {
                Err(_) => ev,
                Ok(_) => {
                    proof { lemma_parse_db_info_advances(s, pos + 1); }
                    ev + spec_file_events(s, p)
                },
            }
        } else if flag == FF {
            seq![EventModel::EndOfFile]
        } else {
            spec_file_events(s, pos + 1)
        }
    }
}

/// The notices of parsing the file `s`: none where the header does not
/// read, else those of its sections.
pub open spec fn spec_parse_events(s: Seq<u8>) -> Seq<EventModel> {
    let (rb, pb) = spec_parse_base_info(s, 0);
    match rb {
        Err(_) => Seq::empty(),
        Ok(_) => spec_file_events(s, pb),
    }
}

/// Parses a whole file, appending the notices to `events`.
#[verifier::rlimit(50)]
fn parse_into(rdb_context: &[u8], events: &mut Vec<ParseEvent>) -> (res: Result<RDBInfo, RdbError>)
    requires
        !version_not_a_number(rdb_context@),
    ensures
        match (res, spec_parse_rdb(rdb_context@)) {
            (Ok(info), Ok(m)) => info@ == m,
            (Err(e), Err(f)) => e == f,
            _ => false,
        },
        events_view(final(events)@) == events_view(old(events)@) + spec_parse_events(rdb_context@),
{
    let ghost s = rdb_context@;
    let ghost e0 = events_view(events@);
    let mut cursor = Cursor::new(rdb_context);
    let base_info = match BaseInfo::parse(&mut cursor) {
        Ok(b) => b,
        Err(e) => {
            assert(events_view(events@) =~= e0 + Seq::<EventModel>::empty());
            return Err(e);
        },
    };
    let _rdb_version: usize = parse_usize(base_info.rdb_version.as_str()).unwrap();
    let mut aux_info = AuxInfo { redis_server_version: String::new(), used_mem: 0 };
    let mut db_info = DbInfo { db_id: 0 };
    let ghost start = cursor.pos();
    loop
        invariant_except_break
            s == rdb_context@,
            e0 == events_view(old(events)@),
            spec_parse_base_info(s, 0) == (Ok::<BaseInfoModel, RdbError>(base_info@), start),
            cursor.bytes() == s,
            0 <= cursor.pos() <= s.len(),
            spec_sections(s, cursor.pos(), aux_info@, db_info.db_id) == spec_sections(s, start, no_aux(), 0),
            events_view(events@) + spec_file_events(s, cursor.pos()) == e0 + spec_file_events(s, start),
        ensures
            spec_sections(s, start, no_aux(), 0) == Ok::<(AuxInfoModel, u8), RdbError>((aux_info@, db_info.db_id)),
            events_view(events@) == e0 + spec_file_events(s, start),
        decreases s.len() - cursor.pos(),
    {
        let ghost here = cursor.pos();
        let ghost before = events_view(events@);
        let flag = match cursor.read_u8() {
            Ok(f) => f,
            Err(_) => {
                assert(before + spec_file_events(s, here) =~= before);
                break;
            },
        };
        if flag == FA {
            let new_aux_info = match parse_aux_with_events(&mut cursor, events) {
                Ok(a) => a,
                Err(e) => {
                    assert(events_view(events@) =~= before + spec_file_events(s, here));
                    return Err(e);
                },
            };
            if !new_aux_info.redis_server_version.as_str().is_empty() {
                aux_info.redis_server_version = new_aux_info.redis_server_version;
            }
            if new_aux_info.used_mem > 0 {
                aux_info.used_mem = new_aux_info.used_mem;
            }
            assert(events_view(events@) + spec_file_events(s, cursor.pos()) =~= before + spec_file_events(s, here));
        } else if flag == FE {
            let new_db_info = match parse_db_with_events(&mut cursor, events) {
                Ok(d) => d,
                Err(e) => {
                    assert(events_view(events@) =~= before + spec_file_events(s, here));
                    return Err(e);
                },
            };
            db_info.db_id = new_db_info.db_id;
            assert(events_view(events@) + spec_file_events(s, cursor.pos()) =~= before + spec_file_events(s, here));
        } else if flag == FF {
            push_event(events, ParseEvent::EndOfFile);
            assert(events_view(events@) =~= before + spec_file_events(s, here));
            break;
        }
    }
    Ok(RDBInfo { base_info, aux_info, db_info })
}

impl ParserFactory {
    /// Parses a whole RDB file. A file whose header reads but whose version
    /// is not a decimal number is outside the domain: the parser stops the
    /// program on it.
    pub fn parse(rdb_context: &[u8]) -> (res: Result<RDBInfo, RdbError>)
        requires
            !version_not_a_number(rdb_context@),
        ensures
            match (res, spec_parse_rdb(rdb_context@)) {
                (Ok(info), Ok(m)) => info@ == m,
                (Err(e), Err(f)) => e == f,
                _ => false,
            },
    {
        let mut events: Vec<ParseEvent> = Vec::new();
        parse_into(rdb_context, &mut events)
    }

    /// Parses a whole RDB file as [`ParserFactory::parse`] does, and gives
    /// besides the result the notices of the parse, in order: among them
    /// each table-size record and each pair read in a database section,
    /// the auxiliary fields not kept, the types whose values are not read,
    /// the expiry opcodes and the end opcode.
    pub fn parse_with_events(rdb_context: &[u8]) -> (out: (Result<RDBInfo, RdbError>, Vec<ParseEvent>))
        requires
            !version_not_a_number(rdb_context@),
        ensures
            match (out.0, spec_parse_rdb(rdb_context@)) {
                (Ok(info), Ok(m)) => info@ == m,
                (Err(e), Err(f)) => e == f,
                _ => false,
            },
            events_view(out.1@) == spec_parse_events(rdb_context@),
    {
        let mut events: Vec<ParseEvent> = Vec::new();
        let res = parse_into(rdb_context, &mut events);
        assert(events_view(events@) =~= spec_parse_events(rdb_context@));
        (res, events)
    }
}

} // verus!
