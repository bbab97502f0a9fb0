//! The file header and the auxiliary fields.
use vstd::prelude::*;
use vstd::utf8::{decode_utf8, valid_utf8};
use crate::cursor::{spec_read_bytes, spec_read_u8, Cursor};
use crate::error::{result_view, RdbError};
use crate::num::{parse_usize, spec_parse_usize};
use crate::parser::Parser;
use crate::text::string_from_utf8;
use crate::trace::{events_view, push_event, EventModel, ParseEvent};

verus! {

/// The length of the file header: five magic bytes and four version bytes.
pub const RDB_HEADER_LENGTH: usize = 9;

/// The file header.
#[derive(Debug)]
pub struct BaseInfo {
    pub magic: String,
    pub rdb_version: String,
}

/// The auxiliary fields that the parser keeps.
#[derive(Debug)]
pub struct AuxInfo {
    pub redis_server_version: String,
    pub used_mem: usize,
}

/// The content of a [`BaseInfo`].
pub struct BaseInfoModel {
    pub magic: Seq<char>,
    pub rdb_version: Seq<char>,
}

/// The content of an [`AuxInfo`].
pub struct AuxInfoModel {
    pub redis_server_version: Seq<char>,
    pub used_mem: usize,
}

impl View for BaseInfo {
    type V = BaseInfoModel;

    open spec fn view(&self) -> BaseInfoModel {
        BaseInfoModel { magic: self.magic@, rdb_version: self.rdb_version@ }
    }
}

impl View for AuxInfo {
    type V = AuxInfoModel;

    open spec fn view(&self) -> AuxInfoModel {
        AuxInfoModel { redis_server_version: self.redis_server_version@, used_mem: self.used_mem }
    }
}

/// The header at `pos` and the position after it. A buffer of fewer than
/// nine bytes in all has none; otherwise five magic bytes and four version
/// bytes, each group decoded as UTF-8.
pub open spec fn spec_parse_base_info(s: Seq<u8>, pos: int) -> (Result<BaseInfoModel, RdbError>, int) {
    if s.len() < RDB_HEADER_LENGTH {
        (Err(RdbError::HeaderTooShort), pos)
    } else {
        let (rm, pm) = spec_read_bytes(s, pos, 5);
        match rm {
            Err(e) => (Err(e), pm),
            Ok(m) => if !valid_utf8(m) {
                (Err(RdbError::InvalidMagic), pm)
            } else {
                let (rv, pv) = spec_read_bytes(s, pm, 4);
                match rv {
                    Err(e) => (Err(e), pv),
                    Ok(v) => if !valid_utf8(v) {
                        (Err(RdbError::InvalidVersion), pv)
                    } else {
                        (Ok(BaseInfoModel { magic: decode_utf8(m), rdb_version: decode_utf8(v) }), pv)
                    },
                }
            },
        }
    }
}

impl Parser for BaseInfo {
    /// Reads the file header: the magic string and the format version.
    fn parse(cursor: &mut Cursor) -> (res: Result<BaseInfo, RdbError>)
        ensures
            final(cursor).bytes() == old(cursor).bytes(),
            (result_view(res), final(cursor).pos()) == spec_parse_base_info(old(cursor).bytes(), old(cursor).pos()),
            old(cursor).pos() <= old(cursor).bytes().len() ==> old(cursor).pos() <= final(cursor).pos() <= final(cursor).bytes().len(),
            res is Ok ==> final(cursor).pos() == old(cursor).pos() + RDB_HEADER_LENGTH,
    {
        if cursor.get_ref().len() < RDB_HEADER_LENGTH {
            return Err(RdbError::HeaderTooShort);
        }
        let magic_bytes = cursor.read_bytes(5)?;
        let magic = match string_from_utf8(magic_bytes) {
            Some(m) => m,
            None => return Err(RdbError::InvalidMagic),
        };
        let version_bytes = cursor.read_bytes(4)?;
        let rdb_version = match string_from_utf8(version_bytes) {
            Some(v) => v,
            None => return Err(RdbError::InvalidVersion),
        };
        Ok(BaseInfo { magic, rdb_version })
    }
}

/// An auxiliary field name at `pos` and the position after it: a length
/// byte, at most 127, then that many bytes decoded as UTF-8. Where those
/// bytes run past the end, the error is [`RdbError::AuxFieldTruncated`].
pub open spec fn spec_parser_aux_name(s: Seq<u8>, pos: int) -> (Result<Seq<char>, RdbError>, int) {
    let (r, p1) = spec_read_u8(s, pos);
    match r {
        Err(e) => (Err(e), p1),
        Ok(n) => if n > 127 {
            (Err(RdbError::NonAsciiAuxName), p1)
        } else {
            let (rb, pb) = spec_read_bytes(s, p1, n as int);
            match rb {
                Err(_) => (Err(RdbError::AuxFieldTruncated), pb),
                Ok(b) => if valid_utf8(b) {
                    (Ok(decode_utf8(b)), pb)
                } else {
                    (Err(RdbError::InvalidUtf8), pb)
                },
            }
        },
    }
}

/// Reads the name of an auxiliary field.
pub fn parser_aux_name(cursor: &mut Cursor) -> (res: Result<String, RdbError>)
    ensures
        final(cursor).bytes() == old(cursor).bytes(),
        (result_view(res), final(cursor).pos()) == spec_parser_aux_name(old(cursor).bytes(), old(cursor).pos()),
        final(cursor).pos() <= final(cursor).bytes().len(),
        old(cursor).pos() <= old(cursor).bytes().len() ==> old(cursor).pos() <= final(cursor).pos(),
        res is Ok ==> old(cursor).pos() < final(cursor).pos(),
{
    let n = cursor.read_u8()?;
    if n > 127 {
        return Err(RdbError::NonAsciiAuxName);
    }
    let b = match cursor.read_bytes(n as usize) {
        Ok(b) => b,
        Err(_) => return Err(RdbError::AuxFieldTruncated),
    };
    match string_from_utf8(b) {
        Some(name) => Ok(name),
        None => Err(RdbError::InvalidUtf8),
    }
}

/// An auxiliary field value at `pos` and the position after it: a length
/// byte, then that many bytes decoded as UTF-8; a length byte above 127
/// stands for the empty value, and nothing after it is read. Where the
/// bytes run past the end, the error is [`RdbError::AuxFieldTruncated`].
pub open spec fn spec_parser_aux_value(s: Seq<u8>, pos: int) -> (Result<Seq<char>, RdbError>, int) {
    let (r, p1) = spec_read_u8(s, pos);
    match r {
        Err(e) => (Err(e), p1),
        Ok(n) => if n > 127 {
            (Ok(Seq::empty()), p1)
        } else {
            let (rb, pb) = spec_read_bytes(s, p1, n as int);
            match rb {
                Err(_) => (Err(RdbError::AuxFieldTruncated), pb),
                Ok(b) => if valid_utf8(b) {
                    (Ok(decode_utf8(b)), pb)
                } else {
                    (Err(RdbError::InvalidUtf8), pb)
                },
            }
        },
    }
}

/// Reads the value of an auxiliary field.
pub fn parser_aux_value(cursor: &mut Cursor) -> (res: Result<String, RdbError>)
    ensures
        final(cursor).bytes() == old(cursor).bytes(),
        (result_view(res), final(cursor).pos()) == spec_parser_aux_value(old(cursor).bytes(), old(cursor).pos()),
        final(cursor).pos() <= final(cursor).bytes().len(),
        old(cursor).pos() <= old(cursor).bytes().len() ==> old(cursor).pos() <= final(cursor).pos(),
        res is Ok ==> old(cursor).pos() < final(cursor).pos(),
{
    let n = cursor.read_u8()?;
    if n > 127 {
        return Ok(String::new());
    }
    let b = match cursor.read_bytes(n as usize) {
        Ok(b) => b,
        Err(_) => return Err(RdbError::AuxFieldTruncated),
    };
    match string_from_utf8(b) {
        Some(value) => Ok(value),
        None => Err(RdbError::InvalidUtf8),
    }
}

/// The memory figure of a `used-mem` value: its decimal value, or 0 where
/// it is empty or not a decimal `usize`.
pub open spec fn used_mem_of(value: Seq<char>) -> usize {
    match spec_parse_usize(value) {
        Some(n) => n,
        None => 0,
    }
}

/// What an auxiliary field `name` = `value` sets: the server version for
/// `redis-ver`, the memory figure for `used-mem`, and nothing for any other
/// name.
pub open spec fn aux_field(name: Seq<char>, value: Seq<char>) -> AuxInfoModel {
    if name == "redis-ver"@ {
        AuxInfoModel { redis_server_version: value, used_mem: 0 }
    } else if name == "used-mem"@ {
        AuxInfoModel { redis_server_version: Seq::empty(), used_mem: used_mem_of(value) }
    } else {
        AuxInfoModel { redis_server_version: Seq::empty(), used_mem: 0 }
    }
}

/// The auxiliary field at `pos` and the position after it.
pub open spec fn spec_parse_aux_info(s: Seq<u8>, pos: int) -> (Result<AuxInfoModel, RdbError>, int) {
    let (rn, pn) = spec_parser_aux_name(s, pos);
    match rn {
        Err(e) => (Err(e), pn),
        Ok(name) => {
            let (rv, pv) = spec_parser_aux_value(s, pn);
            match rv {
                Err(e) => (Err(e), pv),
                Ok(value) => (Ok(aux_field(name, value)), pv),
            }
        },
    }
}

/// The auxiliary-field reader never moves back nor past the end; on success
/// it has moved forward.
pub proof fn lemma_parse_aux_info_advances(s: Seq<u8>, pos: int)
    requires
        0 <= pos <= s.len(),
    ensures
        pos <= spec_parse_aux_info(s, pos).1 <= s.len(),
        spec_parse_aux_info(s, pos).0 is Ok ==> pos < spec_parse_aux_info(s, pos).1,
{
}

/// The notices of an auxiliary field `name` = `value`: an unknown name,
/// or a non-empty `used-mem` value that is not a decimal number.
pub open spec fn aux_field_events(name: Seq<char>, value: Seq<char>) -> Seq<EventModel> {
    if name == "redis-ver"@ {
        Seq::empty()
    } else if name == "used-mem"@ {
        if value.len() > 0 && spec_parse_usize(value) is None {
            seq![EventModel::UsedMemNotANumber]
        } else {
            Seq::empty()
        }
    } else {
        seq![EventModel::UnknownAuxName(name)]
    }
}

/// The notices of the auxiliary field at `pos`: a name length above 127
/// (with that byte), or those of the field once read.
pub open spec fn spec_aux_events(s: Seq<u8>, pos: int) -> Seq<EventModel> {
    let (rn, pn) = spec_parser_aux_name(s, pos);
    match rn {
        Err(e) => if e == RdbError::NonAsciiAuxName {
            seq![EventModel::NonAsciiAuxName(s[pos])]
        } else {
            Seq::empty()
        },
        Ok(name) => match spec_parser_aux_value(s, pn).0 {
            Err(_) => Seq::empty(),
            Ok(value) => aux_field_events(name, value),
        },
    }
}

/// Reads one auxiliary field as [`AuxInfo::parse`] does, and appends its
/// notices to `events`.
pub fn parse_aux_with_events(cursor: &mut Cursor, events: &mut Vec<ParseEvent>) -> (res: Result<AuxInfo, RdbError>)
    ensures
        final(cursor).bytes() == old(cursor).bytes(),
        (result_view(res), final(cursor).pos()) == spec_parse_aux_info(old(cursor).bytes(), old(cursor).pos()),
        final(cursor).pos() <= final(cursor).bytes().len(),
        old(cursor).pos() <= old(cursor).bytes().len() ==> old(cursor).pos() <= final(cursor).pos(),
        res is Ok ==> old(cursor).pos() < final(cursor).pos(),
        events_view(final(events)@) == events_view(old(events)@) + spec_aux_events(old(cursor).bytes(), old(cursor).pos()),
{
    let start = cursor.position();
    let aux_name = match parser_aux_name(cursor) {
        Ok(n) => n,
        Err(e) => {
            if e == RdbError::NonAsciiAuxName {
                let b = cursor.get_ref()[start];
                push_event(events, ParseEvent::NonAsciiAuxName(b));
                assert(events_view(events@) =~= events_view(old(events)@) + seq![EventModel::NonAsciiAuxName(b)]);
            } else {
                assert(events_view(events@) =~= events_view(old(events)@) + Seq::<EventModel>::empty());
            }
            return Err(e);
        },
    };
    let aux_value = match parser_aux_value(cursor) {
        Ok(v) => v,
        Err(e) => {
            assert(events_view(events@) =~= events_view(old(events)@) + Seq::<EventModel>::empty());
            return Err(e);
        },
    };
    proof {
        reveal_strlit("redis-ver");
        reveal_strlit("used-mem");
    }
    if aux_name == String::from_str("redis-ver") {
        assert(events_view(events@) =~= events_view(old(events)@) + Seq::<EventModel>::empty());
        Ok(AuxInfo { redis_server_version: aux_value, used_mem: 0 })
    } else if aux_name == String::from_str("used-mem") {
        let used_mem = if aux_value.as_str().is_empty() {
            assert(events_view(events@) =~= events_view(old(events)@) + Seq::<EventModel>::empty());
            0
        } else {
            match parse_usize(aux_value.as_str()) {
                Some(n) => {
                    assert(events_view(events@) =~= events_view(old(events)@) + Seq::<EventModel>::empty());
                    n
                },
                None => {
                    push_event(events, ParseEvent::UsedMemNotANumber);
                    assert(events_view(events@) =~= events_view(old(events)@) + seq![EventModel::UsedMemNotANumber]);
                    0
                },
            }
        };
        Ok(AuxInfo { redis_server_version: String::new(), used_mem })
    } else {
        let ghost name = aux_name@;
        push_event(events, ParseEvent::UnknownAuxName(aux_name));
        assert(events_view(events@) =~= events_view(old(events)@) + seq![EventModel::UnknownAuxName(name)]);
        Ok(AuxInfo { redis_server_version: String::new(), used_mem: 0 })
    }
}

impl Parser for AuxInfo {
    /// Reads one auxiliary field and keeps what it sets.
    fn parse(cursor: &mut Cursor) -> (res: Result<AuxInfo, RdbError>)
        ensures
            final(cursor).bytes() == old(cursor).bytes(),
            (result_view(res), final(cursor).pos()) == spec_parse_aux_info(old(cursor).bytes(), old(cursor).pos()),
            final(cursor).pos() <= final(cursor).bytes().len(),
            old(cursor).pos() <= old(cursor).bytes().len() ==> old(cursor).pos() <= final(cursor).pos(),
            res is Ok ==> old(cursor).pos() < final(cursor).pos(),
    {
        let mut events: Vec<ParseEvent> = Vec::new();
        parse_aux_with_events(cursor, &mut events)
    }
}

} // verus!
