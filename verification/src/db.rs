//! Database sections: the database number, the table sizes and the pairs.
use vstd::prelude::*;
use crate::cursor::{spec_read_bytes, spec_read_u8, Cursor};
use crate::error::RdbError;
use crate::num::{be_uint, be_value};
use crate::pair::{parse_pair_with_events, spec_pair_events, spec_parse_pair};
use crate::trace::{events_view, push_event, EventModel, ParseEvent};
use crate::parser::Parser;
use crate::rdb_string::lemma_parse_string_advances;
use crate::rdb_flag::{FB, FC, FD, FE};

verus! {

/// A database section: the number of the database.
#[derive(Debug)]
pub struct DbInfo {
    pub db_id: u8,
}

/// The sizes of the two hash tables of a database, each kept to its low
/// eight bits.
#[derive(Debug)]
pub struct ResizeDbInfo {
    pub total_db_key: u8,
    pub total_expire_key: u8,
}

/// The opcode byte at `pos`.
pub open spec fn spec_parser_flag(s: Seq<u8>, pos: int) -> (Result<u8, RdbError>, int) {
    spec_read_u8(s, pos)
}

/// Reads the opcode byte that introduces a section.
pub fn parser_flag(cursor: &mut Cursor) -> (res: Result<u8, RdbError>)
    ensures
        final(cursor).bytes() == old(cursor).bytes(),
        (res, final(cursor).pos()) == spec_parser_flag(old(cursor).bytes(), old(cursor).pos()),
        final(cursor).pos() <= final(cursor).bytes().len(),
        old(cursor).pos() <= old(cursor).bytes().len() ==> old(cursor).pos() <= final(cursor).pos(),
        res is Ok ==> final(cursor).pos() == old(cursor).pos() + 1,
{
    cursor.read_u8()
}

/// The length at `pos` and the position after it. The two top bits of the
/// first byte select the form: `00` the low six bits; `01` the low six bits
/// and the next byte; `10` the big-endian value of the low six bits and the
/// first three of the next four bytes; `11` the big-endian value of the low
/// six bits and the first seven of the next eight bytes.
pub open spec fn spec_rdb_load_len(s: Seq<u8>, pos: int) -> (Result<usize, RdbError>, int) {
    let (r, p1) = spec_read_u8(s, pos);
    match r {
        Err(e) => (Err(e), p1),
        Ok(first) => {
            let low = first % 64;
            if first < 64 {
                (Ok(low as usize), p1)
            } else if first < 128 {
                let (r2, p2) = spec_read_u8(s, p1);
                match r2 {
                    Err(e) => (Err(e), p2),
                    Ok(second) => (Ok((low * 256 + second) as usize), p2),
                }
            } else if first < 192 {
                let (r2, p2) = spec_read_bytes(s, p1, 4);
                match r2 {
                    Err(e) => (Err(e), p2),
                    Ok(b) => (Ok(be_value(seq![low] + b.subrange(0, 3)) as usize), p2),
                }
            } else {
                let (r2, p2) = spec_read_bytes(s, p1, 8);
                match r2 {
                    Err(e) => (Err(e), p2),
                    Ok(b) => (Ok(be_value(seq![low] + b.subrange(0, 7)) as usize), p2),
                }
            }
        },
    }
}

/// Reads a length in the length encoding of a table-size section.
pub fn rdb_load_len(cursor: &mut Cursor) -> (res: Result<usize, RdbError>)
    ensures
        final(cursor).bytes() == old(cursor).bytes(),
        (res, final(cursor).pos()) == spec_rdb_load_len(old(cursor).bytes(), old(cursor).pos()),
        final(cursor).pos() <= final(cursor).bytes().len(),
        old(cursor).pos() <= old(cursor).bytes().len() ==> old(cursor).pos() <= final(cursor).pos(),
        res is Ok ==> old(cursor).pos() < final(cursor).pos(),
{
    let first = cursor.read_u8()?;
    let low = first % 64;
    if first < 64 {
        Ok(low as usize)
    } else if first < 128 {
        let second = cursor.read_u8()?;
        Ok((low as usize) * 256 + second as usize)
    } else if first < 192 {
        let m = cursor.read_bytes(4)?;
        let word = vec![low, m[0], m[1], m[2]];
        assert(word@ =~= seq![low] + m@.subrange(0, 3));
        let v = be_uint(word.as_slice());
        Ok(v as usize)
    } else {
        let m = cursor.read_bytes(8)?;
        let word = vec![low, m[0], m[1], m[2], m[3], m[4], m[5], m[6]];
        assert(word@ =~= seq![low] + m@.subrange(0, 7));
        let v = be_uint(word.as_slice());
        Ok(v as usize)
    }
}

/// The table sizes at `pos` and the position after them: two lengths, each
/// kept to its low eight bits.
pub open spec fn spec_parse_fb(s: Seq<u8>, pos: int) -> (Result<ResizeDbInfo, RdbError>, int) {
    let (r1, p1) = spec_rdb_load_len(s, pos);
    match r1 {
        Err(e) => (Err(e), p1),
        Ok(total) => {
            let (r2, p2) = spec_rdb_load_len(s, p1);
            match r2 {
                Err(e) => (Err(e), p2),
                Ok(expire) => (
                    Ok(ResizeDbInfo { total_db_key: (total % 256) as u8, total_expire_key: (expire % 256) as u8 }),
                    p2,
                ),
            }
        },
    }
}

/// Reads the sizes of the main and the expiry hash tables.
pub fn parse_fb(cursor: &mut Cursor) -> (res: Result<ResizeDbInfo, RdbError>)
    ensures
        final(cursor).bytes() == old(cursor).bytes(),
        (res, final(cursor).pos()) == spec_parse_fb(old(cursor).bytes(), old(cursor).pos()),
        final(cursor).pos() <= final(cursor).bytes().len(),
        old(cursor).pos() <= old(cursor).bytes().len() ==> old(cursor).pos() <= final(cursor).pos(),
        res is Ok ==> old(cursor).pos() < final(cursor).pos(),
{
    let total = rdb_load_len(cursor)?;
    let expire = rdb_load_len(cursor)?;
    Ok(ResizeDbInfo { total_db_key: (total % 256) as u8, total_expire_key: (expire % 256) as u8 })
}

/// The position that the table-size reader reaches never falls behind
/// where it starts, nor passes the end.
pub proof fn lemma_parse_fb_advances(s: Seq<u8>, pos: int)
    requires
        0 <= pos <= s.len(),
    ensures
        pos <= spec_parse_fb(s, pos).1 <= s.len(),
{
}

/// The position that the pair reader reaches never falls behind where it
/// starts, nor passes the end; on success it has moved forward.
pub proof fn lemma_parse_pair_advances(s: Seq<u8>, pos: int)
    requires
        0 <= pos <= s.len(),
    ensures
        pos <= spec_parse_pair(s, pos).1 <= s.len(),
        spec_parse_pair(s, pos).0 is Ok ==> pos < spec_parse_pair(s, pos).1,
{
    if pos < s.len() {
        lemma_parse_string_advances(s, pos + 1);
    }
}

/// The body of a database section from `pos` on: opcodes until the next
/// database selection (`FE`), which ends it. A table-size opcode (`FB`) is
/// followed by the two sizes, whose errors are passed over, and by one pair,
/// whose errors end the section; any other opcode is passed over.
pub open spec fn spec_db_body(s: Seq<u8>, pos: int) -> (Result<(), RdbError>, int)
    decreases s.len() - pos,
{
    let (r, p1) = spec_parser_flag(s, pos);
    match r {
        Err(e) => (Err(e), p1),
        Ok(flag) => if flag == FE {
            (Ok(()), p1)
        } else if flag == FB {
            let p2 = spec_parse_fb(s, p1).1;
            let (rp, p3) = spec_parse_pair(s, p2);
            match rp {
                Err(e) => (Err(e), p3),
                Ok(_) => {
                    proof {
                        lemma_parse_fb_advances(s, p1);
                        lemma_parse_pair_advances(s, p2);
                    }
                    spec_db_body(s, p3)
                },
            }
        } else {
            spec_db_body(s, p1)
        },
    }
}

/// The body of a database section never moves back nor past the end.
pub proof fn lemma_db_body_advances(s: Seq<u8>, pos: int)
    requires
        0 <= pos <= s.len(),
    ensures
        pos <= spec_db_body(s, pos).1 <= s.len(),
    decreases s.len() - pos,
{
    if pos < s.len() {
        let flag = s[pos];
        if flag == FB {
            lemma_parse_fb_advances(s, pos + 1);
            let p2 = spec_parse_fb(s, pos + 1).1;
            lemma_parse_pair_advances(s, p2);
            let p3 = spec_parse_pair(s, p2).1;
            if spec_parse_pair(s, p2).0 is Ok {
                lemma_db_body_advances(s, p3);
            }
        } else if flag != FE {
            lemma_db_body_advances(s, pos + 1);
        }
    }
}

/// The database-section reader never moves back nor past the end; on
/// success it has moved forward.
pub proof fn lemma_parse_db_info_advances(s: Seq<u8>, pos: int)
    requires
        0 <= pos <= s.len(),
    ensures
        pos <= spec_parse_db_info(s, pos).1 <= s.len(),
        spec_parse_db_info(s, pos).0 is Ok ==> pos < spec_parse_db_info(s, pos).1,
{
    if pos < s.len() {
        lemma_db_body_advances(s, pos + 1);
    }
}

/// The database section at `pos`: its number, then its body.
pub open spec fn spec_parse_db_info(s: Seq<u8>, pos: int) -> (Result<DbInfo, RdbError>, int) {
    let (r, p1) = spec_read_u8(s, pos);
    match r {
        Err(e) => (Err(e), p1),
        Ok(db_id) => {
            let (rb, pb) = spec_db_body(s, p1);
            match rb {
                Err(e) => (Err(e), pb),
                Ok(_) => (Ok(DbInfo { db_id }), pb),
            }
        },
    }
}

/// Passes over an expiry opcode in milliseconds: reads nothing after it and
/// gives its notice.
pub fn parse_fc(cursor: &mut Cursor, events: &mut Vec<ParseEvent>)
    ensures
        *final(cursor) == *old(cursor),
        events_view(final(events)@) == events_view(old(events)@).push(EventModel::ExpiryMs),
{
    push_event(events, ParseEvent::ExpiryMs);
}

/// Passes over an expiry opcode in seconds: reads nothing after it and
/// gives its notice.
pub fn parse_fd(cursor: &mut Cursor, events: &mut Vec<ParseEvent>)
    ensures
        *final(cursor) == *old(cursor),
        events_view(final(events)@) == events_view(old(events)@).push(EventModel::ExpirySec),
{
    push_event(events, ParseEvent::ExpirySec);
}

/// The notices of the body of a database section from `pos` on: for each
/// table-size opcode the sizes (or why they could not be read), the notices
/// of the pair that follows and, where it reads, the pair itself; for each
/// expiry opcode its notice.
pub open spec fn spec_db_events(s: Seq<u8>, pos: int) -> Seq<EventModel>
    decreases s.len() - pos,
{
    let (r, p1) = spec_parser_flag(s, pos);
    match r {
        Err(_) => Seq::empty(),
        Ok(flag) => if flag == FE {
            Seq::empty()
        } else if flag == FB {
            let (rf, p2) = spec_parse_fb(s, p1);
            let (rp, p3) = spec_parse_pair(s, p2);
            let head = seq![EventModel::TableSizes(rf)] + spec_pair_events(s, p2);
            match rp {
                Err(_) => head,
                Ok(pm) => {
                    proof {
                        lemma_parse_fb_advances(s, p1);
                        lemma_parse_pair_advances(s, p2);
                    }
                    head.push(EventModel::ParsedPair(pm)) + spec_db_events(s, p3)
                },
            }
        } else if flag == FC {
            seq![EventModel::ExpiryMs] + spec_db_events(s, p1)
        } else if flag == FD {
            seq![EventModel::ExpirySec] + spec_db_events(s, p1)
        } else {
            spec_db_events(s, p1)
        },
    }
}

/// The notices of the database section at `pos`.
pub open spec fn spec_db_section_events(s: Seq<u8>, pos: int) -> Seq<EventModel> {
    let (r, p1) = spec_read_u8(s, pos);
    match r {
        Err(_) => Seq::empty(),
        Ok(_) => spec_db_events(s, p1),
    }
}

/// Reads a database section as [`DbInfo::parse`] does, and appends its
/// notices to `events`.
pub fn parse_db_with_events(cursor: &mut Cursor, events: &mut Vec<ParseEvent>) -> (res: Result<DbInfo, RdbError>)
    ensures
        final(cursor).bytes() == old(cursor).bytes(),
        (res, final(cursor).pos()) == spec_parse_db_info(old(cursor).bytes(), old(cursor).pos()),
        final(cursor).pos() <= final(cursor).bytes().len(),
        old(cursor).pos() <= old(cursor).bytes().len() ==> old(cursor).pos() <= final(cursor).pos(),
        res is Ok ==> old(cursor).pos() < final(cursor).pos(),
        events_view(final(events)@) == events_view(old(events)@) + spec_db_section_events(old(cursor).bytes(), old(cursor).pos()),
{
    let ghost s = cursor.bytes();
    let ghost e0 = events_view(events@);
    let db_id = match cursor.read_u8() {
        Ok(b) => b,
        Err(e) => {
            assert(events_view(events@) =~= e0 + Seq::<EventModel>::empty());
            return Err(e);
        },
    };
    let ghost start = cursor.pos();
    loop
        invariant_except_break
            s == old(cursor).bytes(),
            e0 == events_view(old(events)@),
            spec_read_u8(s, old(cursor).pos()) == (Ok::<u8, RdbError>(db_id), start),
            old(cursor).pos() < start,
            cursor.bytes() == s,
            0 <= cursor.pos() <= s.len(),
            start <= cursor.pos(),
            spec_db_body(s, cursor.pos()) == spec_db_body(s, start),
            events_view(events@) + spec_db_events(s, cursor.pos()) == e0 + spec_db_events(s, start),
        ensures
            cursor.bytes() == s,
            start <= cursor.pos() <= s.len(),
            spec_db_body(s, start) == (Ok::<(), RdbError>(()), cursor.pos()),
            events_view(events@) == e0 + spec_db_events(s, start),
        decreases s.len() - cursor.pos(),
    {
        let ghost here = cursor.pos();
        let ghost before = events_view(events@);
        let flag = match parser_flag(cursor) {
            Ok(f) => f,
            Err(e) => {
                assert(before + spec_db_events(s, here) =~= before);
                return Err(e);
            },
        };
        if flag == FE {
            assert(before + spec_db_events(s, here) =~= before);
            break;
        } else if flag == FB {
            let sizes = parse_fb(cursor);
            push_event(events, ParseEvent::TableSizes(sizes));
            let pair = match parse_pair_with_events(cursor, events) {
                Ok(p) => p,
                Err(e) => {
                    assert(events_view(events@) =~= before + spec_db_events(s, here));
                    return Err(e);
                },
            };
            push_event(events, ParseEvent::ParsedPair(pair));
            proof {
                lemma_parse_fb_advances(s, here + 1);
                assert(events_view(events@) + spec_db_events(s, cursor.pos()) =~= before + spec_db_events(s, here));
            }
        } else if flag == FC {
            parse_fc(cursor, events);
            assert(events_view(events@) + spec_db_events(s, cursor.pos()) =~= before + spec_db_events(s, here));
        } else if flag == FD {
            parse_fd(cursor, events);
            assert(events_view(events@) + spec_db_events(s, cursor.pos()) =~= before + spec_db_events(s, here));
        }
    }
    Ok(DbInfo { db_id })
}

impl Parser for DbInfo {
    /// Reads a database section: its number, then opcodes and pairs up to
    /// the next database selection.
    fn parse(cursor: &mut Cursor) -> (res: Result<DbInfo, RdbError>)
        ensures
            final(cursor).bytes() == old(cursor).bytes(),
            (res, final(cursor).pos()) == spec_parse_db_info(old(cursor).bytes(), old(cursor).pos()),
            final(cursor).pos() <= final(cursor).bytes().len(),
            old(cursor).pos() <= old(cursor).bytes().len() ==> old(cursor).pos() <= final(cursor).pos(),
            res is Ok ==> old(cursor).pos() < final(cursor).pos(),
    {
        let mut events: Vec<ParseEvent> = Vec::new();
        parse_db_with_events(cursor, &mut events)
    }
}

} // verus!
