//! The notices that a parse gives out as it goes: what it passed over, what
//! it could not use, and each pair that it read.
use vstd::prelude::*;
use crate::db::ResizeDbInfo;
use crate::error::RdbError;
use crate::pair::{Pair, PairModel};

verus! {

/// One notice of a parse, in the order the parse met it.
#[derive(Debug)]
pub enum ParseEvent {
    /// The length byte of an auxiliary field name was above 127.
    NonAsciiAuxName(u8),
    /// An auxiliary field whose name the parser does not keep.
    UnknownAuxName(String),
    /// A non-empty `used-mem` value that is not a decimal number; 0 is kept.
    UsedMemNotANumber,
    /// The table sizes read after a table-size opcode, or why they could
    /// not be read.
    TableSizes(Result<ResizeDbInfo, RdbError>),
    /// A value type among the first five collection types (list, set, sorted
    /// set, hash), whose value is not read.
    CollectionType(u8),
    /// A pair read in a database section.
    ParsedPair(Pair),
    /// An expiry opcode in milliseconds, which reads nothing more.
    ExpiryMs,
    /// An expiry opcode in seconds, which reads nothing more.
    ExpirySec,
    /// The end opcode of the file.
    EndOfFile,
}

/// The content of a [`ParseEvent`].
pub enum EventModel {
    NonAsciiAuxName(u8),
    UnknownAuxName(Seq<char>),
    UsedMemNotANumber,
    TableSizes(Result<ResizeDbInfo, RdbError>),
    CollectionType(u8),
    ParsedPair(PairModel),
    ExpiryMs,
    ExpirySec,
    EndOfFile,
}

impl View for ParseEvent {
    type V = EventModel;

    open spec fn view(&self) -> EventModel {
        match self {
            ParseEvent::NonAsciiAuxName(b) => EventModel::NonAsciiAuxName(*b),
            ParseEvent::UnknownAuxName(n) => EventModel::UnknownAuxName(n@),
            ParseEvent::UsedMemNotANumber => EventModel::UsedMemNotANumber,
            ParseEvent::TableSizes(r) => EventModel::TableSizes(*r),
            ParseEvent::CollectionType(t) => EventModel::CollectionType(*t),
            ParseEvent::ParsedPair(p) => EventModel::ParsedPair(p@),
            ParseEvent::ExpiryMs => EventModel::ExpiryMs,
            ParseEvent::ExpirySec => EventModel::ExpirySec,
            ParseEvent::EndOfFile => EventModel::EndOfFile,
        }
    }
}

/// The contents of a list of notices.
pub open spec fn events_view(v: Seq<ParseEvent>) -> Seq<EventModel> {
    v.map_values(|e: ParseEvent| e@)
}

/// Appends a notice.
pub fn push_event(events: &mut Vec<ParseEvent>, e: ParseEvent)
    ensures
        events_view(final(events)@) == events_view(old(events)@).push(e@),
{
    let ghost m = e@;
    events.push(e);
    assert(events_view(events@) =~= events_view(old(events)@).push(m));
}

} // verus!
