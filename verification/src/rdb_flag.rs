//! The opcode bytes that introduce the sections of an RDB file.
use vstd::prelude::*;

verus! {

/// An auxiliary field: a name and a value.
pub const FA: u8 = 0xFA;
/// The sizes of the main and the expiry hash tables of a database.
pub const FB: u8 = 0xFB;
/// An expiry time in milliseconds.
pub const FC: u8 = 0xFC;
/// An expiry time in seconds.
pub const FD: u8 = 0xFD;
/// The selection of a database.
pub const FE: u8 = 0xFE;
/// The end of the file.
pub const FF: u8 = 0xFF;

} // verus!
