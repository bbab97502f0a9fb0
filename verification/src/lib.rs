//! Parsing of Redis RDB snapshot files.
//!
//! The format is read from an in-memory byte buffer through a [`Cursor`].
//! Every parser is stated against a specification over the bytes of the
//! buffer and the cursor position: what it returns and where it leaves the
//! cursor, on success and on each kind of failure.

pub mod error;
pub mod cursor;
pub mod num;
pub mod text;
pub mod data_type;
pub mod rdb_flag;
pub mod pair;
pub mod rdb_string;
pub mod db;
pub mod base_info;
pub mod parser;
pub mod laws;
pub mod trace;
pub mod encoding_laws;
pub mod record_laws;

pub use base_info::{parse_aux_with_events, parser_aux_name, parser_aux_value, AuxInfo, BaseInfo};
pub use cursor::Cursor;
pub use db::{
    parse_db_with_events, parse_fb, parse_fc, parse_fd, parser_flag, rdb_load_len, DbInfo,
    ResizeDbInfo,
};
pub use error::{ErrorKind, RdbError};
pub use num::{decimal_string, parse_usize};
pub use pair::{
    parse_pair_with_events, parse_val_type, read_key_string, read_length, read_string_encoding,
    Pair,
};
pub use parser::{Parser, ParserFactory, RDBInfo};
pub use rdb_string::parse_string;
pub use trace::ParseEvent;
