use parser_rdb::{
    parse_aux_with_events, parse_db_with_events, parse_fc, parse_fd, parse_pair_with_events,
    ParseEvent, decimal_string, parse_fb, parse_string, parse_usize, parse_val_type, parser_aux_name,
    parser_aux_value, parser_flag, rdb_load_len, read_key_string, read_length,
    read_string_encoding, AuxInfo, BaseInfo, Cursor, DbInfo, ErrorKind, Pair, Parser,
    ParserFactory, RdbError,
};

fn with_cursor<T>(data: &[u8], f: impl FnOnce(&mut Cursor) -> T) -> (T, usize) {
    let mut c = Cursor::new(data);
    let r = f(&mut c);
    (r, c.position())
}

#[test]
fn cursor_reads_and_stops_at_end() {
    let data = [1u8, 2, 3];
    let mut c = Cursor::new(&data);
    assert_eq!(c.read_u8(), Ok(1));
    assert_eq!(c.position(), 1);
    assert_eq!(c.read_bytes(2).unwrap(), &[2u8, 3][..]);
    assert_eq!(c.read_u8(), Err(RdbError::UnexpectedEof));
    assert_eq!(c.position(), 3);
    assert_eq!(c.get_ref().len(), 3);
}

#[test]
fn cursor_failed_read_moves_to_end() {
    let data = [1u8, 2, 3];
    let mut c = Cursor::new(&data);
    assert_eq!(c.read_bytes(5), Err(RdbError::UnexpectedEof));
    assert_eq!(c.position(), 3);
}

#[test]
fn error_kinds() {
    assert_eq!(RdbError::UnexpectedEof.kind(), ErrorKind::UnexpectedEof);
    assert_eq!(RdbError::AuxFieldTruncated.kind(), ErrorKind::UnexpectedEof);
    for e in [
        RdbError::HeaderTooShort,
        RdbError::InvalidMagic,
        RdbError::InvalidVersion,
        RdbError::NonAsciiAuxName,
        RdbError::InvalidUtf8,
        RdbError::InvalidStringEncoding,
    ] {
        assert_eq!(e.kind(), ErrorKind::InvalidData);
    }
}

#[test]
fn string_encoding_six_bit_length() {
    assert_eq!(with_cursor(&[0x05, 0xAA], read_string_encoding), (Ok((0, 5)), 1));
}

#[test]
fn string_encoding_fourteen_bit_length() {
    assert_eq!(with_cursor(&[0x41, 0x02], read_string_encoding), (Ok((0, 258)), 2));
}

#[test]
fn string_encoding_thirty_two_bit_length() {
    assert_eq!(
        with_cursor(&[0x80, 0x00, 0x01, 0x00, 0x02], read_string_encoding),
        (Ok((0, 0x0001_0002)), 5)
    );
}

#[test]
fn string_encoding_special_forms() {
    assert_eq!(with_cursor(&[0xC0], read_string_encoding), (Ok((1, 1)), 1));
    assert_eq!(with_cursor(&[0xC1], read_string_encoding), (Ok((2, 2)), 1));
    assert_eq!(with_cursor(&[0xC2], read_string_encoding), (Ok((3, 4)), 1));
    assert_eq!(with_cursor(&[0xC3], read_string_encoding), (Ok((4, 0)), 1));
}

#[test]
fn string_encoding_invalid_special_form() {
    assert_eq!(
        with_cursor(&[0xC4, 0x00], read_string_encoding),
        (Err(RdbError::InvalidStringEncoding), 1)
    );
}

#[test]
fn string_encoding_truncated() {
    assert_eq!(with_cursor(&[], read_string_encoding), (Err(RdbError::UnexpectedEof), 0));
    assert_eq!(with_cursor(&[0x41], read_string_encoding), (Err(RdbError::UnexpectedEof), 1));
    assert_eq!(with_cursor(&[0x80, 1, 2], read_string_encoding), (Err(RdbError::UnexpectedEof), 3));
}

#[test]
fn length_keeps_the_length() {
    assert_eq!(with_cursor(&[0x41, 0x02], read_length), (Ok(258), 2));
    assert_eq!(with_cursor(&[0xC2], read_length), (Ok(4), 1));
}

#[test]
fn key_plain_string() {
    let (r, p) = with_cursor(&[0x03, b'f', b'o', b'o', 0x00], read_key_string);
    assert_eq!(r.unwrap(), "foo");
    assert_eq!(p, 4);
}

#[test]
fn key_integer_encodings() {
    assert_eq!(with_cursor(&[0xC0, 0xFF], read_key_string).0.unwrap(), "-1");
    assert_eq!(with_cursor(&[0xC0, 0x7B], read_key_string).0.unwrap(), "123");
    assert_eq!(with_cursor(&[0xC1, 0x01, 0x00], read_key_string).0.unwrap(), "256");
    assert_eq!(with_cursor(&[0xC1, 0x80, 0x00], read_key_string).0.unwrap(), "-32768");
    assert_eq!(
        with_cursor(&[0xC2, 0x7F, 0xFF, 0xFF, 0xFF], read_key_string).0.unwrap(),
        "2147483647"
    );
    assert_eq!(
        with_cursor(&[0xC2, 0x80, 0x00, 0x00, 0x00], read_key_string).0.unwrap(),
        "-2147483648"
    );
}

#[test]
fn key_compressed_string() {
    let (r, p) = with_cursor(&[0xC3, 0x02, 0x05, b'a', b'b', 0x99], read_key_string);
    assert_eq!(r.unwrap(), "Compressed string (compressed: 2, uncompressed: 5)");
    assert_eq!(p, 5);
}

#[test]
fn key_invalid_utf8() {
    assert_eq!(with_cursor(&[0x02, 0xC3, 0x28], read_key_string), (Err(RdbError::InvalidUtf8), 3));
}

#[test]
fn key_multibyte_utf8() {
    assert_eq!(with_cursor(&[0x02, 0xC3, 0xA9], read_key_string).0.unwrap(), "é");
}

#[test]
fn key_truncated() {
    assert_eq!(with_cursor(&[0x05, b'a'], read_key_string), (Err(RdbError::UnexpectedEof), 2));
}

#[test]
fn string_pair_plain() {
    let (r, p) = with_cursor(&[0x01, b'k', 0x02, b'v', b'w'], parse_string);
    let pair = r.unwrap();
    assert_eq!(pair.key_name, "k");
    assert_eq!(pair.val, "vw");
    assert_eq!(pair.val_type, "String");
    assert_eq!(pair.size, 2);
    assert_eq!(pair.expiry, None);
    assert_eq!(p, 5);
}

#[test]
fn string_pair_integer_values() {
    let pair = with_cursor(&[0x01, b'k', 0xC0, 0xFF], parse_string).0.unwrap();
    assert_eq!(pair.val, "255");
    assert_eq!(pair.size, 1);
    let pair = with_cursor(&[0x01, b'k', 0xC1, 0xFF, 0xFE], parse_string).0.unwrap();
    assert_eq!(pair.val, "-2");
    assert_eq!(pair.size, 2);
    let pair = with_cursor(&[0x01, b'k', 0xC2, 0x00, 0x01, 0x00, 0x00], parse_string).0.unwrap();
    assert_eq!(pair.val, "65536");
    assert_eq!(pair.size, 4);
}

#[test]
fn string_pair_compressed_value_not_read() {
    let (r, p) = with_cursor(&[0x01, b'k', 0xC3, 0x02, 0x05, b'a', b'b'], parse_string);
    let pair = r.unwrap();
    assert_eq!(pair.key_name, "k");
    assert_eq!(pair.val, "");
    assert_eq!(pair.val_type, "String");
    assert_eq!(pair.size, 0);
    assert_eq!(p, 3);
}

#[test]
fn string_pair_lossy_value() {
    let pair = with_cursor(&[0x01, b'k', 0x02, b'a', 0xFF], parse_string).0.unwrap();
    assert_eq!(pair.val, "a\u{FFFD}");
    assert_eq!(pair.size, 2);
}

#[test]
fn string_pair_truncated_value() {
    assert_eq!(
        with_cursor(&[0x01, b'k', 0x05, b'a'], parse_string).0.unwrap_err(),
        RdbError::UnexpectedEof
    );
}

#[test]
fn pair_of_string_type() {
    let (r, p) = with_cursor(&[0x00, 0x01, b'k', 0x01, b'v'], Pair::parse);
    let pair = r.unwrap();
    assert_eq!(pair.key_name, "k");
    assert_eq!(pair.val, "v");
    assert_eq!(p, 5);
}

#[test]
fn pair_of_collection_type_is_blank() {
    for t in 1u8..=4 {
        let (r, p) = with_cursor(&[t, 0x01, b'k'], Pair::parse);
        let pair = r.unwrap();
        assert_eq!(pair.key_name, "");
        assert_eq!(pair.val, "");
        assert_eq!(pair.val_type, "");
        assert_eq!(pair.size, 0);
        assert_eq!(p, 1);
    }
}

#[test]
fn pair_of_unknown_type() {
    let (r, p) = with_cursor(&[0x0E, 0x01, b'k'], Pair::parse);
    let pair = r.unwrap();
    assert_eq!(pair.val_type, "Unknown");
    assert_eq!(pair.key_name, "");
    assert_eq!(p, 1);
}

#[test]
fn pair_at_end_of_input() {
    assert_eq!(with_cursor(&[], Pair::parse).0.unwrap_err(), RdbError::UnexpectedEof);
}

#[test]
fn value_type_and_flag_bytes() {
    assert_eq!(with_cursor(&[0x07, 0x00], parse_val_type), (Ok(7), 1));
    assert_eq!(with_cursor(&[0xFE], parser_flag), (Ok(0xFE), 1));
    assert_eq!(with_cursor(&[], parser_flag), (Err(RdbError::UnexpectedEof), 0));
}

#[test]
fn load_len_forms() {
    assert_eq!(with_cursor(&[0x05], rdb_load_len), (Ok(5), 1));
    assert_eq!(with_cursor(&[0x41, 0x02], rdb_load_len), (Ok(258), 2));
    // The 32-bit form takes the low six bits and the first three following bytes.
    assert_eq!(with_cursor(&[0x81, 0x00, 0x00, 0x01, 0xAA], rdb_load_len), (Ok(0x0100_0001), 5));
    assert_eq!(
        with_cursor(&[0xC0, 0, 0, 0, 0, 0, 1, 0, 0x99], rdb_load_len),
        (Ok(0x100), 9)
    );
    assert_eq!(with_cursor(&[0xC0, 0, 0], rdb_load_len), (Err(RdbError::UnexpectedEof), 3));
}

#[test]
fn table_sizes_keep_low_byte() {
    let (r, p) = with_cursor(&[0x05, 0x41, 0x02], parse_fb);
    let sizes = r.unwrap();
    assert_eq!(sizes.total_db_key, 5);
    assert_eq!(sizes.total_expire_key, 2);
    assert_eq!(p, 3);
}

#[test]
fn db_section_ends_at_next_selection() {
    let data = [0x03, 0xFB, 0x01, 0x00, 0x00, 0x01, b'k', 0x01, b'v', 0xFC, 0x42, 0xFE, 0x77];
    let (r, p) = with_cursor(&data, DbInfo::parse);
    assert_eq!(r.unwrap().db_id, 3);
    assert_eq!(p, 12);
}

#[test]
fn db_section_without_selection_runs_out() {
    let (r, p) = with_cursor(&[0x00, 0xFF, 0x00], DbInfo::parse);
    assert_eq!(r.unwrap_err(), RdbError::UnexpectedEof);
    assert_eq!(p, 3);
}

#[test]
fn db_section_pair_error_ends_it() {
    let (r, _) = with_cursor(&[0x00, 0xFB, 0x01, 0x00, 0x00, 0x02, 0xC3, 0x28, 0xFE], DbInfo::parse);
    assert_eq!(r.unwrap_err(), RdbError::InvalidUtf8);
}

#[test]
fn db_section_table_size_error_is_passed_over() {
    // The sizes run out of input; the pair then finds no type byte.
    let (r, _) = with_cursor(&[0x00, 0xFB, 0xC0, 0x00], DbInfo::parse);
    assert_eq!(r.unwrap_err(), RdbError::UnexpectedEof);
}

#[test]
fn header_reads_magic_and_version() {
    let (r, p) = with_cursor(b"REDIS0009rest", BaseInfo::parse);
    let h = r.unwrap();
    assert_eq!(h.magic, "REDIS");
    assert_eq!(h.rdb_version, "0009");
    assert_eq!(p, 9);
}

#[test]
fn header_too_short() {
    assert_eq!(with_cursor(b"REDIS00", BaseInfo::parse).0.unwrap_err(), RdbError::HeaderTooShort);
}

#[test]
fn header_invalid_magic() {
    let data = [0xFF, b'E', b'D', b'I', b'S', b'0', b'0', b'0', b'9'];
    assert_eq!(with_cursor(&data, BaseInfo::parse).0.unwrap_err(), RdbError::InvalidMagic);
}

#[test]
fn header_invalid_version() {
    let data = [b'R', b'E', b'D', b'I', b'S', b'0', 0xFF, b'0', b'9'];
    assert_eq!(with_cursor(&data, BaseInfo::parse).0.unwrap_err(), RdbError::InvalidVersion);
}

#[test]
fn aux_name_reads_raw_length() {
    assert_eq!(with_cursor(&[0x03, b'a', b'b', b'c'], parser_aux_name).0.unwrap(), "abc");
    assert_eq!(
        with_cursor(&[0x80, b'a'], parser_aux_name),
        (Err(RdbError::NonAsciiAuxName), 1)
    );
    assert_eq!(with_cursor(&[0x01, 0xFF], parser_aux_name).0.unwrap_err(), RdbError::InvalidUtf8);
    assert_eq!(with_cursor(&[0x04, b'a'], parser_aux_name), (Err(RdbError::AuxFieldTruncated), 2));
    assert_eq!(with_cursor(&[], parser_aux_name), (Err(RdbError::UnexpectedEof), 0));
}

#[test]
fn aux_value_with_high_length_byte_is_empty() {
    let (r, p) = with_cursor(&[0xC0, 0x00, 0x10], parser_aux_value);
    assert_eq!(r.unwrap(), "");
    assert_eq!(p, 1);
    assert_eq!(with_cursor(&[0x02, b'h', b'i'], parser_aux_value).0.unwrap(), "hi");
}

fn aux(name: &str, value: &[u8]) -> Vec<u8> {
    let mut v = vec![name.len() as u8];
    v.extend_from_slice(name.as_bytes());
    v.extend_from_slice(value);
    v
}

#[test]
fn aux_redis_version() {
    let data = aux("redis-ver", b"\x057.2.4");
    let a = with_cursor(&data, AuxInfo::parse).0.unwrap();
    assert_eq!(a.redis_server_version, "7.2.4");
    assert_eq!(a.used_mem, 0);
}

#[test]
fn aux_used_memory() {
    let data = aux("used-mem", b"\x071234567");
    let a = with_cursor(&data, AuxInfo::parse).0.unwrap();
    assert_eq!(a.redis_server_version, "");
    assert_eq!(a.used_mem, 1234567);
}

#[test]
fn aux_used_memory_not_a_number() {
    let data = aux("used-mem", b"\x03abc");
    assert_eq!(with_cursor(&data, AuxInfo::parse).0.unwrap().used_mem, 0);
    // A length byte above 127 gives an empty value.
    let data = aux("used-mem", b"\xC0\x10");
    assert_eq!(with_cursor(&data, AuxInfo::parse).0.unwrap().used_mem, 0);
}

#[test]
fn aux_other_field_is_ignored() {
    let data = aux("ctime", b"\x02ab");
    let (r, p) = with_cursor(&data, AuxInfo::parse);
    let a = r.unwrap();
    assert_eq!(a.redis_server_version, "");
    assert_eq!(a.used_mem, 0);
    assert_eq!(p, data.len());
}

fn header_and(body: &[u8]) -> Vec<u8> {
    let mut v = b"REDIS0011".to_vec();
    v.extend_from_slice(body);
    v
}

#[test]
fn file_with_aux_fields_and_end() {
    let mut body = vec![0xFA];
    body.extend(aux("redis-ver", b"\x057.2.4"));
    body.push(0xFA);
    body.extend(aux("used-mem", b"\x03900"));
    body.push(0xFA);
    body.extend(aux("redis-ver", b"\xC0"));
    body.push(0xFF);
    body.extend_from_slice(&[1, 2, 3]);
    let info = ParserFactory::parse(&header_and(&body)).unwrap();
    assert_eq!(info.base_info.magic, "REDIS");
    assert_eq!(info.base_info.rdb_version, "0011");
    assert_eq!(info.aux_info.redis_server_version, "7.2.4");
    assert_eq!(info.aux_info.used_mem, 900);
    assert_eq!(info.db_info.db_id, 0);
}

#[test]
fn file_with_database_sections() {
    // Each section runs to the next selection opcode, which it consumes.
    let body = [0xFE, 0x05, 0xFB, 0x01, 0x00, 0x00, 0x01, b'k', 0x01, b'v', 0xFE, 0xFE, 0x07, 0xFE];
    let info = ParserFactory::parse(&header_and(&body)).unwrap();
    assert_eq!(info.db_info.db_id, 7);
}

#[test]
fn file_that_ends_inside_a_database_runs_out() {
    let body = [0xFE, 0x00, 0xFB, 0x01, 0x00, 0x00, 0x01, b'k', 0x01, b'v', 0xFF, 0, 0, 0, 0, 0, 0, 0, 0];
    let e = ParserFactory::parse(&header_and(&body)).unwrap_err();
    assert_eq!(e, RdbError::UnexpectedEof);
    assert_eq!(e.kind(), ErrorKind::UnexpectedEof);
}

#[test]
fn file_header_only() {
    let info = ParserFactory::parse(b"REDIS0003").unwrap();
    assert_eq!(info.aux_info.used_mem, 0);
    assert_eq!(info.aux_info.redis_server_version, "");
}

#[test]
fn file_too_short() {
    assert_eq!(ParserFactory::parse(b"RED").unwrap_err(), RdbError::HeaderTooShort);
}

#[test]
fn file_aux_error_is_returned() {
    let body = [0xFA, 0x90];
    assert_eq!(ParserFactory::parse(&header_and(&body)).unwrap_err(), RdbError::NonAsciiAuxName);
}

#[test]
fn decimal_text() {
    assert_eq!(decimal_string(0), "0");
    assert_eq!(decimal_string(7), "7");
    assert_eq!(decimal_string(-128), "-128");
    assert_eq!(decimal_string(1234567890123), "1234567890123");
    assert_eq!(decimal_string(i64::MIN), i64::MIN.to_string());
    assert_eq!(decimal_string(i64::MAX), i64::MAX.to_string());
}

#[test]
fn unsigned_parse_as_std() {
    for s in ["42", "+7", "007", "0", "+", "", "-1", "1 ", "18446744073709551615", "18446744073709551616", "99999999999999999999", "+-3", "١"] {
        assert_eq!(parse_usize(s), s.parse::<usize>().ok(), "{}", s);
    }
}

#[test]
fn law_decimal_roundtrip_values() {
    for n in [0usize, 9, 10, 4096, 1 << 40, i64::MAX as usize] {
        assert_eq!(parse_usize(&decimal_string(n as i64)), Some(n));
    }
}

#[test]
fn law_pair_ignores_what_follows() {
    let pair = [0x00, 0x01, b'k', 0x01, b'v'];
    let mut longer = pair.to_vec();
    longer.extend_from_slice(&[0xC4, 0xFF, 0x00]);
    let (a, pa) = with_cursor(&pair, Pair::parse);
    let (b, pb) = with_cursor(&longer, Pair::parse);
    let (a, b) = (a.unwrap(), b.unwrap());
    assert_eq!((a.key_name, a.val, a.size), (b.key_name, b.val, b.size));
    assert_eq!(pa, pb);
}

#[test]
fn law_short_lengths_agree_values() {
    for data in [[0x05u8, 0x00], [0x3F, 0x00], [0x41, 0x02], [0x7F, 0xFF]] {
        assert_eq!(with_cursor(&data, rdb_load_len), with_cursor(&data, read_length));
    }
}

#[test]
fn law_used_mem_roundtrip_values() {
    for n in [0usize, 1, 900, 1 << 33] {
        let text = decimal_string(n as i64);
        let mut value = vec![text.len() as u8];
        value.extend_from_slice(text.as_bytes());
        let data = aux("used-mem", &value);
        assert_eq!(with_cursor(&data, AuxInfo::parse).0.unwrap().used_mem, n);
    }
}

#[test]
fn law_key_ignores_what_follows() {
    let key = [0xC1, 0x01, 0x00];
    let mut longer = key.to_vec();
    longer.push(0xFF);
    assert_eq!(with_cursor(&key, read_key_string), with_cursor(&longer, read_key_string));
}

#[test]
fn aux_value_truncated() {
    assert_eq!(with_cursor(&[0x05, b'a'], parser_aux_value), (Err(RdbError::AuxFieldTruncated), 2));
}

#[test]
fn string_pair_valid_utf8_value() {
    let pair = with_cursor(&[0x01, b'k', 0x03, 0xE2, 0x82, 0xAC], parse_string).0.unwrap();
    assert_eq!(pair.val, "\u{20AC}");
    assert_eq!(pair.size, 3);
}

#[test]
fn expiry_opcodes_read_nothing() {
    let data = [0xAA, 0xBB];
    let mut c = Cursor::new(&data);
    let mut events = Vec::new();
    parse_fc(&mut c, &mut events);
    parse_fd(&mut c, &mut events);
    assert_eq!(c.position(), 0);
    assert!(matches!(events.as_slice(), [ParseEvent::ExpiryMs, ParseEvent::ExpirySec]));
}

#[test]
fn law_expiry_opcodes_in_section() {
    // FC and FD are passed over without reading what follows them.
    let (a, pa) = with_cursor(&[0x02, 0xFC, 0xFD, 0xFE], DbInfo::parse);
    assert_eq!(a.unwrap().db_id, 2);
    assert_eq!(pa, 4);
}

#[test]
fn pair_events_name_collection_types() {
    let data = [0x02, 0x01, b'k'];
    let mut c = Cursor::new(&data);
    let mut events = Vec::new();
    let pair = parse_pair_with_events(&mut c, &mut events).unwrap();
    assert_eq!(pair.val_type, "");
    assert!(matches!(events.as_slice(), [ParseEvent::CollectionType(2)]));
}

#[test]
fn aux_events() {
    let mut events = Vec::new();
    let data = aux("ctime", b"\x02ab");
    let mut c = Cursor::new(&data);
    parse_aux_with_events(&mut c, &mut events).unwrap();
    let data = aux("used-mem", b"\x02xy");
    let mut c = Cursor::new(&data);
    parse_aux_with_events(&mut c, &mut events).unwrap();
    let data = [0x90u8, 0x00];
    let mut c = Cursor::new(&data);
    assert_eq!(parse_aux_with_events(&mut c, &mut events).unwrap_err(), RdbError::NonAsciiAuxName);
    assert_eq!(events.len(), 3);
    assert!(matches!(&events[0], ParseEvent::UnknownAuxName(n) if n == "ctime"));
    assert!(matches!(&events[1], ParseEvent::UsedMemNotANumber));
    assert!(matches!(&events[2], ParseEvent::NonAsciiAuxName(0x90)));
}

#[test]
fn db_events_record_sizes_and_pairs() {
    let data = [0x00, 0xFB, 0x01, 0x00, 0x00, 0x01, b'k', 0x01, b'v', 0xFC, 0xFB, 0x02, 0x03, 0x01, 0xFE];
    let mut c = Cursor::new(&data);
    let mut events = Vec::new();
    assert_eq!(parse_db_with_events(&mut c, &mut events).unwrap().db_id, 0);
    assert_eq!(events.len(), 6);
    assert!(matches!(&events[0], ParseEvent::TableSizes(Ok(r)) if r.total_db_key == 1 && r.total_expire_key == 0));
    assert!(matches!(&events[1], ParseEvent::ParsedPair(p) if p.key_name == "k" && p.val == "v"));
    assert!(matches!(&events[2], ParseEvent::ExpiryMs));
    assert!(matches!(&events[3], ParseEvent::TableSizes(Ok(r)) if r.total_db_key == 2 && r.total_expire_key == 3));
    assert!(matches!(&events[4], ParseEvent::CollectionType(1)));
    assert!(matches!(&events[5], ParseEvent::ParsedPair(p) if p.val_type == ""));
}

#[test]
fn db_events_kept_before_an_error() {
    let data = [0x00, 0xFB, 0xC0];
    let mut c = Cursor::new(&data);
    let mut events = Vec::new();
    assert_eq!(parse_db_with_events(&mut c, &mut events).unwrap_err(), RdbError::UnexpectedEof);
    assert_eq!(events.len(), 1);
    assert!(matches!(&events[0], ParseEvent::TableSizes(Err(RdbError::UnexpectedEof))));
}

#[test]
fn file_events_in_order() {
    let mut body = vec![0xFA];
    body.extend(aux("ctime", b"\x01x"));
    body.extend_from_slice(&[0xFE, 0x04, 0xFB, 0x01, 0x00, 0x00, 0x01, b'k', 0x01, b'v', 0xFE, 0xFF, 0x01]);
    let (res, events) = ParserFactory::parse_with_events(&header_and(&body));
    assert_eq!(res.unwrap().db_info.db_id, 4);
    assert_eq!(events.len(), 4);
    assert!(matches!(&events[0], ParseEvent::UnknownAuxName(n) if n == "ctime"));
    assert!(matches!(&events[1], ParseEvent::TableSizes(Ok(_))));
    assert!(matches!(&events[2], ParseEvent::ParsedPair(p) if p.key_name == "k"));
    assert!(matches!(&events[3], ParseEvent::EndOfFile));
}

#[test]
fn law_file_keeps_last_fields_values() {
    let mut body = vec![0xFA];
    body.extend(aux("redis-ver", b"\x015"));
    body.extend_from_slice(&[0xFE, 0x02, 0xFE]);
    body.push(0xFA);
    body.extend(aux("used-mem", b"\x0210"));
    body.push(0xFA);
    body.extend(aux("redis-ver", b"\x016"));
    body.push(0xFA);
    body.extend(aux("used-mem", b"\x010"));
    body.extend_from_slice(&[0xFE, 0x09, 0xFE]);
    body.push(0xFA);
    body.extend(aux("redis-ver", b"\x00"));
    let info = ParserFactory::parse(&header_and(&body)).unwrap();
    assert_eq!(info.aux_info.redis_server_version, "6");
    assert_eq!(info.aux_info.used_mem, 10);
    assert_eq!(info.db_info.db_id, 9);
}
