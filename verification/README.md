# parser_rdb

A parser for Redis RDB snapshot files, verified with Verus.

- `src/` is the library. Each parser (`read_string_encoding`, `read_key_string`,
  `parse_string`, `Pair::parse`, `rdb_load_len`, `parse_fb`, `DbInfo::parse`,
  `BaseInfo::parse`, `AuxInfo::parse`, `ParserFactory::parse`, ...) is proved
  equal to a specification over the bytes of the buffer and the cursor
  position; `src/laws.rs` holds properties of the parsers as a whole.
  `ParserFactory::parse_with_events` also gives the notices of a parse in
  order (table sizes and pairs read, auxiliary fields not kept, expiry and
  end opcodes), each stated by a specification.
- `app/main.rs` is the command-line program: it reads the file named by
  `-f/--file`, parses it, prints the notices of the parse and then the result.
- `tests/` exercises the library on concrete inputs.
