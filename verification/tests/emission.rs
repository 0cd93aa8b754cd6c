use ucd_writer::errors::{Error, ErrorKind};
use ucd_writer::intervals::{merge_sets, to_range_values, to_ranges};
use ucd_writer::line::LineWriter;
use ucd_writer::width::{rust_uint_type, smallest_unsigned_type};
use ucd_writer::writer::WriterBuilder;

fn text(out: &Vec<u8>) -> String {
    String::from_utf8(out.clone()).unwrap()
}

const HEADER: &str = "// DO NOT EDIT THIS FILE. IT WAS AUTOMATICALLY GENERATED BY:\n\
                      //\n\
                      //   \n\
                      //\n";

#[test]
fn ranges_literal_table() {
    let builder = WriterBuilder::new("test");
    let mut writer = builder.from_writer();
    writer.ranges("test", &vec![65, 66, 67, 70]).unwrap();
    let expected = format!(
        "{}\npub const TEST: &'static [(u32, u32)] = &[\n  (65, 67), (70, 70),\n];\n",
        HEADER
    );
    assert_eq!(text(writer.output()), expected);
}

#[test]
fn ranges_char_literals_drop_surrogates() {
    let mut builder = WriterBuilder::new("test");
    builder.char_literals(true);
    let mut writer = builder.from_writer();
    writer.ranges("cs", &vec![0x41, 0xD800]).unwrap();
    let out = text(writer.output());
    assert!(out.contains("pub const CS: &'static [(char, char)] = &["));
    assert!(out.contains("('A', 'A'),"));
    // The surrogate range cannot be written as char literals and is
    // dropped whole.
    assert!(!out.contains("D800"));
}

#[test]
fn ranges_header_once_and_version() {
    let mut builder = WriterBuilder::new("test");
    builder.ucd_version(15, 1, 0);
    let mut writer = builder.from_writer();
    writer.ranges("a", &vec![1]).unwrap();
    writer.ranges("b", &vec![2]).unwrap();
    let out = text(writer.output());
    assert_eq!(out.matches("DO NOT EDIT").count(), 1);
    assert_eq!(out.matches("// Unicode version: 15.1.0.").count(), 1);
}

#[test]
fn header_redacts_multiline_arguments() {
    let mut builder = WriterBuilder::new("test");
    builder.command(&vec!["tool".to_string(), "a\nb".to_string()]);
    let mut writer = builder.from_writer();
    writer.ranges("a", &vec![1]).unwrap();
    let out = text(writer.output());
    assert!(out.contains("//   tool [snip (arg too long)]\n"));
}

#[test]
fn interval_compressor_minimal_runs() {
    assert_eq!(to_ranges(&vec![]), vec![]);
    assert_eq!(to_ranges(&vec![1, 2, 3, 5]), vec![(1, 3), (5, 5)]);
    assert_eq!(to_ranges(&vec![7]), vec![(7, 7)]);
    // Re-running the compressor on the boundaries is a fixed point.
    assert_eq!(to_ranges(&vec![1, 2, 3]), vec![(1, 3)]);
}

#[test]
fn interval_compressor_values_merge_on_equality() {
    assert_eq!(
        to_range_values(&vec![(1, 9), (2, 9), (3, 7), (4, 7), (6, 7)]),
        vec![(1, 2, 9), (3, 4, 7), (6, 6, 7)]
    );
}

#[test]
fn width_selection() {
    assert_eq!(smallest_unsigned_type(0), "u8");
    assert_eq!(smallest_unsigned_type(255), "u8");
    assert_eq!(smallest_unsigned_type(256), "u16");
    assert_eq!(smallest_unsigned_type(65536), "u32");
    assert_eq!(smallest_unsigned_type(1 << 32), "u64");
    assert_eq!(rust_uint_type(4), Ok("u32"));
    assert_eq!(rust_uint_type(3), Err(Error::UnsupportedStateIdSize));
    assert_eq!(
        rust_uint_type(3).unwrap_err().kind(),
        ErrorKind::ConfigurationUnsupported
    );
}

#[test]
fn line_writer_budget() {
    let mut lw = LineWriter::new(14);
    lw.write_str(b"aaaa ");
    lw.write_str(b"bbbb ");
    lw.write_str(b"cccc ");
    lw.flush_line();
    // The third token would have pushed the pending line past the
    // budget, so the line is flushed (and trimmed) first.
    assert_eq!(String::from_utf8(lw.out.clone()).unwrap(), "  aaaa bbbb\n  cccc\n");
}

#[test]
fn line_writer_oversized_token_kept_whole() {
    let mut lw = LineWriter::new(4);
    lw.write_str(b"0123456789");
    lw.flush_line();
    assert_eq!(String::from_utf8(lw.out.clone()).unwrap(), "  0123456789\n");
}

#[test]
fn flat_table_guards() {
    let builder = WriterBuilder::new("test");
    let mut writer = builder.from_writer();
    let too_many = vec![(1u32, vec![1u32, 2, 3, 4])];
    assert_eq!(
        writer.codepoint_to_codepoints("t", &too_many, true),
        Err(Error::FlatTableTooManyValues)
    );
    assert_eq!(
        writer
            .codepoint_to_codepoints("t", &too_many, true)
            .unwrap_err()
            .kind(),
        ErrorKind::CapabilityUnsupported
    );
    let sentinel = vec![(1u32, vec![u32::MAX])];
    assert_eq!(
        writer.codepoint_to_codepoints("t", &sentinel, true),
        Err(Error::FlatTableSentinel)
    );
    assert_eq!(
        writer
            .codepoint_to_codepoints("t", &sentinel, true)
            .unwrap_err()
            .kind(),
        ErrorKind::ValueContainsReservedByte
    );
    // Nothing was written for the rejected calls.
    assert!(writer.output().is_empty());
    // The same lists are fine without the flat form.
    assert!(writer.codepoint_to_codepoints("t", &too_many, false).is_ok());
}

#[test]
fn flat_table_pads_with_sentinel() {
    let builder = WriterBuilder::new("test");
    let mut writer = builder.from_writer();
    writer
        .codepoint_to_codepoints("m", &vec![(1u32, vec![7u32, 8])], true)
        .unwrap();
    let out = text(writer.output());
    assert!(out.contains("pub const M: &'static [(u32, [u32; 3])] = &["));
    assert!(out.contains("(1, [7, 8, !0, ]),"));
}

#[test]
fn multimap_fst_rejected() {
    let mut builder = WriterBuilder::new("test");
    builder.fst_output(true);
    let mut writer = builder.from_writer();
    assert_eq!(
        writer.multi_codepoint_to_codepoint("t", &vec![(1, vec![2])], false),
        Err(Error::FstMultiMap)
    );
    assert_eq!(
        writer.codepoint_to_codepoints("t", &vec![(1, vec![2])], false),
        Err(Error::FstCodepointsMap)
    );
    assert_eq!(
        writer.string_to_string("t", &vec![("a".to_string(), "b".to_string())]),
        Err(Error::FstStringMap)
    );
    assert!(writer.output().is_empty());
}

#[test]
fn codepoint_fn_text() {
    let builder = WriterBuilder::new("test");
    let mut writer = builder.from_writer();
    writer
        .codepoint_to_codepoint_fn("To Other", &vec![(1, 5), (9, 2)])
        .unwrap();
    let out = text(writer.output());
    assert!(out.contains("pub fn to_other(cp: u32) -> Option<NonZeroU32> {"));
    assert!(out.contains("            1 => Some(NonZeroU32::new_unchecked(5)),\n"));
    assert!(out.contains("            9 => Some(NonZeroU32::new_unchecked(2)),\n"));
    assert!(out.contains("_ => None,"));
}

#[test]
fn names_table() {
    let builder = WriterBuilder::new("test");
    let mut writer = builder.from_writer();
    writer
        .names(&vec!["Age.V1".to_string(), "Alphabetic".to_string()])
        .unwrap();
    let out = text(writer.output());
    assert!(out.contains(
        "pub const BY_NAME: &'static [(&'static str, &'static [(u32, u32)])] = &["
    ));
    assert!(out.contains("(\"Age.V1\", AGE_V1), (\"Alphabetic\", ALPHABETIC),"));
}

#[test]
fn string_tables() {
    let builder = WriterBuilder::new("test");
    let mut writer = builder.from_writer();
    writer
        .string_to_string("m", &vec![("a b".to_string(), "c\"d".to_string())])
        .unwrap();
    writer
        .string_to_codepoint("s2c", &vec![("x".to_string(), 65u32)])
        .unwrap();
    writer.string_to_u64("s2u", &vec![("y".to_string(), 300u64)]).unwrap();
    writer
        .codepoint_to_string("c2s", &vec![(66u32, "z".to_string())])
        .unwrap();
    let out = text(writer.output());
    assert!(out.contains("pub const M: &'static [(&'static str, &'static str)] = &["));
    assert!(out.contains("(\"a b\", \"c\\\"d\"),"));
    assert!(out.contains("(\"x\", 65),"));
    assert!(out.contains("(\"y\", 300),"));
    assert!(out.contains("(66, \"z\"),"));
}

#[test]
fn nested_string_table() {
    let builder = WriterBuilder::new("test");
    let mut writer = builder.from_writer();
    writer
        .string_to_string_to_string(
            "n",
            &vec![
                ("a".to_string(), vec![("k".to_string(), "v".to_string())]),
                ("b".to_string(), vec![]),
            ],
        )
        .unwrap();
    let out = text(writer.output());
    assert!(out.contains(
        "pub const N: &'static [(&'static str, &'static [(&'static str, &'static str)])] = &["
    ));
    assert!(out.contains("(\"a\", &[(\"k\", \"v\"), ]),"));
    assert!(out.contains("(\"b\", &["));
}

#[test]
fn unsigned_integer_table_width() {
    let builder = WriterBuilder::new("test");
    let mut writer = builder.from_writer();
    writer
        .ranges_to_unsigned_integer("w", &vec![(1u32, 2u64), (2u32, 2u64), (9u32, 300u64)])
        .unwrap();
    let out = text(writer.output());
    assert!(out.contains("pub const W: &'static [(u32, u32, u16)] = &["));
    assert!(out.contains("(1, 2, 2), (9, 9, 300),"));
}

#[test]
fn enum_tables() {
    let builder = WriterBuilder::new("test");
    let mut writer = builder.from_writer();
    let enum_map = vec![
        ("lower".to_string(), vec![3u32, 4]),
        ("upper".to_string(), vec![1u32, 2]),
    ];
    writer.ranges_to_enum("Kind", &enum_map).unwrap();
    let out = text(writer.output());
    assert!(out.contains("pub const KIND_ENUM: &'static [&'static str] = &["));
    assert!(out.contains("\"lower\", \"upper\","));
    // upper's codepoints carry tag 1, lower's tag 0; ranges merge per tag.
    assert!(out.contains("pub const KIND: &'static [(u32, u32, u8)] = &["));
    assert!(out.contains("(1, 2, 1), (3, 4, 0),"));
}

#[test]
fn rust_enum_tables() {
    let builder = WriterBuilder::new("test");
    let mut writer = builder.from_writer();
    let enum_map = vec![
        ("dash-case".to_string(), vec![5u32]),
        ("simple".to_string(), vec![1u32, 2]),
    ];
    writer
        .ranges_to_rust_enum(
            "my kind",
            &vec!["simple".to_string(), "dash-case".to_string()],
            &enum_map,
        )
        .unwrap();
    let out = text(writer.output());
    assert!(out.contains("#[derive(Clone, Copy, Debug, Hash, Eq, PartialEq)]"));
    assert!(out.contains("pub enum MyKind {"));
    assert!(out.contains("Simple, DashCase,"));
    assert!(out.contains("pub const my kind: &'static [(u32, u32, MyKind)] = &["));
    assert!(out.contains("(1, 2, MyKind::Simple), (5, 5, MyKind::DashCase),"));
}

#[test]
fn rust_enum_custom_discriminants() {
    let builder = WriterBuilder::new("test");
    let mut writer = builder.from_writer();
    let enum_map = vec![("neg".to_string(), vec![1u32])];
    writer
        .ranges_to_rust_enum_with_custom_discriminants(
            "k",
            &vec![(-1isize, "neg".to_string())],
            &enum_map,
        )
        .unwrap();
    let out = text(writer.output());
    assert!(out.contains("#[derive(Clone, Copy, Debug, Hash, Eq, PartialEq, Ord, PartialOrd)]"));
    assert!(out.contains("Neg = -1,"));
}

#[test]
fn combined_ranges() {
    let builder = WriterBuilder::new("test");
    let mut writer = builder.from_writer();
    let enum_map = vec![
        ("a".to_string(), vec![1u32, 2]),
        ("b".to_string(), vec![3u32]),
    ];
    writer.ranges_to_combined("all", &enum_map).unwrap();
    let out = text(writer.output());
    assert!(out.contains("pub const ALL: &'static [(u32, u32)] = &[\n  (1, 3),\n];"));
}

#[test]
fn merge_sets_orders_union() {
    let sets = vec![
        ((), vec![3u32, 9]),
        ((), vec![1u32, 5]),
    ];
    assert_eq!(merge_sets(&sets), vec![(1, 1), (3, 0), (5, 1), (9, 0)]);
}

#[test]
fn fst_set_artifact_round_trip() {
    let mut builder = WriterBuilder::new("test");
    builder.fst_output(true);
    let mut writer = builder.from_writer();
    writer.ranges("My_Set", &vec![65u32, 0x1F600]).unwrap();
    let out = text(writer.output());
    assert!(out.contains("pub static MY_SET: ::once_cell::sync::Lazy<::fst::Set<&'static [u8]>> ="));
    assert!(out.contains("include_bytes!(\"my_set.fst\")"));
    let artifacts = writer.artifacts();
    assert_eq!(artifacts.len(), 1);
    assert_eq!(artifacts[0].0, b"my_set.fst".to_vec());
    // The artifact is a real transducer holding the big-endian keys.
    let set = fst::Set::new(artifacts[0].1.clone()).unwrap();
    assert!(set.contains(65u32.to_be_bytes()));
    assert!(set.contains(0x1F600u32.to_be_bytes()));
    assert!(!set.contains(66u32.to_be_bytes()));
}

#[test]
fn fst_map_artifact_round_trip() {
    let mut builder = WriterBuilder::new("test");
    builder.fst_output(true);
    let mut writer = builder.from_writer();
    writer
        .ranges_to_unsigned_integer("m", &vec![(7u32, 300u64), (9u32, 4u64)])
        .unwrap();
    let map = fst::Map::new(writer.artifacts()[0].1.clone()).unwrap();
    assert_eq!(map.get(7u32.to_be_bytes()), Some(300));
    assert_eq!(map.get(9u32.to_be_bytes()), Some(4));
}

#[test]
fn fst_packed_string_values() {
    let mut builder = WriterBuilder::new("test");
    builder.fst_output(true);
    let mut writer = builder.from_writer();
    writer
        .codepoint_to_string("p", &vec![(1u32, "YEO".to_string())])
        .unwrap();
    let map = fst::Map::new(writer.artifacts()[0].1.clone()).unwrap();
    let packed = map.get(1u32.to_be_bytes()).unwrap();
    let bytes = ucd_writer::pack::unpack_bytes(packed);
    assert_eq!(bytes, b"YEO".to_vec());

    let mut writer2 = builder.from_writer();
    assert_eq!(
        writer2.codepoint_to_string("p", &vec![(1u32, "TOO WIDE!".to_string())]),
        Err(Error::StringTooLong)
    );
    assert_eq!(
        writer2.codepoint_to_string("p", &vec![(1u32, "A\u{0}B".to_string())]),
        Err(Error::StringContainsNul)
    );
}

#[test]
fn trie_set_table() {
    let mut builder = WriterBuilder::new("test");
    builder.trie_set(true);
    let mut writer = builder.from_writer();
    writer.ranges("t", &vec![65u32]).unwrap();
    let out = text(writer.output());
    assert!(out.contains("pub const T: &'static ::ucd_trie::TrieSet = &::ucd_trie::TrieSet {"));
    assert!(out.contains("tree1_level1: &["));
    // Codepoint 65 sets bit 1 of the second 64-bit word of the first level.
    assert!(out.contains("0, 0x2,"));
}

#[test]
fn dfa_artifacts_and_loader() {
    let mut builder = WriterBuilder::new("test");
    builder.dfa_output(true);
    let mut writer = builder.from_writer();
    let fwd = ucd_writer::dfa::DfaBytes {
        big_endian: vec![1, 2],
        little_endian: vec![2, 1],
        state_id_bytes: 2,
    };
    writer.dense_dfa("MY_DFA", &fwd).unwrap();
    let out = text(writer.output());
    assert!(out.contains("#[cfg(target_endian = \"big\")]"));
    assert!(out.contains("#[cfg(target_endian = \"little\")]"));
    assert!(out.contains(
        "pub static MY_DFA: ::once_cell::sync::Lazy<::regex_automata::DenseDFA<&'static [u16], u16>> ="
    ));
    assert!(out.contains("_align: [u16; 0],"));
    assert!(out.contains("include_bytes!(\"my_dfa.bigendian.dfa\")"));
    assert!(out.contains("include_bytes!(\"my_dfa.littleendian.dfa\")"));
    let artifacts = writer.artifacts();
    assert_eq!(artifacts.len(), 2);
    assert_eq!(artifacts[0].0, b"my_dfa.bigendian.dfa".to_vec());
    assert_eq!(artifacts[0].1, vec![1, 2]);
    assert_eq!(artifacts[1].1, vec![2, 1]);

    let bad = ucd_writer::dfa::DfaBytes {
        big_endian: vec![],
        little_endian: vec![],
        state_id_bytes: 3,
    };
    let mut writer2 = builder.from_writer();
    assert_eq!(writer2.dense_dfa("x", &bad), Err(Error::UnsupportedStateIdSize));
}

#[test]
fn regex_artifacts() {
    let mut builder = WriterBuilder::new("test");
    builder.dfa_output(true);
    let mut writer = builder.from_writer();
    let mk = |b: u8| ucd_writer::dfa::DfaBytes {
        big_endian: vec![b],
        little_endian: vec![b + 1],
        state_id_bytes: 1,
    };
    let re = ucd_writer::dfa::RegexBytes { forward: mk(10), reverse: mk(20) };
    writer.sparse_regex("RE", &re).unwrap();
    let out = text(writer.output());
    assert!(out.contains(
        "pub static RE: ::once_cell::sync::Lazy<::regex_automata::Regex<::regex_automata::SparseDFA<&'static [u8], u8>> ="
    ) || out.contains("Regex<::regex_automata::SparseDFA<&'static [u8], u8>>"));
    assert!(out.contains("::regex_automata::Regex::from_dfas(fwd, rev)"));
    let names: Vec<_> = writer.artifacts().iter().map(|a| a.0.clone()).collect();
    assert_eq!(
        names,
        vec![
            b"re.fwd.bigendian.dfa".to_vec(),
            b"re.rev.bigendian.dfa".to_vec(),
            b"re.fwd.littleendian.dfa".to_vec(),
            b"re.rev.littleendian.dfa".to_vec(),
        ]
    );
}

#[test]
fn identifier_transforms() {
    assert_eq!(ucd_writer::ident::rust_const_name("Age.V1"), "AGE_V1");
    assert_eq!(ucd_writer::ident::rust_module_name("My Set"), "my set");
    assert_eq!(ucd_writer::ident::rust_fn_name("To Other.x"), "to_other_x");
}

#[test]
fn names_sorted_by_writer() {
    let builder = WriterBuilder::new("test");
    let mut writer = builder.from_writer();
    writer
        .names(&vec!["Beta".to_string(), "Alpha".to_string(), "Alpha".to_string()])
        .unwrap();
    let out = text(writer.output());
    assert!(out.contains("(\"Alpha\", ALPHA), (\"Alpha\", ALPHA), (\"Beta\", BETA),"));
}

#[test]
fn identifier_transforms_keep_non_ascii() {
    // Bytes above the ASCII range pass through unchanged; only ASCII
    // letters change case and only ASCII separators split words.
    assert_eq!(ucd_writer::ident::rust_const_name("Café.V1"), "CAFé_V1");
    assert_eq!(ucd_writer::ident::rust_type_name("naïve name"), "NaïveName");
    assert_eq!(ucd_writer::ident::rust_fn_name("A é B"), "a_é_b");
}

#[test]
fn char_literals_use_debug_formatting() {
    let mut builder = WriterBuilder::new("test");
    builder.char_literals(true);
    let mut writer = builder.from_writer();
    writer.ranges("d", &vec![0x7F, 0xE9]).unwrap();
    let out = text(writer.output());
    // Rendering follows Rust's Debug formatting: lowercase hex escapes
    // for non-printable characters, printable non-ASCII kept verbatim.
    assert!(out.contains("('\\u{7f}', '\\u{7f}'),"));
    assert!(out.contains("('é', 'é'),"));
}
