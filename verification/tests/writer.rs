use ucd_writer::errors::{Error, ErrorKind};
use ucd_writer::ident::rust_type_name;
use ucd_writer::pack::{pack_str, unpack_bytes};
use ucd_writer::writer::WriterBuilder;

fn unpack_str(encoded: u64) -> String {
    let mut value = String::new();
    for b in unpack_bytes(encoded) {
        value.push(b as char);
    }
    value
}

#[test]
fn packed() {
    assert_eq!("G", unpack_str(pack_str("G").unwrap()));
    assert_eq!("GG", unpack_str(pack_str("GG").unwrap()));
    assert_eq!("YEO", unpack_str(pack_str("YEO").unwrap()));
    assert_eq!("ABCDEFGH", unpack_str(pack_str("ABCDEFGH").unwrap()));
    assert_eq!("", unpack_str(pack_str("").unwrap()));

    assert!(pack_str("ABCDEFGHI").is_err());
    assert!(pack_str("AB\x00CD").is_err());
}

#[test]
fn test_rust_type_name() {
    assert_eq!(&rust_type_name("simple"), "Simple");
    assert_eq!(&rust_type_name("SCRIPT"), "SCRIPT");
    assert_eq!(&rust_type_name("dot.separated"), "DotSeparated");
    assert_eq!(&rust_type_name("dash-separated"), "DashSeparated");
    assert_eq!(&rust_type_name("white \tspace"), "WhiteSpace");
    assert_eq!(&rust_type_name("snake_case"), "SnakeCase");
}

#[test]
fn codepoint_to_codepoint_fn_error() {
    let builder = WriterBuilder::new("test");
    let mut writer = builder.from_writer();

    // Ensure that a destination codepoint of zero is rejected.
    let map = vec![(1, 0)];
    match writer.codepoint_to_codepoint_fn("err", &map) {
        Err(err) => {
            let msg = err.message();
            assert!(msg.contains("destination codepoint must not be 0"))
        }
        res => panic!(
            "expected error matching, \
             'destination codepoint must not be 0' \
             got: {:?}",
            res
        ),
    }
}

#[test]
fn packed_error_kinds() {
    assert_eq!(pack_str("ABCDEFGHI").unwrap_err().kind(), ErrorKind::ValueTooWide);
    assert_eq!(
        pack_str("AB\x00CD").unwrap_err().kind(),
        ErrorKind::ValueContainsReservedByte
    );
    assert_eq!(pack_str("AB\x00CD").unwrap_err(), Error::StringContainsNul);
}
