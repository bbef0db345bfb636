//! The tree renderer and the error display contract, on concrete trees.

use rshark::Error;
use rshark::Val;

#[test]
fn unsigned_hex_renders_with_prefix() {
    let v = Val::unsigned(255u64, 16).unwrap();
    assert_eq!(v.pretty_print(0), "0xff");
}

#[test]
fn unsigned_binary_renders_bare_digits() {
    let v = Val::base2(5u8).unwrap();
    assert_eq!(v.pretty_print(0), "101");
}

#[test]
fn unsigned_decimal_renders_plain() {
    let v = Val::base10(42u32).unwrap();
    assert_eq!(v.pretty_print(0), "42");
}

#[test]
fn unsigned_hex_constructor() {
    let v = Val::base16(255u16).unwrap();
    assert_eq!(v.pretty_print(0), "0xff");
}

#[test]
fn unsigned_octal_renders() {
    let v = Val::unsigned(8u8, 8).unwrap();
    assert_eq!(v.pretty_print(0), "10");
}

#[test]
fn unsigned_unknown_radix_falls_back() {
    let v = Val::unsigned(255u8, 7).unwrap();
    assert_eq!(v.pretty_print(0), "255 (base 7)");
}

#[test]
fn unsigned_zero_renders() {
    let v = Val::unsigned(0u8, 10).unwrap();
    assert_eq!(v.pretty_print(0), "0");
}

#[test]
fn negative_input_cannot_become_unsigned() {
    match Val::unsigned(-1i8, 10) {
        Err(Error::InvalidData(m)) => assert_eq!(m, "Cannot convert -1 to u64"),
        other => panic!("expected InvalidData, got {:?}", other),
    }
}

#[test]
fn signed_renders_negative() {
    assert_eq!(Val::Signed(-42).pretty_print(0), "-42");
    assert_eq!(Val::Signed(7).pretty_print(0), "7");
    assert_eq!(Val::Signed(i64::MIN).pretty_print(0), "-9223372036854775808");
}

#[test]
fn enum_renders_value_and_label() {
    let v = Val::Enum(2, String::from("IPv4"));
    assert_eq!(v.pretty_print(0), "2 (IPv4)");
}

#[test]
fn string_renders_verbatim() {
    assert_eq!(Val::str("hello").pretty_print(0), "hello");
}

#[test]
fn address_renders_prepared_encoding() {
    let v = Val::Address { bytes: vec![127, 0, 0, 1], encoded: String::from("127.0.0.1") };
    assert_eq!(v.pretty_print(0), "127.0.0.1");
}

#[test]
fn bytes_render_two_hex_groups() {
    let v = Val::Bytes(vec![0xDE, 0xAD]);
    assert_eq!(v.pretty_print(0), "2 B [ de ad ]");
}

#[test]
fn bytes_render_empty() {
    assert_eq!(Val::Bytes(vec![]).pretty_print(0), "0 B [ ]");
}

#[test]
fn bytes_render_exactly_sixteen_without_ellipsis() {
    let data: Vec<u8> = (0u8..16).collect();
    let v = Val::Bytes(data);
    assert_eq!(
        v.pretty_print(0),
        "16 B [ 00 01 02 03 04 05 06 07 08 09 0a 0b 0c 0d 0e 0f ]"
    );
}

#[test]
fn bytes_render_seventeen_with_ellipsis() {
    let data: Vec<u8> = (0u8..17).collect();
    let v = Val::Bytes(data);
    assert_eq!(
        v.pretty_print(0),
        "17 B [ 00 01 02 03 04 05 06 07 08 09 0a 0b 0c 0d 0e 0f ... ]"
    );
}

#[test]
fn warning_renders_with_marker() {
    let v = Val::Warning(Error::InvalidData(String::from("bad checksum")));
    assert_eq!(v.pretty_print(0), "Warning: invalid data: bad checksum");
}

#[test]
fn error_renders_with_marker() {
    let v = Val::Error(Error::InvalidData(String::from("truncated")));
    assert_eq!(v.pretty_print(0), "Error: invalid data: truncated");
}

#[test]
fn underflow_message_names_subject_and_sizes() {
    let r: Result<Val, Error> = Error::underflow(4, 2, "length field");
    match r {
        Err(e) => assert_eq!(e.message(), "underflow: length field expected 4 B, have 2"),
        Ok(_) => panic!("underflow must build an Err outcome"),
    }
}

#[test]
fn inval_message_renders_verbatim() {
    let r: Result<Val, Error> = Error::inval("oops");
    match r {
        Err(e) => assert_eq!(e.message(), "invalid data: oops"),
        Ok(_) => panic!("inval must build an Err outcome"),
    }
}

#[test]
fn subpacket_renders_one_line_per_child() {
    let v = Val::Subpacket(vec![
        ("a", Ok(Val::Signed(1))),
        ("b", Ok(Val::str("x"))),
    ]);
    assert_eq!(v.pretty_print(0), "\n  a: 1\n  b: x");
}

#[test]
fn subpacket_nested_indents_two_spaces_per_level() {
    let inner = Val::Subpacket(vec![("f", Ok(Val::Signed(7)))]);
    let outer = Val::Subpacket(vec![("inner", Ok(inner))]);
    assert_eq!(outer.pretty_print(0), "\n  inner: \n    f: 7");
}

#[test]
fn subpacket_renders_at_requested_level() {
    let v = Val::Subpacket(vec![("a", Ok(Val::Signed(1)))]);
    assert_eq!(v.pretty_print(1), "\n    a: 1");
}

#[test]
fn subpacket_empty_is_bare_header() {
    assert_eq!(Val::Subpacket(vec![]).pretty_print(0), "\n");
}

#[test]
fn failing_field_is_contained_among_siblings() {
    let v = Val::Subpacket(vec![
        ("a", Ok(Val::Signed(1))),
        ("bad", Err(Error::InvalidData(String::from("broken")))),
        ("c", Ok(Val::Signed(2))),
    ]);
    let text = v.pretty_print(0);
    assert_eq!(
        text,
        "\n  a: 1\n  bad: << Error: invalid data: broken >>\n  c: 2"
    );
    assert_eq!(text.matches('\n').count(), 3);
}
