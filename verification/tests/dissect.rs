//! The fallback dissector: names, verbatim raw-bytes trees, and the
//! rendering of what it produces.

use rshark::Protocol;
use rshark::RawBytes;
use rshark::Val;

#[test]
fn fallback_names_are_kept() {
    let d = RawBytes::boxed("RAW", "Raw bytes");
    assert_eq!(d.short_name(), "RAW");
    assert_eq!(d.full_name(), "Raw bytes");
}

#[test]
fn unknown_protocol_uses_sentinel_short_name() {
    let d = RawBytes::unknown_protocol("protocol 0x9999");
    assert_eq!(d.short_name(), "UNKNOWN");
    assert_eq!(d.full_name(), "protocol 0x9999");
}

#[test]
fn fallback_wraps_input_verbatim() {
    let d = RawBytes::boxed("RAW", "Raw bytes");
    let tree = d.dissect(&[0xDE, 0xAD]).unwrap();
    match tree {
        Val::Subpacket(children) => {
            assert_eq!(children.len(), 1);
            let (name, outcome) = &children[0];
            assert_eq!(*name, "raw data");
            match outcome {
                Ok(Val::Bytes(bytes)) => assert_eq!(bytes, &vec![0xDE, 0xAD]),
                other => panic!("expected raw bytes child, got {:?}", other),
            }
        },
        other => panic!("expected a subpacket, got {:?}", other),
    }
}

#[test]
fn fallback_accepts_empty_input() {
    let d = RawBytes::boxed("RAW", "Raw bytes");
    let tree = d.dissect(&[]).unwrap();
    match tree {
        Val::Subpacket(children) => {
            assert_eq!(children.len(), 1);
            let (name, outcome) = &children[0];
            assert_eq!(*name, "raw data");
            match outcome {
                Ok(Val::Bytes(bytes)) => assert!(bytes.is_empty()),
                other => panic!("expected raw bytes child, got {:?}", other),
            }
        },
        other => panic!("expected a subpacket, got {:?}", other),
    }
}

#[test]
fn fallback_tree_renders_two_lines() {
    let d = RawBytes::boxed("RAW", "Raw bytes");
    let tree = d.dissect(&[0xDE, 0xAD]).unwrap();
    assert_eq!(tree.pretty_print(0), "\n  raw data: 2 B [ de ad ]");
}
