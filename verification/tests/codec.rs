//! Tests for the node-content codecs and byte-text helpers.

use selinur::codec::{bools_from_record, flag_byte, flag_of_byte, parse_policy_version};
use selinur::errors::Error;
use selinur::text::{compare_bytes, contains_nul, contains_subseq, Order};

#[test]
fn test_flag_byte_fuzz() {
    // Every byte value: only the two ASCII digits decode, to exactly
    // true or false; everything else is a protocol error carrying the
    // byte.
    for b in 0u8..=255u8 {
        let r = flag_of_byte(Some(b));
        match b {
            48 => assert_eq!(r.unwrap(), false),
            49 => assert_eq!(r.unwrap(), true),
            _ => assert!(matches!(r, Err(Error::BadFlagByte(x)) if x == b)),
        }
    }
}

#[test]
fn test_flag_eof_is_protocol_error() {
    assert!(matches!(flag_of_byte(None), Err(Error::TruncatedNode)));
}

#[test]
fn test_flag_byte_round_trip() {
    assert_eq!(flag_of_byte(Some(flag_byte(true))).unwrap(), true);
    assert_eq!(flag_of_byte(Some(flag_byte(false))).unwrap(), false);
    assert_eq!(flag_byte(true), b'1');
    assert_eq!(flag_byte(false), b'0');
}

#[test]
fn test_record_decoding() {
    assert_eq!(bools_from_record(b'1', b' ', b'0').unwrap(), (true, false));
    assert_eq!(bools_from_record(b'0', b' ', b'1').unwrap(), (false, true));
    // The separator byte is not validated.
    assert_eq!(bools_from_record(b'1', b'X', b'1').unwrap(), (true, true));
    // A bad current value is reported first.
    assert!(matches!(bools_from_record(b'2', b' ', b'9'), Err(Error::BadFlagByte(b'2'))));
    assert!(matches!(bools_from_record(b'0', b' ', b'9'), Err(Error::BadFlagByte(b'9'))));
}

#[test]
fn test_parse_policy_version() {
    assert_eq!(parse_policy_version(b"31").unwrap(), 31);
    assert_eq!(parse_policy_version(b"0").unwrap(), 0);
    assert_eq!(parse_policy_version(b"007").unwrap(), 7);
    assert_eq!(parse_policy_version(b"4294967295").unwrap(), 4294967295);
}

#[test]
fn test_parse_policy_version_rejects() {
    assert!(matches!(parse_policy_version(b""), Err(Error::BadVersionText)));
    assert!(matches!(parse_policy_version(b"3a"), Err(Error::BadVersionText)));
    assert!(matches!(parse_policy_version(b" 31"), Err(Error::BadVersionText)));
    assert!(matches!(parse_policy_version(b"31\n"), Err(Error::BadVersionText)));
    assert!(matches!(parse_policy_version(b"+31"), Err(Error::BadVersionText)));
    // One past the largest representable version.
    assert!(matches!(parse_policy_version(b"4294967296"), Err(Error::BadVersionText)));
    assert!(matches!(parse_policy_version(b"99999999999999999999"), Err(Error::BadVersionText)));
}

#[test]
fn test_contains_subseq() {
    assert!(contains_subseq(b"nodev\tselinuxfs\n", b"selinuxfs"));
    assert!(contains_subseq(b"selinuxfs", b"selinuxfs"));
    assert!(contains_subseq(b"abc", b""));
    assert!(!contains_subseq(b"", b"selinuxfs"));
    assert!(!contains_subseq(b"nodev\tselinux\nfs\n", b"selinuxfs"));
    assert!(!contains_subseq(b"selinuxf", b"selinuxfs"));
}

#[test]
fn test_compare_bytes() {
    assert!(matches!(compare_bytes(b"alpha", b"beta"), Order::Less));
    assert!(matches!(compare_bytes(b"beta", b"alpha"), Order::Greater));
    assert!(matches!(compare_bytes(b"alpha", b"alpha"), Order::Equal));
    // A proper prefix comes first.
    assert!(matches!(compare_bytes(b"alp", b"alpha"), Order::Less));
    assert!(matches!(compare_bytes(b"alpha", b"alp"), Order::Greater));
    assert!(matches!(compare_bytes(b"", b"a"), Order::Less));
    assert!(matches!(compare_bytes(b"", b""), Order::Equal));
}

#[test]
fn test_contains_nul() {
    assert!(contains_nul(b"a\0b"));
    assert!(contains_nul(b"\0"));
    assert!(!contains_nul(b"ab"));
    assert!(!contains_nul(b""));
}
