//! Datetime byte layout and the small helper types.

use tarantool::datetime::{encode_datetime, Datetime};
use tarantool::util::{bytes_eq, IntoClones, NumOrStr, Value};

#[test]
fn bytes_roundtrip() {
    let dt = Datetime { secs: 1_700_000_000, nsecs: 123_456_789, tz_offset_minutes: -120 };
    let bytes = dt.as_bytes();
    assert_eq!(bytes.len(), 16);
    assert_eq!(Datetime::from_bytes(bytes), dt);
}

#[test]
fn negative_seconds_roundtrip() {
    let dt = Datetime { secs: -1, nsecs: 0, tz_offset_minutes: 0 };
    assert_eq!(Datetime::from_bytes(dt.as_bytes()), dt);
}

#[test]
fn known_byte_layout() {
    let dt = Datetime { secs: 0x0102030405060708, nsecs: 0x0a0b0c0d, tz_offset_minutes: 0x0102 };
    assert_eq!(
        dt.as_bytes(),
        [
            0x08, 0x07, 0x06, 0x05, 0x04, 0x03, 0x02, 0x01,
            0x0d, 0x0c, 0x0b, 0x0a,
            0x02, 0x01,
            0x00, 0x00,
        ]
    );
}

#[test]
fn try_from_slice_requires_exactly_sixteen_bytes() {
    let short = vec![0u8; 15];
    assert_eq!(Datetime::try_from_slice(&short), None);
    let exact = vec![0u8; 16];
    assert_eq!(
        Datetime::try_from_slice(&exact),
        Some(Datetime { secs: 0, nsecs: 0, tz_offset_minutes: 0 })
    );
    let long = vec![0u8; 17];
    assert_eq!(Datetime::try_from_slice(&long), None);
}

#[test]
fn extension_encoding_is_tagged() {
    let dt = Datetime { secs: 1, nsecs: 2, tz_offset_minutes: 3 };
    let mut buf: Vec<u8> = Vec::new();
    encode_datetime(&mut buf, &dt);
    assert_eq!(buf.len(), 18);
    assert_eq!(buf[0], 0xd8);
    assert_eq!(buf[1], 4);
    assert_eq!(&buf[2..], &dt.as_bytes());
}

#[test]
fn wire_record_carries_fields() {
    let dt = Datetime { secs: 9, nsecs: 8, tz_offset_minutes: 7 };
    let rec = dt.to_record();
    assert_eq!(rec.s, 9);
    assert_eq!(rec.n, 8);
    assert_eq!(rec.tz, 7);
    assert_eq!(rec.tzi, 0);
}

#[test]
fn byte_equality() {
    assert!(bytes_eq(&vec![1, 2, 3], &vec![1, 2, 3]));
    assert!(!bytes_eq(&vec![1, 2, 3], &vec![1, 2, 4]));
    assert!(!bytes_eq(&vec![1, 2], &vec![1, 2, 3]));
    assert!(bytes_eq(&Vec::new(), &Vec::new()));
}

#[test]
fn num_or_str_as_num() {
    assert_eq!(NumOrStr::Num(7).as_num(), Some(7));
    assert_eq!(NumOrStr::Str("seven".to_string()).as_num(), None);
}

#[test]
fn num_or_str_from_conversions() {
    assert_eq!(NumOrStr::from(7u32).as_num(), Some(7));
    let s = NumOrStr::from("seven".to_string());
    assert!(matches!(s, NumOrStr::Str(_)));
    assert_eq!(s.as_num(), None);
}

#[test]
fn into_clones_hands_out_copies() {
    let s = "abc".to_string();
    let (a, b, c): (String, String, String) = s.into_clones();
    assert_eq!(a, "abc");
    assert_eq!(b, "abc");
    assert_eq!(c, "abc");
    let n = 5u32;
    let (x, y): (u32, u32) = n.into_clones();
    assert_eq!((x, y), (5, 5));
}

#[test]
fn value_variants() {
    let vals = vec![Value::Num(1), Value::Str("s".to_string()), Value::Bool(false)];
    assert!(matches!(vals[0], Value::Num(1)));
    assert!(matches!(vals[2], Value::Bool(false)));
}
