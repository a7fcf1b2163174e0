//! Byte-level codec: exact encodings, decodings, and value skipping.

use tarantool::msgpack::{
    copy_range, dec_array_header, dec_map_header, dec_str_bytes, dec_uint, enc_array_header,
    enc_bool, enc_map_header, enc_nil, enc_str_bytes, enc_uint, skip_n_values, skip_value,
};

#[test]
fn uint_minimal_forms() {
    let mut buf: Vec<u8> = Vec::new();
    enc_uint(&mut buf, 0);
    enc_uint(&mut buf, 0x7f);
    enc_uint(&mut buf, 0x80);
    enc_uint(&mut buf, 0xff);
    enc_uint(&mut buf, 0x100);
    enc_uint(&mut buf, 0xffff);
    enc_uint(&mut buf, 0x10000);
    enc_uint(&mut buf, 0xffff_ffff);
    enc_uint(&mut buf, 0x1_0000_0000);
    assert_eq!(
        buf,
        vec![
            0x00,
            0x7f,
            0xcc, 0x80,
            0xcc, 0xff,
            0xcd, 0x01, 0x00,
            0xcd, 0xff, 0xff,
            0xce, 0x00, 0x01, 0x00, 0x00,
            0xce, 0xff, 0xff, 0xff, 0xff,
            0xcf, 0x00, 0x00, 0x00, 0x01, 0x00, 0x00, 0x00, 0x00,
        ]
    );
}

#[test]
fn uint_roundtrip() {
    for v in [0u64, 1, 0x7f, 0x80, 0xff, 0x100, 0xffff, 0x10000, 0xffff_ffff, 0x1_0000_0000, u64::MAX] {
        let mut buf: Vec<u8> = Vec::new();
        enc_uint(&mut buf, v);
        let (got, end) = dec_uint(&buf, 0).expect("uint must decode");
        assert_eq!(got, v);
        assert_eq!(end, buf.len());
    }
}

#[test]
fn uint_truncated_is_rejected() {
    let buf = vec![0xcd, 0x01];
    assert!(dec_uint(&buf, 0).is_none());
    let buf = vec![0xcf];
    assert!(dec_uint(&buf, 0).is_none());
    let empty: Vec<u8> = Vec::new();
    assert!(dec_uint(&empty, 0).is_none());
}

#[test]
fn uint_wrong_marker_is_rejected() {
    let buf = vec![0xa1, 0x61];
    assert!(dec_uint(&buf, 0).is_none());
}

#[test]
fn str_roundtrip() {
    let name: Vec<u8> = b"_vspace".to_vec();
    let mut buf: Vec<u8> = Vec::new();
    enc_str_bytes(&mut buf, &name);
    assert_eq!(buf[0], 0xa7);
    let (got, end) = dec_str_bytes(&buf, 0).expect("str must decode");
    assert_eq!(got, name);
    assert_eq!(end, buf.len());

    let long: Vec<u8> = vec![b'x'; 40];
    let mut buf2: Vec<u8> = Vec::new();
    enc_str_bytes(&mut buf2, &long);
    assert_eq!(buf2[0], 0xd9);
    assert_eq!(buf2[1], 40);
    let (got2, _) = dec_str_bytes(&buf2, 0).expect("str8 must decode");
    assert_eq!(got2, long);
}

#[test]
fn str_truncated_is_rejected() {
    let buf = vec![0xa5, b'a', b'b'];
    assert!(dec_str_bytes(&buf, 0).is_none());
}

#[test]
fn array_and_map_headers() {
    let mut buf: Vec<u8> = Vec::new();
    enc_array_header(&mut buf, 3);
    enc_map_header(&mut buf, 2);
    enc_array_header(&mut buf, 16);
    enc_map_header(&mut buf, 0x10000);
    assert_eq!(
        buf,
        vec![0x93, 0x82, 0xdc, 0x00, 0x10, 0xdf, 0x00, 0x01, 0x00, 0x00]
    );
    assert_eq!(dec_array_header(&buf, 0), Some((3, 1)));
    assert_eq!(dec_map_header(&buf, 1), Some((2, 2)));
    assert_eq!(dec_array_header(&buf, 2), Some((16, 5)));
    assert_eq!(dec_map_header(&buf, 5), Some((0x10000, 10)));
}

#[test]
fn skip_scalar_values() {
    let mut buf: Vec<u8> = Vec::new();
    enc_nil(&mut buf);
    enc_bool(&mut buf, true);
    enc_bool(&mut buf, false);
    enc_uint(&mut buf, 300);
    let p1 = skip_value(&buf, 0).expect("nil skips");
    assert_eq!(p1, 1);
    let p2 = skip_value(&buf, p1).expect("true skips");
    let p3 = skip_value(&buf, p2).expect("false skips");
    let p4 = skip_value(&buf, p3).expect("uint skips");
    assert_eq!(p4, buf.len());
}

#[test]
fn skip_nested_aggregate() {
    // [1, "ab", [2, 3], {4: 5}] followed by one trailing byte
    let mut buf: Vec<u8> = Vec::new();
    enc_array_header(&mut buf, 4);
    enc_uint(&mut buf, 1);
    enc_str_bytes(&mut buf, &b"ab".to_vec());
    enc_array_header(&mut buf, 2);
    enc_uint(&mut buf, 2);
    enc_uint(&mut buf, 3);
    enc_map_header(&mut buf, 1);
    enc_uint(&mut buf, 4);
    enc_uint(&mut buf, 5);
    let value_len = buf.len();
    buf.push(0x00);
    assert_eq!(skip_value(&buf, 0), Some(value_len));
}

#[test]
fn skip_float_and_ext_bytes() {
    // float32, float64 and a fixext16 are skipped by their fixed sizes
    let mut buf: Vec<u8> = vec![0xca, 1, 2, 3, 4];
    buf.extend_from_slice(&[0xcb, 1, 2, 3, 4, 5, 6, 7, 8]);
    buf.push(0xd8);
    buf.push(4);
    buf.extend_from_slice(&[0u8; 16]);
    let p1 = skip_value(&buf, 0).expect("float32 skips");
    assert_eq!(p1, 5);
    let p2 = skip_value(&buf, p1).expect("float64 skips");
    assert_eq!(p2, 14);
    let p3 = skip_value(&buf, p2).expect("fixext16 skips");
    assert_eq!(p3, buf.len());
}

#[test]
fn skip_rejects_reserved_marker_and_truncation() {
    let buf = vec![0xc1];
    assert!(skip_value(&buf, 0).is_none());
    let buf2 = vec![0x92, 0x01];
    assert!(skip_value(&buf2, 0).is_none());
    let buf3 = vec![0xa3, b'a'];
    assert!(skip_value(&buf3, 0).is_none());
}

#[test]
fn skip_counted_values() {
    let mut buf: Vec<u8> = Vec::new();
    enc_uint(&mut buf, 1);
    enc_uint(&mut buf, 2);
    enc_uint(&mut buf, 70000);
    assert_eq!(skip_n_values(&buf, 0, 3), Some(buf.len()));
    assert_eq!(skip_n_values(&buf, 0, 0), Some(0));
    assert!(skip_n_values(&buf, 0, 4).is_none());
}

#[test]
fn copy_range_extracts_bytes() {
    let buf = vec![1u8, 2, 3, 4, 5];
    assert_eq!(copy_range(&buf, 1, 4), vec![2, 3, 4]);
    assert_eq!(copy_range(&buf, 0, 0), Vec::<u8>::new());
}
