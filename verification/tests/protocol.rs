//! Request encoding and response decoding at the protocol level.

use tarantool::error::{Error, ProtocolError};
use tarantool::msgpack::{enc_array_header, enc_map_header, enc_str_bytes, enc_uint};
use tarantool::protocol::{
    decode_call, decode_error, decode_header, decode_multiple_rows, encode_call, encode_ping,
    encode_select, frame_length, IteratorType, Tuple,
};
use tarantool::util::Value;

/// Header map of a response: status code, correlation id, schema version.
fn response_header(code: u64, sync: u64, schema_version: u64) -> Vec<u8> {
    let mut b: Vec<u8> = Vec::new();
    enc_map_header(&mut b, 3);
    enc_uint(&mut b, 0x00);
    enc_uint(&mut b, code);
    enc_uint(&mut b, 0x01);
    enc_uint(&mut b, sync);
    enc_uint(&mut b, 0x05);
    enc_uint(&mut b, schema_version);
    b
}

/// One catalog row [id, owner, name] as its raw bytes.
fn catalog_row(id: u64, owner: u64, name: &[u8]) -> Vec<u8> {
    let mut b: Vec<u8> = Vec::new();
    enc_array_header(&mut b, 3);
    enc_uint(&mut b, id);
    enc_uint(&mut b, owner);
    enc_str_bytes(&mut b, &name.to_vec());
    b
}

/// A data body holding the given already-encoded rows.
fn data_body(rows: &[Vec<u8>]) -> Vec<u8> {
    let mut b: Vec<u8> = Vec::new();
    enc_map_header(&mut b, 1);
    enc_uint(&mut b, 0x30);
    enc_array_header(&mut b, rows.len());
    for r in rows {
        b.extend_from_slice(r);
    }
    b
}

#[test]
fn ping_request_bytes() {
    let mut buf: Vec<u8> = Vec::new();
    encode_ping(&mut buf, 5);
    assert_eq!(buf, vec![0x06, 0x82, 0x00, 0x40, 0x01, 0x05, 0x80]);
}

#[test]
fn select_request_bytes() {
    // select on space 280, index 0, key (0,), iterator GT, limit u32::MAX,
    // offset 0
    let key = vec![Value::Num(0)];
    let mut buf: Vec<u8> = Vec::new();
    encode_select(&mut buf, 7, 280, 0, u32::MAX, 0, IteratorType::Gt, &key);
    assert_eq!(
        buf,
        vec![
            0x19,
            0x82, 0x00, 0x01, 0x01, 0x07,
            0x86,
            0x10, 0xcd, 0x01, 0x18,
            0x11, 0x00,
            0x12, 0xce, 0xff, 0xff, 0xff, 0xff,
            0x13, 0x00,
            0x14, 0x06,
            0x20, 0x91, 0x00,
        ]
    );
}

#[test]
fn call_request_bytes() {
    let args = vec![Value::Str("a".to_string()), Value::Bool(true)];
    let mut buf: Vec<u8> = Vec::new();
    encode_call(&mut buf, 1, "f", &args);
    assert_eq!(
        buf,
        vec![
            0x0e,
            0x82, 0x00, 0x0a, 0x01, 0x01,
            0x82,
            0x22, 0xa1, b'f',
            0x21, 0x92, 0xa1, b'a', 0xc3,
        ]
    );
}

#[test]
fn header_roundtrip_reports_server_schema_version() {
    let b = response_header(0, 42, 117);
    let (h, p) = decode_header(&b, 0).expect("header decodes");
    assert_eq!(h.sync, 42);
    assert_eq!(h.schema_version, 117);
    assert_eq!(h.code, 0);
    assert!(!h.is_error());
    assert_eq!(p, b.len());
}

#[test]
fn header_with_unknown_key_is_skipped() {
    let mut b: Vec<u8> = Vec::new();
    enc_map_header(&mut b, 4);
    enc_uint(&mut b, 0x00);
    enc_uint(&mut b, 0);
    enc_uint(&mut b, 0x06);
    enc_uint(&mut b, 999);
    enc_uint(&mut b, 0x01);
    enc_uint(&mut b, 9);
    enc_uint(&mut b, 0x05);
    enc_uint(&mut b, 3);
    let (h, _) = decode_header(&b, 0).expect("header decodes");
    assert_eq!(h.sync, 9);
    assert_eq!(h.schema_version, 3);
}

#[test]
fn header_missing_field_is_malformed() {
    let mut b: Vec<u8> = Vec::new();
    enc_map_header(&mut b, 2);
    enc_uint(&mut b, 0x00);
    enc_uint(&mut b, 0);
    enc_uint(&mut b, 0x01);
    enc_uint(&mut b, 9);
    assert_eq!(
        decode_header(&b, 0),
        Err(Error::Protocol(ProtocolError::Malformed))
    );
}

#[test]
fn rows_decode_in_order() {
    let r1 = catalog_row(512, 1, b"users");
    let r2 = catalog_row(513, 1, b"orders");
    let body = data_body(&[r1.clone(), r2.clone()]);
    let rows = decode_multiple_rows(&body, 0).expect("rows decode");
    assert_eq!(rows.len(), 2);
    assert_eq!(rows[0].data, r1);
    assert_eq!(rows[1].data, r2);
}

#[test]
fn select_response_roundtrip() {
    // the response to the select of `select_request_bytes`: the header
    // carries the version the server reported; the body rows come back
    // exactly as the server encoded them
    let r1 = catalog_row(512, 1, b"users");
    let mut frame = response_header(0, 7, 90);
    let header_len = frame.len();
    frame.extend_from_slice(&data_body(&[r1.clone()]));
    let (h, p) = decode_header(&frame, 0).expect("header decodes");
    assert_eq!(p, header_len);
    assert_eq!(h.schema_version, 90);
    let rows = decode_multiple_rows(&frame, p).expect("rows decode");
    assert_eq!(rows.len(), 1);
    assert_eq!(rows[0].data, r1);
    let (id, owner, name) = rows[0].decode_triple().expect("row decodes");
    assert_eq!((id, owner), (512, 1));
    assert_eq!(name, b"users".to_vec());
}

#[test]
fn empty_call_result_is_none() {
    let body = data_body(&[]);
    assert_eq!(decode_call(&body, 0), Ok(None));
}

#[test]
fn call_result_returns_first_row() {
    let r1 = catalog_row(1, 2, b"x");
    let body = data_body(&[r1.clone()]);
    let row = decode_call(&body, 0).expect("call result decodes");
    assert_eq!(row, Some(Tuple { data: r1 }));
}

#[test]
fn error_body_decodes_message() {
    let mut body: Vec<u8> = Vec::new();
    enc_map_header(&mut body, 1);
    enc_uint(&mut body, 0x31);
    enc_str_bytes(&mut body, &b"Space not found".to_vec());
    assert_eq!(decode_error(&body, 0), Ok(b"Space not found".to_vec()));
}

#[test]
fn error_header_carries_code() {
    let b = response_header(0x8000 + 36, 4, 10);
    let (h, _) = decode_header(&b, 0).expect("header decodes");
    assert!(h.is_error());
    assert_eq!(h.error_code(), 36);
}

#[test]
fn body_without_data_key_is_malformed() {
    let mut body: Vec<u8> = Vec::new();
    enc_map_header(&mut body, 1);
    enc_uint(&mut body, 0x31);
    enc_str_bytes(&mut body, &b"boom".to_vec());
    assert_eq!(
        decode_multiple_rows(&body, 0),
        Err(Error::Protocol(ProtocolError::Malformed))
    );
}

#[test]
fn frame_length_asks_for_more_prefix_bytes() {
    assert_eq!(
        frame_length(&Vec::new()),
        Err(Error::Protocol(ProtocolError::Truncated))
    );
    assert_eq!(
        frame_length(&vec![0xce, 0x00]),
        Err(Error::Protocol(ProtocolError::Truncated))
    );
    assert_eq!(frame_length(&vec![0x2a]), Ok((42, 1)));
    assert_eq!(frame_length(&vec![0xcd, 0x01, 0x00, 0xff]), Ok((256, 3)));
    assert_eq!(
        frame_length(&vec![0x92, 0x01]),
        Err(Error::Protocol(ProtocolError::Malformed))
    );
}

#[test]
fn triple_rejects_short_row() {
    let mut b: Vec<u8> = Vec::new();
    enc_array_header(&mut b, 2);
    enc_uint(&mut b, 1);
    enc_uint(&mut b, 2);
    let t = Tuple { data: b };
    assert_eq!(
        t.decode_triple(),
        Err(Error::Protocol(ProtocolError::Malformed))
    );
}
