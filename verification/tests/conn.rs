//! The connection engine: request flow, multiplexing, close, timeouts.

use tarantool::conn::{Conn, ConnOptions, Options};
use tarantool::error::Error;
use tarantool::msgpack::{enc_array_header, enc_map_header, enc_str_bytes, enc_uint};
use tarantool::protocol::Response;
use tarantool::schema::{Addr, SchemaRegistry};
use tarantool::state::{ConnEvent, ConnState};
use tarantool::util::Value;

fn default_options() -> ConnOptions {
    ConnOptions::default()
}

/// A connection driven to the active state.
fn active_conn(registry: &mut SchemaRegistry) -> Conn {
    let addrs = vec![Addr { host: b"db".to_vec(), port: 3301 }];
    let mut conn = Conn::new(addrs, default_options(), registry);
    assert_eq!(conn.state, ConnState::Connecting);
    conn.on_connected();
    assert_eq!(conn.state, ConnState::FetchSchema);
    conn.advance(ConnEvent::SchemaLoaded);
    assert_eq!(conn.state, ConnState::Active);
    conn
}

/// A response frame: header (code, sync, schema version), then the body.
fn frame(code: u64, sync: u64, schema_version: u64, body: &[u8]) -> Vec<u8> {
    let mut b: Vec<u8> = Vec::new();
    enc_map_header(&mut b, 3);
    enc_uint(&mut b, 0x00);
    enc_uint(&mut b, code);
    enc_uint(&mut b, 0x01);
    enc_uint(&mut b, sync);
    enc_uint(&mut b, 0x05);
    enc_uint(&mut b, schema_version);
    b.extend_from_slice(body);
    b
}

/// An empty body map.
fn empty_body() -> Vec<u8> {
    vec![0x80]
}

/// A data body holding the given already-encoded rows.
fn data_body(rows: &[Vec<u8>]) -> Vec<u8> {
    let mut b: Vec<u8> = Vec::new();
    enc_map_header(&mut b, 1);
    enc_uint(&mut b, 0x30);
    enc_array_header(&mut b, rows.len());
    for r in rows {
        b.extend_from_slice(r);
    }
    b
}

#[test]
fn ping_on_healthy_connection_succeeds_with_no_body() {
    let mut registry = SchemaRegistry::new();
    let mut conn = active_conn(&mut registry);
    let tok = conn.ping(&Options::default()).expect("usable connection");
    let out = conn.take_output();
    assert_eq!(out, vec![0x06, 0x82, 0x00, 0x40, 0x01, 0x00, 0x80]);
    let resp = frame(0, tok.sync, 1, &empty_body());
    let outcome = conn.process_frame(&resp).expect("well-formed frame");
    assert!(outcome.delivered);
    assert_eq!(conn.try_result(&tok), Some(Ok(Response::Empty)));
    assert_eq!(conn.try_result(&tok), None);
}

#[test]
fn responses_route_by_correlation_id_under_reordering() {
    let mut registry = SchemaRegistry::new();
    let mut conn = active_conn(&mut registry);
    let args: Vec<Value> = Vec::new();
    let t1 = conn.call("first", &args, &Options::default()).expect("usable");
    let t2 = conn.call("second", &args, &Options::default()).expect("usable");
    assert_ne!(t1.sync, t2.sync);

    // the second response arrives first
    let row2 = {
        let mut b: Vec<u8> = Vec::new();
        enc_array_header(&mut b, 1);
        enc_uint(&mut b, 22);
        b
    };
    let row1 = {
        let mut b: Vec<u8> = Vec::new();
        enc_array_header(&mut b, 1);
        enc_uint(&mut b, 11);
        b
    };
    conn.process_frame(&frame(0, t2.sync, 1, &data_body(&[row2.clone()])))
        .expect("well-formed frame");
    conn.process_frame(&frame(0, t1.sync, 1, &data_body(&[row1.clone()])))
        .expect("well-formed frame");

    match conn.try_result(&t1) {
        Some(Ok(Response::Row(Some(t)))) => assert_eq!(t.data, row1),
        other => panic!("first caller got {:?}", other),
    }
    match conn.try_result(&t2) {
        Some(Ok(Response::Row(Some(t)))) => assert_eq!(t.data, row2),
        other => panic!("second caller got {:?}", other),
    }
}

#[test]
fn close_fails_all_pending_once_and_twice_is_noop() {
    let mut registry = SchemaRegistry::new();
    let mut conn = active_conn(&mut registry);
    let args: Vec<Value> = Vec::new();
    let t1 = conn.call("a", &args, &Options::default()).expect("usable");
    let t2 = conn.eval("return 1", &args, &Options::default()).expect("usable");
    conn.close();
    assert_eq!(conn.state, ConnState::Closed);
    assert!(!conn.is_connected());
    assert_eq!(conn.try_result(&t1), Some(Err(Error::NotConnected)));
    assert_eq!(conn.try_result(&t2), Some(Err(Error::NotConnected)));
    conn.close();
    assert_eq!(conn.state, ConnState::Closed);
    assert_eq!(conn.ping(&Options::default()), Err(Error::NotConnected));
}

#[test]
fn timed_out_request_is_removed_and_stray_response_discarded() {
    let mut registry = SchemaRegistry::new();
    let mut conn = active_conn(&mut registry);
    let tok = conn.ping(&Options::default()).expect("usable");
    // the deadline elapses: the driver abandons the entry and reports a
    // timeout to the caller
    conn.abandon(&tok);
    assert_eq!(conn.try_result(&tok), None);
    // the response arrives late: nobody is resurrected
    let outcome = conn
        .process_frame(&frame(0, tok.sync, 1, &empty_body()))
        .expect("well-formed frame");
    assert!(!outcome.delivered);
    assert_eq!(conn.try_result(&tok), None);
}

#[test]
fn server_error_reaches_only_its_caller() {
    let mut registry = SchemaRegistry::new();
    let mut conn = active_conn(&mut registry);
    let args: Vec<Value> = Vec::new();
    let t1 = conn.call("bad", &args, &Options::default()).expect("usable");
    let t2 = conn.ping(&Options::default()).expect("usable");
    let mut err_body: Vec<u8> = Vec::new();
    enc_map_header(&mut err_body, 1);
    enc_uint(&mut err_body, 0x31);
    enc_str_bytes(&mut err_body, &b"no such function".to_vec());
    conn.process_frame(&frame(0x8000 + 33, t1.sync, 1, &err_body))
        .expect("well-formed frame");
    conn.process_frame(&frame(0, t2.sync, 1, &empty_body()))
        .expect("well-formed frame");
    assert_eq!(
        conn.try_result(&t1),
        Some(Err(Error::Server(33, b"no such function".to_vec())))
    );
    assert_eq!(conn.try_result(&t2), Some(Ok(Response::Empty)));
    assert!(conn.is_connected());
}

#[test]
fn malformed_frame_is_a_protocol_error() {
    let mut registry = SchemaRegistry::new();
    let mut conn = active_conn(&mut registry);
    let bad = vec![0xc1, 0x00];
    assert!(conn.process_frame(&bad).is_err());
}

#[test]
fn io_error_fails_pending_and_reconnect_policy_is_bounded() {
    let mut registry = SchemaRegistry::new();
    let addrs = vec![Addr { host: b"db".to_vec(), port: 3301 }];
    let mut options = ConnOptions::default();
    options.reconnect.interval_ms = Some(100);
    options.reconnect.max_attempts = Some(1);
    let mut conn = Conn::new(addrs, options, &mut registry);
    conn.on_connected();
    conn.advance(ConnEvent::SchemaLoaded);
    let tok = conn.ping(&Options::default()).expect("usable");
    conn.on_io_error();
    assert_eq!(conn.state, ConnState::ErrorReconnect);
    assert_eq!(conn.try_result(&tok), Some(Err(Error::NotConnected)));
    assert_eq!(conn.reconnect_tick(), Some(100));
    assert_eq!(conn.state, ConnState::Connecting);
    // no request is registered any more: the id counter starts the new
    // socket generation over
    assert_eq!(conn.send.next_sync, 0);
    conn.on_io_error();
    assert_eq!(conn.reconnect_tick(), None);
    assert_eq!(conn.state, ConnState::Error);
    assert_eq!(conn.ping(&Options::default()), Err(Error::NotConnected));
    // closing a terminally failed connection is a no-op
    conn.close();
    assert_eq!(conn.state, ConnState::Error);
}

#[test]
fn io_error_without_reconnect_policy_becomes_terminal() {
    let mut registry = SchemaRegistry::new();
    let addrs = vec![Addr { host: b"db".to_vec(), port: 3301 }];
    let mut conn = Conn::new(addrs, ConnOptions::default(), &mut registry);
    conn.on_io_error();
    assert_eq!(conn.state, ConnState::ErrorReconnect);
    assert_eq!(conn.reconnect_tick(), None);
    assert_eq!(conn.state, ConnState::Error);
}

#[test]
fn version_bump_triggers_refresh_and_lookup_succeeds() {
    // no space named "x" exists: lookups miss.  The server reports a
    // version bump in a response header; the engine records it, the driver
    // refreshes once, and the lookup then resolves without the caller ever
    // forcing a refresh.
    let mut registry = SchemaRegistry::new();
    let mut conn = active_conn(&mut registry);
    assert_eq!(conn.space(registry.get(conn.schema_id), "x"), None);

    let tok = conn.ping(&Options::default()).expect("usable");
    conn.process_frame(&frame(0, tok.sync, 12, &empty_body()))
        .expect("well-formed frame");
    assert!(conn.schema_needs_refresh(registry.get(conn.schema_id)));

    // the driver fetches the catalog and refreshes the shared cache
    let space_row = {
        let mut b: Vec<u8> = Vec::new();
        enc_array_header(&mut b, 3);
        enc_uint(&mut b, 513);
        enc_uint(&mut b, 1);
        enc_str_bytes(&mut b, &b"x".to_vec());
        b
    };
    let rows = vec![tarantool::protocol::Tuple { data: space_row }];
    let none: Vec<tarantool::protocol::Tuple> = Vec::new();
    let did = registry
        .refresh(conn.schema_id, Some(12), &rows, &none, 12)
        .expect("rows decode");
    assert!(did);
    assert!(!conn.schema_needs_refresh(registry.get(conn.schema_id)));
    assert_eq!(conn.space(registry.get(conn.schema_id), "x"), Some(513));
}

#[test]
fn execute_and_select_round_trip_rows() {
    let mut registry = SchemaRegistry::new();
    let mut conn = active_conn(&mut registry);
    let params = vec![Value::Num(1)];
    let t1 = conn
        .execute("SELECT 1", &params, &Options::default())
        .expect("usable");
    let key = vec![Value::Num(0)];
    let t2 = conn
        .select(280, 0, &key, u32::MAX, 0, tarantool::protocol::IteratorType::Gt)
        .expect("usable");
    let row = {
        let mut b: Vec<u8> = Vec::new();
        enc_array_header(&mut b, 1);
        enc_uint(&mut b, 7);
        b
    };
    conn.process_frame(&frame(0, t1.sync, 1, &data_body(&[row.clone()])))
        .expect("well-formed frame");
    conn.process_frame(&frame(0, t2.sync, 1, &data_body(&[row.clone()])))
        .expect("well-formed frame");
    for tok in [t1, t2] {
        match conn.try_result(&tok) {
            Some(Ok(Response::Rows(rows))) => {
                assert_eq!(rows.len(), 1);
                assert_eq!(rows[0].data, row);
            },
            other => panic!("got {:?}", other),
        }
    }
}

#[test]
fn async_forms_enqueue_like_blocking_forms() {
    let mut registry = SchemaRegistry::new();
    let mut conn = active_conn(&mut registry);
    let args: Vec<Value> = Vec::new();
    let t1 = conn.call_async("f", &args).expect("usable");
    let t2 = conn.eval_async("return 2", &args).expect("usable");
    assert_ne!(t1.sync, t2.sync);
    let row = {
        let mut b: Vec<u8> = Vec::new();
        enc_array_header(&mut b, 1);
        enc_uint(&mut b, 2);
        b
    };
    conn.process_frame(&frame(0, t2.sync, 1, &data_body(&[row.clone()])))
        .expect("well-formed frame");
    match conn.try_result(&t2) {
        Some(Ok(Response::Row(Some(t)))) => assert_eq!(t.data, row),
        other => panic!("got {:?}", other),
    }
    assert_eq!(conn.try_result(&t1), None);
}

#[test]
fn wait_connected_reports_lifecycle() {
    let mut registry = SchemaRegistry::new();
    let addrs = vec![Addr { host: b"db".to_vec(), port: 3301 }];
    let mut conn = Conn::new(addrs, ConnOptions::default(), &mut registry);
    assert_eq!(conn.wait_connected(), None);
    conn.on_connected();
    conn.advance(ConnEvent::SchemaLoaded);
    assert_eq!(conn.wait_connected(), Some(true));
    conn.close();
    assert_eq!(conn.wait_connected(), Some(false));
}

#[test]
fn auth_stage_is_entered_only_with_credentials() {
    let mut registry = SchemaRegistry::new();
    let addrs = vec![Addr { host: b"db".to_vec(), port: 3301 }];
    let mut options = ConnOptions::default();
    options.user = Some("admin".to_string());
    options.password = Some("pw".to_string());
    let mut conn = Conn::new(addrs, options, &mut registry);
    conn.on_connected();
    assert_eq!(conn.state, ConnState::Auth);
    conn.advance(ConnEvent::AuthSucceeded);
    assert_eq!(conn.state, ConnState::FetchSchema);
}
