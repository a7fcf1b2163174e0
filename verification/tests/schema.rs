//! Schema cache: lookups, refresh policy, and the shared registry.

use tarantool::msgpack::{enc_array_header, enc_str_bytes, enc_uint};
use tarantool::protocol::Tuple;
use tarantool::schema::{Addr, ConnSchema, RefreshPlan, SchemaRegistry};

/// One catalog row [id, owner, name] as a tuple.
fn row(id: u64, owner: u64, name: &[u8]) -> Tuple {
    let mut b: Vec<u8> = Vec::new();
    enc_array_header(&mut b, 3);
    enc_uint(&mut b, id);
    enc_uint(&mut b, owner);
    enc_str_bytes(&mut b, &name.to_vec());
    Tuple { data: b }
}

fn addr(host: &[u8], port: u16) -> Addr {
    Addr { host: host.to_vec(), port }
}

#[test]
fn lookup_misses_before_any_refresh() {
    let schema = ConnSchema::new();
    assert_eq!(schema.lookup_space("x"), None);
    assert_eq!(schema.lookup_index("primary", 512), None);
}

#[test]
fn update_fills_both_maps() {
    let mut schema = ConnSchema::new();
    let spaces = vec![row(512, 1, b"users"), row(513, 1, b"x")];
    let indexes = vec![row(512, 0, b"primary"), row(512, 1, b"by_name")];
    schema.update(&spaces, &indexes, 8).expect("rows decode");
    assert_eq!(schema.lookup_space("users"), Some(512));
    assert_eq!(schema.lookup_space("x"), Some(513));
    assert_eq!(schema.lookup_space("orders"), None);
    assert_eq!(schema.lookup_index("primary", 512), Some(0));
    assert_eq!(schema.lookup_index("by_name", 512), Some(1));
    assert_eq!(schema.lookup_index("primary", 513), None);
    assert_eq!(schema.version, Some(8));
}

#[test]
fn update_replaces_maps_in_full() {
    let mut schema = ConnSchema::new();
    schema
        .update(&vec![row(512, 1, b"old")], &Vec::new(), 1)
        .expect("rows decode");
    schema
        .update(&vec![row(600, 1, b"new")], &Vec::new(), 2)
        .expect("rows decode");
    assert_eq!(schema.lookup_space("old"), None);
    assert_eq!(schema.lookup_space("new"), Some(600));
}

#[test]
fn update_rejects_bad_row_and_keeps_cache() {
    let mut schema = ConnSchema::new();
    schema
        .update(&vec![row(512, 1, b"users")], &Vec::new(), 1)
        .expect("rows decode");
    let bad = Tuple { data: vec![0xc1] };
    assert_eq!(schema.plan_refresh(Some(2)), RefreshPlan::Fetch);
    assert!(schema.is_updating);
    assert!(schema.update(&vec![bad], &Vec::new(), 2).is_err());
    assert_eq!(schema.lookup_space("users"), Some(512));
    assert_eq!(schema.version, Some(1));
    // the failure leaves no refresh looking in flight
    assert!(!schema.is_updating);
}

#[test]
fn refresh_plan_is_single_flight() {
    let mut schema = ConnSchema::new();
    schema.update(&Vec::new(), &Vec::new(), 5).expect("rows decode");
    // current cache: nothing to do
    assert_eq!(schema.plan_refresh(Some(5)), RefreshPlan::Current);
    assert!(!schema.is_updating);
    // stale and idle: this caller fetches and holds the flag
    assert_eq!(schema.plan_refresh(Some(6)), RefreshPlan::Fetch);
    assert!(schema.is_updating);
    // stale while a fetch is in flight: wait for it, no second reload
    assert_eq!(schema.plan_refresh(Some(6)), RefreshPlan::Wait);
    // the fetch fails: the flag is released, the next observer may fetch
    schema.abort_refresh();
    assert_eq!(schema.plan_refresh(Some(6)), RefreshPlan::Fetch);
    // the fetch succeeds: update records the version and releases the flag
    schema
        .update(&Vec::new(), &Vec::new(), 6)
        .expect("rows decode");
    assert!(!schema.is_updating);
    assert_eq!(schema.plan_refresh(Some(6)), RefreshPlan::Current);
}

#[test]
fn outdated_policy() {
    let mut schema = ConnSchema::new();
    assert!(schema.is_outdated(None));
    assert!(schema.is_outdated(Some(5)));
    schema.update(&Vec::new(), &Vec::new(), 5).expect("rows decode");
    assert!(!schema.is_outdated(Some(5)));
    assert!(!schema.is_outdated(Some(4)));
    assert!(schema.is_outdated(Some(6)));
    assert!(schema.is_outdated(None));
}

#[test]
fn one_refresh_serves_all_observers() {
    // many callers observe version 9 against an empty cache; the first
    // refresh reloads, every later double-check finds the cache current
    let mut schema = ConnSchema::new();
    let spaces = vec![row(513, 1, b"x")];
    let none: Vec<Tuple> = Vec::new();
    let first = schema
        .refresh(Some(9), &spaces, &none, 9)
        .expect("rows decode");
    assert!(first);
    for _ in 0..10 {
        let again = schema
            .refresh(Some(9), &spaces, &none, 9)
            .expect("rows decode");
        assert!(!again);
    }
    assert_eq!(schema.lookup_space("x"), Some(513));
}

#[test]
fn fetch_requests_are_selects_on_the_catalog() {
    let mut spaces_req: Vec<u8> = Vec::new();
    ConnSchema::fetch_schema_spaces(&mut spaces_req, 3);
    // header: select under sync 3; body: space 280, index 0, key (0,),
    // full limit, offset 0, iterator GT
    assert_eq!(
        spaces_req,
        vec![
            0x19,
            0x82, 0x00, 0x01, 0x01, 0x03,
            0x86,
            0x10, 0xcd, 0x01, 0x18,
            0x11, 0x00,
            0x12, 0xce, 0xff, 0xff, 0xff, 0xff,
            0x13, 0x00,
            0x14, 0x06,
            0x20, 0x91, 0x00,
        ]
    );
    // the fetch is exactly the select any caller could encode with the
    // same parameters
    let key = vec![tarantool::util::Value::Num(0)];
    let mut same: Vec<u8> = Vec::new();
    tarantool::protocol::encode_select(
        &mut same,
        3,
        280,
        0,
        u32::MAX,
        0,
        tarantool::protocol::IteratorType::Gt,
        &key,
    );
    assert_eq!(spaces_req, same);

    let mut index_req: Vec<u8> = Vec::new();
    ConnSchema::fetch_schema_indexes(&mut index_req, 4);
    assert_eq!(
        index_req,
        vec![
            0x18,
            0x82, 0x00, 0x01, 0x01, 0x04,
            0x86,
            0x10, 0xcd, 0x01, 0x20,
            0x11, 0x00,
            0x12, 0xce, 0xff, 0xff, 0xff, 0xff,
            0x13, 0x00,
            0x14, 0x02,
            0x20, 0x90,
        ]
    );
}

#[test]
fn registry_shares_by_address() {
    let mut registry = SchemaRegistry::new();
    let a = vec![addr(b"db1", 3301)];
    let b = vec![addr(b"db2", 3301), addr(b"db1", 3301)];
    let c = vec![addr(b"db3", 3301)];
    let id_a = registry.acquire(&a);
    let id_b = registry.acquire(&b);
    let id_c = registry.acquire(&c);
    assert_eq!(id_a, id_b);
    assert_ne!(id_a, id_c);
    let id_a2 = ConnSchema::acquire(&mut registry, &vec![addr(b"db1", 3301)]);
    assert_eq!(id_a, id_a2);
}

#[test]
fn registry_distinguishes_ports() {
    let mut registry = SchemaRegistry::new();
    let id1 = registry.acquire(&vec![addr(b"db", 3301)]);
    let id2 = registry.acquire(&vec![addr(b"db", 3302)]);
    assert_ne!(id1, id2);
}

#[test]
fn registry_refresh_updates_one_slot() {
    let mut registry = SchemaRegistry::new();
    let id1 = registry.acquire(&vec![addr(b"db1", 3301)]);
    let id2 = registry.acquire(&vec![addr(b"db2", 3301)]);
    let spaces = vec![row(513, 1, b"x")];
    let none: Vec<Tuple> = Vec::new();
    let did = registry
        .refresh(id1, Some(3), &spaces, &none, 3)
        .expect("rows decode");
    assert!(did);
    assert_eq!(registry.get(id1).lookup_space("x"), Some(513));
    assert_eq!(registry.get(id2).lookup_space("x"), None);
    assert!(!registry.is_outdated(id1, Some(3)));
    assert!(registry.is_outdated(id2, Some(3)));
}
