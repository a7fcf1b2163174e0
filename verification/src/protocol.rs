//! Typed requests and responses of the wire protocol.
//!
//! A request is one length-prefixed frame: a header map carrying the request
//! kind and the correlation id, then a body map carrying the typed fields of
//! the kind.  A response frame carries a header map (status code, correlation
//! id, schema version) and a body map holding either rows of data or an
//! error message.  Every encoder is specified down to the exact bytes; every
//! decoder is specified against the spec parsers of the byte codec.

use vstd::prelude::*;

use crate::error::{Error, ProtocolError};
use crate::msgpack::{
    copy_range, dec_array_header, dec_map_header, dec_str_bytes, dec_uint, enc_array_header,
    enc_bool, enc_map_header, enc_str_bytes, enc_uint, skip_value, spec_array_header, spec_bool,
    spec_map_header, spec_parse_array_header, spec_parse_map_header, spec_parse_str,
    spec_parse_uint, spec_skip, spec_str, spec_uint,
};
use crate::util::Value;
use vstd::utf8::encode_utf8;

verus! {

// Request kind codes.
pub const REQUEST_SELECT: u64 = 1;
pub const REQUEST_EVAL: u64 = 8;
pub const REQUEST_CALL: u64 = 10;
pub const REQUEST_EXECUTE: u64 = 11;
pub const REQUEST_PING: u64 = 64;

// Header field keys.
pub const KEY_REQUEST_TYPE: u64 = 0x00;
pub const KEY_SYNC: u64 = 0x01;
pub const KEY_SCHEMA_VERSION: u64 = 0x05;

// Body field keys.
pub const KEY_SPACE_ID: u64 = 0x10;
pub const KEY_INDEX_ID: u64 = 0x11;
pub const KEY_LIMIT: u64 = 0x12;
pub const KEY_OFFSET: u64 = 0x13;
pub const KEY_ITERATOR: u64 = 0x14;
pub const KEY_KEY: u64 = 0x20;
pub const KEY_TUPLE: u64 = 0x21;
pub const KEY_FUNCTION_NAME: u64 = 0x22;
pub const KEY_EXPR: u64 = 0x27;
pub const KEY_SQL_TEXT: u64 = 0x40;
pub const KEY_SQL_BIND: u64 = 0x41;
pub const KEY_DATA: u64 = 0x30;
pub const KEY_ERROR: u64 = 0x31;

/// A response status at or above this value reports a server error; the
/// error code is the offset above it.
pub const RESPONSE_ERROR_BASE: u64 = 0x8000;

/// One opaque row of a response: the raw bytes of a single encoded value,
/// handed through to the caller undecoded.
#[derive(Debug, Clone, PartialEq, Eq)]
pub struct Tuple {
    pub data: Vec<u8>,
}

impl View for Tuple {
    type V = Seq<u8>;

    open spec fn view(&self) -> Seq<u8> {
        self.data@
    }
}

/// The scan order of a select request.
#[derive(Debug, Clone, Copy, PartialEq, Eq, Structural)]
pub enum IteratorType {
    Eq,
    Req,
    All,
    Lt,
    Le,
    Ge,
    Gt,
}

impl IteratorType {
    /// The numeric code of this order on the wire.
    pub open spec fn spec_code(self) -> u64 {
        match self {
            IteratorType::Eq => 0,
            IteratorType::Req => 1,
            IteratorType::All => 2,
            IteratorType::Lt => 3,
            IteratorType::Le => 4,
            IteratorType::Ge => 5,
            IteratorType::Gt => 6,
        }
    }

    /// The numeric code of this order on the wire.
    pub fn code(self) -> (r: u64)
        ensures
            r == self.spec_code(),
    {
        match self {
            IteratorType::Eq => 0,
            IteratorType::Req => 1,
            IteratorType::All => 2,
            IteratorType::Lt => 3,
            IteratorType::Le => 4,
            IteratorType::Ge => 5,
            IteratorType::Gt => 6,
        }
    }
}

// ---------------------------------------------------------------------------
// Spec encodings of whole requests.
// ---------------------------------------------------------------------------

/// Bytes of one scalar argument.
pub open spec fn spec_value(v: Value) -> Seq<u8> {
    match v {
        Value::Num(n) => spec_uint(n as u64),
        Value::Str(s) => spec_str(encode_utf8(s@)),
        Value::Bool(b) => spec_bool(b),
    }
}

/// Bytes of a sequence of scalar arguments, in order.
pub open spec fn spec_values(vs: Seq<Value>) -> Seq<u8>
    decreases vs.len(),
{
    if vs.len() == 0 {
        Seq::empty()
    } else {
        spec_values(vs.drop_last()) + spec_value(vs.last())
    }
}

/// Bytes of an array of scalar arguments.
pub open spec fn spec_value_array(vs: Seq<Value>) -> Seq<u8> {
    spec_array_header(vs.len()) + spec_values(vs)
}

/// Whether one argument is encodable: its string form fits the length
/// prefix of the format.
pub open spec fn value_ok(v: Value) -> bool {
    v is Str ==> encode_utf8(v->Str_0@).len() < 0x100000000
}

/// Whether every argument of a sequence is encodable and the sequence
/// itself fits the array header.
pub open spec fn values_ok(vs: Seq<Value>) -> bool {
    &&& vs.len() < 0x100000000
    &&& forall|i: int| 0 <= i < vs.len() ==> value_ok(#[trigger] vs[i])
}

/// Bytes of a request header: a map of the request kind and correlation id.
pub open spec fn spec_request_header(kind: u64, sync: u64) -> Seq<u8> {
    spec_map_header(2) + spec_uint(KEY_REQUEST_TYPE) + spec_uint(kind) + spec_uint(KEY_SYNC)
        + spec_uint(sync)
}

/// Bytes of a whole frame around a payload: its length, then the payload.
pub open spec fn spec_frame(payload: Seq<u8>) -> Seq<u8> {
    spec_uint(payload.len() as u64) + payload
}

/// Bytes of a ping request: header and an empty body.
pub open spec fn spec_ping_request(sync: u64) -> Seq<u8> {
    spec_frame(spec_request_header(REQUEST_PING, sync) + spec_map_header(0))
}

/// Bytes of a call request body.
pub open spec fn spec_call_body(function_name: Seq<char>, args: Seq<Value>) -> Seq<u8> {
    spec_map_header(2) + spec_uint(KEY_FUNCTION_NAME) + spec_str(encode_utf8(function_name))
        + spec_uint(KEY_TUPLE) + spec_value_array(args)
}

/// Bytes of a call request.
pub open spec fn spec_call_request(sync: u64, function_name: Seq<char>, args: Seq<Value>) -> Seq<
    u8,
> {
    spec_frame(spec_request_header(REQUEST_CALL, sync) + spec_call_body(function_name, args))
}

/// Bytes of an eval request body.
pub open spec fn spec_eval_body(expression: Seq<char>, args: Seq<Value>) -> Seq<u8> {
    spec_map_header(2) + spec_uint(KEY_EXPR) + spec_str(encode_utf8(expression)) + spec_uint(
        KEY_TUPLE,
    ) + spec_value_array(args)
}

/// Bytes of an eval request.
pub open spec fn spec_eval_request(sync: u64, expression: Seq<char>, args: Seq<Value>) -> Seq<u8> {
    spec_frame(spec_request_header(REQUEST_EVAL, sync) + spec_eval_body(expression, args))
}

/// Bytes of a select request body.
pub open spec fn spec_select_body(
    space_id: u32,
    index_id: u32,
    limit: u32,
    offset: u32,
    iterator: IteratorType,
    key: Seq<Value>,
) -> Seq<u8> {
    spec_map_header(6) + spec_uint(KEY_SPACE_ID) + spec_uint(space_id as u64) + spec_uint(
        KEY_INDEX_ID,
    ) + spec_uint(index_id as u64) + spec_uint(KEY_LIMIT) + spec_uint(limit as u64) + spec_uint(
        KEY_OFFSET,
    ) + spec_uint(offset as u64) + spec_uint(KEY_ITERATOR) + spec_uint(iterator.spec_code())
        + spec_uint(KEY_KEY) + spec_value_array(key)
}

/// Bytes of a select request.
pub open spec fn spec_select_request(
    sync: u64,
    space_id: u32,
    index_id: u32,
    limit: u32,
    offset: u32,
    iterator: IteratorType,
    key: Seq<Value>,
) -> Seq<u8> {
    spec_frame(
        spec_request_header(REQUEST_SELECT, sync) + spec_select_body(
            space_id,
            index_id,
            limit,
            offset,
            iterator,
            key,
        ),
    )
}

/// Bytes of an execute request body.
pub open spec fn spec_execute_body(sql: Seq<char>, bind_params: Seq<Value>) -> Seq<u8> {
    spec_map_header(2) + spec_uint(KEY_SQL_TEXT) + spec_str(encode_utf8(sql)) + spec_uint(
        KEY_SQL_BIND,
    ) + spec_value_array(bind_params)
}

/// Bytes of an execute request.
pub open spec fn spec_execute_request(sync: u64, sql: Seq<char>, bind_params: Seq<Value>) -> Seq<
    u8,
> {
    spec_frame(spec_request_header(REQUEST_EXECUTE, sync) + spec_execute_body(sql, bind_params))
}

// ---------------------------------------------------------------------------
// Exec encoders.
// ---------------------------------------------------------------------------

/// Append the bytes of another buffer.
pub fn append_bytes(buf: &mut Vec<u8>, other: &Vec<u8>)
    ensures
        final(buf)@ == old(buf)@ + other@,
{
    let n: usize = other.len();
    let mut i: usize = 0;
    while i < n
        invariant
            n == other@.len(),
            i <= n,
            buf@ == old(buf)@ + other@.subrange(0, i as int),
        decreases n - i,
    {
        buf.push(other[i]);
        i = i + 1;
        assert(buf@ =~= old(buf)@ + other@.subrange(0, i as int));
    }
    assert(buf@ =~= old(buf)@ + other@);
}

/// Append one scalar argument.
fn enc_value(buf: &mut Vec<u8>, v: &Value)
    requires
        value_ok(*v),
    ensures
        final(buf)@ == old(buf)@ + spec_value(*v),
{
    match v {
        Value::Num(n) => enc_uint(buf, *n as u64),
        Value::Str(s) => {
            let bytes = s.as_str().as_bytes_vec();
            enc_str_bytes(buf, &bytes);
        },
        Value::Bool(b) => enc_bool(buf, *b),
    }
}

/// Append an array of scalar arguments.
fn enc_value_array(buf: &mut Vec<u8>, vs: &Vec<Value>)
    requires
        values_ok(vs@),
    ensures
        final(buf)@ == old(buf)@ + spec_value_array(vs@),
{
    let n: usize = vs.len();
    enc_array_header(buf, n);
    let ghost with_header: Seq<u8> = buf@;
    let mut i: usize = 0;
    while i < n
        invariant
            n == vs@.len(),
            i <= n,
            values_ok(vs@),
            buf@ == with_header + spec_values(vs@.subrange(0, i as int)),
        decreases n - i,
    {
        enc_value(buf, &vs[i]);
        i = i + 1;
        assert(vs@.subrange(0, i as int).drop_last() =~= vs@.subrange(0, i as int - 1));
        assert(buf@ =~= with_header + spec_values(vs@.subrange(0, i as int)));
    }
    assert(vs@.subrange(0, n as int) =~= vs@);
    assert(buf@ =~= old(buf)@ + spec_value_array(vs@));
}

/// Append the request header for `kind` under correlation id `sync`.
fn enc_request_header(buf: &mut Vec<u8>, kind: u64, sync: u64)
    ensures
        final(buf)@ == old(buf)@ + spec_request_header(kind, sync),
{
    enc_map_header(buf, 2);
    enc_uint(buf, KEY_REQUEST_TYPE);
    enc_uint(buf, kind);
    enc_uint(buf, KEY_SYNC);
    enc_uint(buf, sync);
    assert(buf@ =~= old(buf)@ + spec_request_header(kind, sync));
}

/// Append a whole frame: the payload length, then the payload.
fn write_frame(buf: &mut Vec<u8>, payload: &Vec<u8>)
    ensures
        final(buf)@ == old(buf)@ + spec_frame(payload@),
{
    let len: usize = payload.len();
    enc_uint(buf, len as u64);
    append_bytes(buf, payload);
    assert(buf@ =~= old(buf)@ + spec_frame(payload@));
}

/// Append an encoded ping request under correlation id `sync`.
pub fn encode_ping(buf: &mut Vec<u8>, sync: u64)
    ensures
        final(buf)@ == old(buf)@ + spec_ping_request(sync),
{
    let mut payload: Vec<u8> = Vec::new();
    enc_request_header(&mut payload, REQUEST_PING, sync);
    enc_map_header(&mut payload, 0);
    write_frame(buf, &payload);
}

/// Append an encoded call request for `function_name` with `args`.
pub fn encode_call(buf: &mut Vec<u8>, sync: u64, function_name: &str, args: &Vec<Value>)
    requires
        encode_utf8(function_name@).len() < 0x100000000,
        values_ok(args@),
    ensures
        final(buf)@ == old(buf)@ + spec_call_request(sync, function_name@, args@),
{
    let mut payload: Vec<u8> = Vec::new();
    enc_request_header(&mut payload, REQUEST_CALL, sync);
    enc_map_header(&mut payload, 2);
    enc_uint(&mut payload, KEY_FUNCTION_NAME);
    let name_bytes = function_name.as_bytes_vec();
    enc_str_bytes(&mut payload, &name_bytes);
    enc_uint(&mut payload, KEY_TUPLE);
    enc_value_array(&mut payload, args);
    assert(payload@ =~= spec_request_header(REQUEST_CALL, sync) + spec_call_body(
        function_name@,
        args@,
    ));
    write_frame(buf, &payload);
}

/// Append an encoded eval request for `expression` with `args`.
pub fn encode_eval(buf: &mut Vec<u8>, sync: u64, expression: &str, args: &Vec<Value>)
    requires
        encode_utf8(expression@).len() < 0x100000000,
        values_ok(args@),
    ensures
        final(buf)@ == old(buf)@ + spec_eval_request(sync, expression@, args@),
{
    let mut payload: Vec<u8> = Vec::new();
    enc_request_header(&mut payload, REQUEST_EVAL, sync);
    enc_map_header(&mut payload, 2);
    enc_uint(&mut payload, KEY_EXPR);
    let expr_bytes = expression.as_bytes_vec();
    enc_str_bytes(&mut payload, &expr_bytes);
    enc_uint(&mut payload, KEY_TUPLE);
    enc_value_array(&mut payload, args);
    assert(payload@ =~= spec_request_header(REQUEST_EVAL, sync) + spec_eval_body(
        expression@,
        args@,
    ));
    write_frame(buf, &payload);
}

/// Append an encoded select request.
#[verifier::rlimit(100)]
pub fn encode_select(
    buf: &mut Vec<u8>,
    sync: u64,
    space_id: u32,
    index_id: u32,
    limit: u32,
    offset: u32,
    iterator: IteratorType,
    key: &Vec<Value>,
)
    requires
        values_ok(key@),
    ensures
        final(buf)@ == old(buf)@ + spec_select_request(
            sync,
            space_id,
            index_id,
            limit,
            offset,
            iterator,
            key@,
        ),
{
    let mut payload: Vec<u8> = Vec::new();
    enc_request_header(&mut payload, REQUEST_SELECT, sync);
    enc_map_header(&mut payload, 6);
    enc_uint(&mut payload, KEY_SPACE_ID);
    enc_uint(&mut payload, space_id as u64);
    enc_uint(&mut payload, KEY_INDEX_ID);
    enc_uint(&mut payload, index_id as u64);
    enc_uint(&mut payload, KEY_LIMIT);
    enc_uint(&mut payload, limit as u64);
    enc_uint(&mut payload, KEY_OFFSET);
    enc_uint(&mut payload, offset as u64);
    enc_uint(&mut payload, KEY_ITERATOR);
    enc_uint(&mut payload, iterator.code());
    enc_uint(&mut payload, KEY_KEY);
    enc_value_array(&mut payload, key);
    assert(payload@ =~= spec_request_header(REQUEST_SELECT, sync) + spec_select_body(
        space_id,
        index_id,
        limit,
        offset,
        iterator,
        key@,
    ));
    write_frame(buf, &payload);
}

/// Append an encoded execute request for the statement `sql` with bound
/// parameters.
pub fn encode_execute(buf: &mut Vec<u8>, sync: u64, sql: &str, bind_params: &Vec<Value>)
    requires
        encode_utf8(sql@).len() < 0x100000000,
        values_ok(bind_params@),
    ensures
        final(buf)@ == old(buf)@ + spec_execute_request(sync, sql@, bind_params@),
{
    let mut payload: Vec<u8> = Vec::new();
    enc_request_header(&mut payload, REQUEST_EXECUTE, sync);
    enc_map_header(&mut payload, 2);
    enc_uint(&mut payload, KEY_SQL_TEXT);
    let sql_bytes = sql.as_bytes_vec();
    enc_str_bytes(&mut payload, &sql_bytes);
    enc_uint(&mut payload, KEY_SQL_BIND);
    enc_value_array(&mut payload, bind_params);
    assert(payload@ =~= spec_request_header(REQUEST_EXECUTE, sync) + spec_execute_body(
        sql@,
        bind_params@,
    ));
    write_frame(buf, &payload);
}

// ---------------------------------------------------------------------------
// Response decoding.
// ---------------------------------------------------------------------------

/// Whether a byte opens an unsigned integer encoding, so that a length
/// prefix starting with it only needs more bytes.
pub open spec fn spec_uint_marker(m: u8) -> bool {
    m < 0x80 || m == 0xcc || m == 0xcd || m == 0xce || m == 0xcf
}

/// The frame length announced at the head of the buffer, with the number
/// of bytes the length prefix itself occupies.  The driver hands in what
/// it has read so far: `Truncated` asks it to read more prefix bytes,
/// `Malformed` says the stream does not open with a length.
pub fn frame_length(b: &Vec<u8>) -> (r: Result<(u64, usize), Error>)
    ensures
        match r {
            Ok((len, p)) => spec_parse_uint(b@, 0) == Some((len, p as int)),
            Err(e) => spec_parse_uint(b@, 0) is None && e == Error::Protocol(
                if b@.len() == 0 || spec_uint_marker(b@[0]) {
                    ProtocolError::Truncated
                } else {
                    ProtocolError::Malformed
                },
            ),
        },
{
    if b.len() == 0 {
        return Err(Error::Protocol(ProtocolError::Truncated));
    }
    let m: u8 = b[0];
    match dec_uint(b, 0) {
        Some((len, p)) => Ok((len, p)),
        None => {
            if m < 0x80 || m == 0xcc || m == 0xcd || m == 0xce || m == 0xcf {
                Err(Error::Protocol(ProtocolError::Truncated))
            } else {
                Err(Error::Protocol(ProtocolError::Malformed))
            }
        },
    }
}

/// The header of one response frame: status code, correlation id, and the
/// schema version the server reported.
#[derive(Debug, Clone, Copy, PartialEq, Eq, Structural)]
pub struct ResponseHeader {
    pub code: u64,
    pub sync: u64,
    pub schema_version: u64,
}

impl ResponseHeader {
    /// Whether the status code reports a server error.
    pub open spec fn spec_is_error(self) -> bool {
        self.code >= RESPONSE_ERROR_BASE
    }

    /// Whether the status code reports a server error.
    pub fn is_error(&self) -> (r: bool)
        ensures
            r == self.spec_is_error(),
    {
        self.code >= RESPONSE_ERROR_BASE
    }

    /// The server error code carried by an error status.
    pub open spec fn spec_error_code(self) -> u64 {
        (self.code - RESPONSE_ERROR_BASE) as u64
    }

    /// The server error code carried by an error status.
    pub fn error_code(&self) -> (r: u64)
        requires
            self.spec_is_error(),
        ensures
            r == self.spec_error_code(),
    {
        self.code - RESPONSE_ERROR_BASE
    }
}

/// Partially collected header fields while walking the header map.
#[derive(Debug, Clone, Copy, PartialEq, Eq, Structural)]
pub struct HeaderAcc {
    pub code: Option<u64>,
    pub sync: Option<u64>,
    pub schema_version: Option<u64>,
}

/// No header field seen yet.
pub open spec fn spec_header_init() -> HeaderAcc {
    HeaderAcc { code: None, sync: None, schema_version: None }
}

/// Record one header entry; entries under other keys are ignored.
pub open spec fn spec_header_set(h: HeaderAcc, key: u64, v: u64) -> HeaderAcc {
    if key == KEY_REQUEST_TYPE {
        HeaderAcc { code: Some(v), ..h }
    } else if key == KEY_SYNC {
        HeaderAcc { sync: Some(v), ..h }
    } else if key == KEY_SCHEMA_VERSION {
        HeaderAcc { schema_version: Some(v), ..h }
    } else {
        h
    }
}

/// Walk `n` header map entries from `pos`, collecting the known fields and
/// skipping unknown ones.
pub open spec fn spec_parse_header_entries(b: Seq<u8>, pos: int, n: nat, h: HeaderAcc) -> Option<
    (HeaderAcc, int),
>
    decreases n,
{
    if n == 0 {
        Some((h, pos))
    } else {
        match spec_parse_uint(b, pos) {
            None => None,
            Some((key, p1)) => {
                if key == KEY_REQUEST_TYPE || key == KEY_SYNC || key == KEY_SCHEMA_VERSION {
                    match spec_parse_uint(b, p1) {
                        None => None,
                        Some((v, p2)) => spec_parse_header_entries(
                            b,
                            p2,
                            (n - 1) as nat,
                            spec_header_set(h, key, v),
                        ),
                    }
                } else {
                    match spec_skip(b, p1) {
                        None => None,
                        Some(p2) => spec_parse_header_entries(b, p2, (n - 1) as nat, h),
                    }
                }
            },
        }
    }
}

/// Parse a response header map at `pos`: all three fields must be present.
pub open spec fn spec_parse_header(b: Seq<u8>, pos: int) -> Option<(ResponseHeader, int)> {
    match spec_parse_map_header(b, pos) {
        None => None,
        Some((n, p)) => match spec_parse_header_entries(b, p, n, spec_header_init()) {
            None => None,
            Some((h, p2)) => match (h.code, h.sync, h.schema_version) {
                (Some(c), Some(s), Some(v)) => Some(
                    (ResponseHeader { code: c, sync: s, schema_version: v }, p2),
                ),
                _ => None,
            },
        },
    }
}

/// Decode a response header at `pos`.
pub fn decode_header(b: &Vec<u8>, pos: usize) -> (r: Result<(ResponseHeader, usize), Error>)
    ensures
        match r {
            Ok((h, p)) => spec_parse_header(b@, pos as int) == Some((h, p as int)) && p <= b@.len(),
            Err(e) => spec_parse_header(b@, pos as int) is None && e == Error::Protocol(
                ProtocolError::Malformed,
            ),
        },
{
    let parsed_map = dec_map_header(b, pos);
    match parsed_map {
        None => Err(Error::Protocol(ProtocolError::Malformed)),
        Some((n, start)) => {
            let ghost n0: nat = n as nat;
            let ghost start0: int = start as int;
            let mut acc = HeaderAcc { code: None, sync: None, schema_version: None };
            let mut cur: usize = start;
            let mut i: u64 = 0;
            let mut failed: bool = false;
            while i < n
                invariant
                    i <= n,
                    cur <= b@.len(),
                    !failed ==> spec_parse_header_entries(b@, start0, n0, spec_header_init())
                        == spec_parse_header_entries(b@, cur as int, (n - i) as nat, acc),
                    failed ==> spec_parse_header_entries(b@, start0, n0, spec_header_init())
                        is None,
                decreases n - i,
            {
                if !failed {
                    match dec_uint(b, cur) {
                        None => {
                            failed = true;
                        },
                        Some((key, p1)) => {
                            if key == KEY_REQUEST_TYPE || key == KEY_SYNC || key
                                == KEY_SCHEMA_VERSION {
                                match dec_uint(b, p1) {
                                    None => {
                                        failed = true;
                                    },
                                    Some((v, p2)) => {
                                        if key == KEY_REQUEST_TYPE {
                                            acc.code = Some(v);
                                        } else if key == KEY_SYNC {
                                            acc.sync = Some(v);
                                        } else {
                                            acc.schema_version = Some(v);
                                        }
                                        cur = p2;
                                    },
                                }
                            } else {
                                match skip_value(b, p1) {
                                    None => {
                                        failed = true;
                                    },
                                    Some(p2) => {
                                        cur = p2;
                                    },
                                }
                            }
                        },
                    }
                }
                i = i + 1;
            }
            if failed {
                return Err(Error::Protocol(ProtocolError::Malformed));
            }
            match (acc.code, acc.sync, acc.schema_version) {
                (Some(c), Some(s), Some(v)) => Ok(
                    (ResponseHeader { code: c, sync: s, schema_version: v }, cur),
                ),
                _ => Err(Error::Protocol(ProtocolError::Malformed)),
            }
        },
    }
}

/// Position of the value stored under `key` among `n` map entries starting
/// at `pos`, skipping over entries with other keys.
pub open spec fn spec_find_key(b: Seq<u8>, pos: int, n: nat, key: u64) -> Option<int>
    decreases n,
{
    if n == 0 {
        None
    } else {
        match spec_parse_uint(b, pos) {
            None => None,
            Some((k, p1)) => if k == key {
                Some(p1)
            } else {
                match spec_skip(b, p1) {
                    None => None,
                    Some(p2) => spec_find_key(b, p2, (n - 1) as nat, key),
                }
            },
        }
    }
}

/// Find the value stored under `key` among `n` map entries starting at
/// `pos`.
fn find_key(b: &Vec<u8>, pos: usize, n: u64, key: u64) -> (r: Option<usize>)
    requires
        pos <= b@.len(),
    ensures
        match r {
            Some(p) => spec_find_key(b@, pos as int, n as nat, key) == Some(p as int) && p
                <= b@.len(),
            None => spec_find_key(b@, pos as int, n as nat, key) is None,
        },
    decreases n,
{
    if n == 0 {
        return None;
    }
    match dec_uint(b, pos) {
        None => None,
        Some((k, p1)) => {
            if k == key {
                Some(p1)
            } else {
                match skip_value(b, p1) {
                    None => None,
                    Some(p2) => find_key(b, p2, n - 1, key),
                }
            }
        },
    }
}

/// The views of a sequence of rows.
pub open spec fn tuple_views(ts: Seq<Tuple>) -> Seq<Seq<u8>> {
    ts.map_values(|t: Tuple| t@)
}

/// Parse `n` consecutive rows at `pos`: the raw bytes of each, and the
/// position after the last.
pub open spec fn spec_parse_tuples(b: Seq<u8>, pos: int, n: nat) -> Option<(Seq<Seq<u8>>, int)>
    decreases n,
{
    if n == 0 {
        if 0 <= pos <= b.len() {
            Some((Seq::empty(), pos))
        } else {
            None
        }
    } else {
        match spec_skip(b, pos) {
            None => None,
            Some(p2) => if pos < p2 <= b.len() {
                match spec_parse_tuples(b, p2, (n - 1) as nat) {
                    None => None,
                    Some((rest, p3)) => Some((seq![b.subrange(pos, p2)] + rest, p3)),
                }
            } else {
                None
            },
        }
    }
}

/// Prefix a parsed row sequence with already-collected rows.
pub open spec fn spec_prepend_rows(prefix: Seq<Seq<u8>>, rest: Option<(Seq<Seq<u8>>, int)>) -> Option<
    (Seq<Seq<u8>>, int),
> {
    match rest {
        None => None,
        Some((s, p)) => Some((prefix + s, p)),
    }
}

/// Parse a response body at `pos` as rows of data: the value under the data
/// key must be an array; each element is returned as its raw bytes.
pub open spec fn spec_parse_rows(b: Seq<u8>, pos: int) -> Option<Seq<Seq<u8>>> {
    match spec_parse_map_header(b, pos) {
        None => None,
        Some((n, p)) => match spec_find_key(b, p, n, KEY_DATA) {
            None => None,
            Some(dp) => match spec_parse_array_header(b, dp) {
                None => None,
                Some((cnt, ep)) => match spec_parse_tuples(b, ep, cnt) {
                    None => None,
                    Some((rows, _)) => Some(rows),
                },
            },
        },
    }
}

/// Decode a response body at `pos` into its rows of data.
#[verifier::loop_isolation(false)]
pub fn decode_multiple_rows(b: &Vec<u8>, pos: usize) -> (r: Result<Vec<Tuple>, Error>)
    ensures
        match r {
            Ok(rows) => spec_parse_rows(b@, pos as int) == Some(tuple_views(rows@)),
            Err(e) => spec_parse_rows(b@, pos as int) is None && e == Error::Protocol(
                ProtocolError::Malformed,
            ),
        },
{
    let parsed_map = dec_map_header(b, pos);
    match parsed_map {
        None => Err(Error::Protocol(ProtocolError::Malformed)),
        Some((n, p)) => {
            match find_key(b, p, n, KEY_DATA) {
                None => Err(Error::Protocol(ProtocolError::Malformed)),
                Some(dp) => {
                    match dec_array_header(b, dp) {
                        None => Err(Error::Protocol(ProtocolError::Malformed)),
                        Some((cnt, ep)) => {
                            let ghost ep0: int = ep as int;
                            let mut rows: Vec<Tuple> = Vec::new();
                            let mut cur: usize = ep;
                            let mut i: u64 = 0;
                            while i < cnt
                                invariant
                                    i <= cnt,
                                    cur <= b@.len(),
                                    spec_parse_tuples(b@, ep0, cnt as nat) == spec_prepend_rows(
                                        tuple_views(rows@),
                                        spec_parse_tuples(b@, cur as int, (cnt - i) as nat),
                                    ),
                                decreases cnt - i,
                            {
                                match skip_value(b, cur) {
                                    None => {
                                        assert(spec_parse_tuples(b@, cur as int, (cnt - i) as nat)
                                            is None);
                                        return Err(Error::Protocol(ProtocolError::Malformed));
                                    },
                                    Some(p2) => {
                                        let t = Tuple { data: copy_range(b, cur, p2) };
                                        let ghost prev_rows: Seq<Tuple> = rows@;
                                        rows.push(t);
                                        proof {
                                            assert(tuple_views(rows@) =~= tuple_views(
                                                prev_rows,
                                            ).push(b@.subrange(cur as int, p2 as int)));
                                            let rest = spec_parse_tuples(
                                                b@,
                                                p2 as int,
                                                (cnt - i - 1) as nat,
                                            );
                                            match rest {
                                                None => {},
                                                Some((s, q)) => {
                                                    assert(tuple_views(prev_rows) + (seq![
                                                        b@.subrange(cur as int, p2 as int)] + s)
                                                        =~= tuple_views(rows@) + s);
                                                },
                                            }
                                        }
                                        cur = p2;
                                        i = i + 1;
                                    },
                                }
                            }
                            proof {
                                assert(spec_parse_tuples(b@, cur as int, 0) == Some(
                                    (Seq::<Seq<u8>>::empty(), cur as int),
                                ));
                                assert(tuple_views(rows@) + Seq::<Seq<u8>>::empty() =~= tuple_views(
                                    rows@,
                                ));
                            }
                            Ok(rows)
                        },
                    }
                },
            }
        },
    }
}

/// Parse a response body at `pos` as the result of a call: at most one row
/// under the data key.
pub open spec fn spec_parse_call(b: Seq<u8>, pos: int) -> Option<Option<Seq<u8>>> {
    match spec_parse_map_header(b, pos) {
        None => None,
        Some((n, p)) => match spec_find_key(b, p, n, KEY_DATA) {
            None => None,
            Some(dp) => match spec_parse_array_header(b, dp) {
                None => None,
                Some((cnt, ep)) => if cnt == 0 {
                    Some(None)
                } else {
                    match spec_skip(b, ep) {
                        None => None,
                        Some(end) => Some(Some(b.subrange(ep, end))),
                    }
                },
            },
        },
    }
}

/// Decode a response body at `pos` as the result of a call or eval: the
/// first row of data, when there is one.
pub fn decode_call(b: &Vec<u8>, pos: usize) -> (r: Result<Option<Tuple>, Error>)
    ensures
        match r {
            Ok(Some(t)) => spec_parse_call(b@, pos as int) == Some(Some(t@)),
            Ok(None) => spec_parse_call(b@, pos as int) == Some(None::<Seq<u8>>),
            Err(e) => spec_parse_call(b@, pos as int) is None && e == Error::Protocol(
                ProtocolError::Malformed,
            ),
        },
{
    let parsed_map = dec_map_header(b, pos);
    match parsed_map {
        None => Err(Error::Protocol(ProtocolError::Malformed)),
        Some((n, p)) => {
            match find_key(b, p, n, KEY_DATA) {
                None => Err(Error::Protocol(ProtocolError::Malformed)),
                Some(dp) => {
                    match dec_array_header(b, dp) {
                        None => Err(Error::Protocol(ProtocolError::Malformed)),
                        Some((cnt, ep)) => {
                            if cnt == 0 {
                                Ok(None)
                            } else {
                                match skip_value(b, ep) {
                                    None => Err(Error::Protocol(ProtocolError::Malformed)),
                                    Some(end) => Ok(
                                        Some(Tuple { data: copy_range(b, ep, end) }),
                                    ),
                                }
                            }
                        },
                    }
                },
            }
        },
    }
}

/// Parse a response body at `pos` as a server error message.
pub open spec fn spec_parse_error(b: Seq<u8>, pos: int) -> Option<Seq<u8>> {
    match spec_parse_map_header(b, pos) {
        None => None,
        Some((n, p)) => match spec_find_key(b, p, n, KEY_ERROR) {
            None => None,
            Some(ep) => match spec_parse_str(b, ep) {
                None => None,
                Some((msg, _)) => Some(msg),
            },
        },
    }
}

/// Decode a response body at `pos` as the message of a server error.
pub fn decode_error(b: &Vec<u8>, pos: usize) -> (r: Result<Vec<u8>, Error>)
    ensures
        match r {
            Ok(msg) => spec_parse_error(b@, pos as int) == Some(msg@),
            Err(e) => spec_parse_error(b@, pos as int) is None && e == Error::Protocol(
                ProtocolError::Malformed,
            ),
        },
{
    let parsed_map = dec_map_header(b, pos);
    match parsed_map {
        None => Err(Error::Protocol(ProtocolError::Malformed)),
        Some((n, p)) => {
            match find_key(b, p, n, KEY_ERROR) {
                None => Err(Error::Protocol(ProtocolError::Malformed)),
                Some(ep) => {
                    match dec_str_bytes(b, ep) {
                        None => Err(Error::Protocol(ProtocolError::Malformed)),
                        Some((msg, _)) => Ok(msg),
                    }
                },
            }
        },
    }
}

/// The kind of a pending request, deciding how its response body decodes.
#[derive(Debug, Clone, Copy, PartialEq, Eq, Structural)]
pub enum RequestKind {
    Ping,
    Call,
    Eval,
    Select,
    Execute,
}

/// The decoded body of a successful response, shaped by the request kind.
#[derive(Debug, Clone, PartialEq, Eq)]
pub enum Response {
    /// A ping response: nothing is decoded.
    Empty,
    /// A call or eval response: at most one row.
    Row(Option<Tuple>),
    /// A select or execute response: ordered rows.
    Rows(Vec<Tuple>),
}

/// Decode a successful response body at `pos` as the kind of the request
/// it answers.  A ping decodes no body at all.
pub fn decode_body(kind: RequestKind, b: &Vec<u8>, pos: usize) -> (r: Result<Response, Error>)
    ensures
        kind is Ping ==> r == Ok::<Response, Error>(Response::Empty),
        kind is Call || kind is Eval ==> match r {
            Ok(resp) => match resp {
                Response::Row(Some(t)) => spec_parse_call(b@, pos as int) == Some(Some(t@)),
                Response::Row(None) => spec_parse_call(b@, pos as int) == Some(None::<Seq<u8>>),
                _ => false,
            },
            Err(e) => spec_parse_call(b@, pos as int) is None && e == Error::Protocol(
                ProtocolError::Malformed,
            ),
        },
        kind is Select || kind is Execute ==> match r {
            Ok(resp) => match resp {
                Response::Rows(rows) => spec_parse_rows(b@, pos as int) == Some(
                    tuple_views(rows@),
                ),
                _ => false,
            },
            Err(e) => spec_parse_rows(b@, pos as int) is None && e == Error::Protocol(
                ProtocolError::Malformed,
            ),
        },
{
    match kind {
        RequestKind::Ping => Ok(Response::Empty),
        RequestKind::Call | RequestKind::Eval => match decode_call(b, pos) {
            Ok(row) => Ok(Response::Row(row)),
            Err(e) => Err(e),
        },
        RequestKind::Select | RequestKind::Execute => match decode_multiple_rows(b, pos) {
            Ok(rows) => Ok(Response::Rows(rows)),
            Err(e) => Err(e),
        },
    }
}

/// Parse one row as a triple of two ids and a name: the shape of the rows
/// of the system catalog of spaces and indexes.
pub open spec fn spec_parse_triple(b: Seq<u8>) -> Option<(u64, u64, Seq<u8>)> {
    match spec_parse_array_header(b, 0) {
        None => None,
        Some((n, p)) => if n < 3 {
            None
        } else {
            match spec_parse_uint(b, p) {
                None => None,
                Some((a, p1)) => match spec_parse_uint(b, p1) {
                    None => None,
                    Some((c, p2)) => match spec_parse_str(b, p2) {
                        None => None,
                        Some((name, _)) => Some((a, c, name)),
                    },
                },
            }
        },
    }
}

impl Tuple {
    /// Decode this row as a triple of two numeric ids and a name, the first
    /// three fields of a system catalog row.
    pub fn decode_triple(&self) -> (r: Result<(u32, u32, Vec<u8>), Error>)
        ensures
            match r {
                Ok((a, c, name)) => spec_parse_triple(self@) == Some(
                    (a as u64, c as u64, name@),
                ),
                Err(e) => e == Error::Protocol(ProtocolError::Malformed) && (spec_parse_triple(
                    self@,
                ) matches Some((a, c, _)) ==> a > u32::MAX || c > u32::MAX),
            },
    {
        match dec_array_header(&self.data, 0) {
            None => Err(Error::Protocol(ProtocolError::Malformed)),
            Some((n, p)) => {
                if n < 3 {
                    return Err(Error::Protocol(ProtocolError::Malformed));
                }
                match dec_uint(&self.data, p) {
                    None => Err(Error::Protocol(ProtocolError::Malformed)),
                    Some((a, p1)) => {
                        match dec_uint(&self.data, p1) {
                            None => Err(Error::Protocol(ProtocolError::Malformed)),
                            Some((c, p2)) => {
                                match dec_str_bytes(&self.data, p2) {
                                    None => Err(Error::Protocol(ProtocolError::Malformed)),
                                    Some((name, _)) => {
                                        if a <= u32::MAX as u64 && c <= u32::MAX as u64 {
                                            Ok((a as u32, c as u32, name))
                                        } else {
                                            Err(Error::Protocol(ProtocolError::Malformed))
                                        }
                                    },
                                }
                            },
                        }
                    },
                }
            },
        }
    }
}

} // verus!
