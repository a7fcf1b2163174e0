//! Connection handle: the protocol engine of one logical client.
//!
//! The connection owns the state machine, the correlation-id counter, the
//! outgoing byte queue and the pending-request table.  It performs no I/O
//! itself: a driver outside the crate writes the bytes of `take_output` to
//! the socket, reads one frame at a time, and hands each to
//! `process_frame`; request methods encode a frame, register the request
//! and return a token the caller later redeems with `try_result`.  A
//! blocking request is that driver loop around these methods; a
//! non-blocking request returns the token at once.

use vstd::prelude::*;

use crate::error::{Error, ProtocolError};
use crate::promise::Promise;
use crate::protocol::{
    decode_body, decode_error, decode_header, encode_call, encode_eval, encode_execute,
    encode_ping, encode_select, spec_call_request, spec_eval_request, spec_execute_request,
    spec_parse_call, spec_parse_error, spec_parse_header, spec_parse_rows, spec_ping_request,
    spec_select_request, tuple_views, values_ok, IteratorType, RequestKind, Response,
    ResponseHeader,
};
use crate::recv_queue::{
    lemma_index_of_none, spec_deliver, spec_fail_all, spec_index_of, spec_remove, PendingEntry,
    RecvQueue,
};
use crate::schema::{spec_find_any, spec_lookup_index, spec_lookup_space, Addr, ConnSchema, SchemaRegistry};
use crate::send_queue::SendQueue;
use crate::state::{spec_step, step, ConnEvent, ConnState, ReconnectPolicy};
use crate::util::Value;
use vstd::string::StringSliceAdditionalSpecFns;
use vstd::utf8::encode_utf8;

verus! {

/// Options of a single request.
#[derive(Debug, Clone, Copy, PartialEq, Eq, Structural)]
pub struct Options {
    /// Deadline the driver enforces on the blocking form; `None` waits
    /// without bound.
    pub timeout_ms: Option<u64>,
}

impl Default for Options {
    /// No deadline.
    fn default() -> (r: Options)
        ensures
            r.timeout_ms is None,
    {
        Options { timeout_ms: None }
    }
}

/// Options of a connection.
#[derive(Debug, Clone, PartialEq, Eq)]
pub struct ConnOptions {
    /// Deadline on establishing the socket.
    pub connect_timeout_ms: Option<u64>,
    /// Default deadline on blocking requests.
    pub request_timeout_ms: Option<u64>,
    /// Reconnect delay and attempt cap; no interval disables reconnection.
    pub reconnect: ReconnectPolicy,
    /// User name; configuring one makes the state machine pass through the
    /// authentication stage.
    pub user: Option<String>,
    /// Password presented with the user name.
    pub password: Option<String>,
}

impl ConnOptions {
    /// Whether credentials are configured.
    pub open spec fn spec_has_auth(self) -> bool {
        self.user is Some
    }
}

impl Default for ConnOptions {
    /// No timeouts, no reconnection, no credentials.
    fn default() -> (r: ConnOptions)
        ensures
            r.connect_timeout_ms is None,
            r.request_timeout_ms is None,
            r.reconnect.interval_ms is None,
            r.user is None,
            r.password is None,
    {
        ConnOptions {
            connect_timeout_ms: None,
            request_timeout_ms: None,
            reconnect: ReconnectPolicy { interval_ms: None, max_attempts: None },
            user: None,
            password: None,
        }
    }
}

/// The handle a request method returns: redeemed with [`Conn::try_result`]
/// once the response frame has been processed.
#[derive(Debug, Clone, Copy, PartialEq, Eq, Structural)]
pub struct SyncToken {
    pub sync: u64,
}

/// What processing one response frame yielded.
#[derive(Debug, Clone, Copy, PartialEq, Eq, Structural)]
pub struct FrameOutcome {
    /// The correlation id the frame bore.
    pub sync: u64,
    /// The schema version the server reported in the frame.
    pub schema_version: u64,
    /// Whether a pending request was fulfilled; a frame for an unknown or
    /// abandoned id is discarded and this is false.
    pub delivered: bool,
}

/// Whether `res` is what a frame with header `h` and body at `pos` must
/// deliver to a request of kind `k`: the server error with its code and
/// message, or the body decoded as the kind demands.
pub open spec fn spec_result_matches(
    k: RequestKind,
    h: ResponseHeader,
    b: Seq<u8>,
    pos: int,
    res: Result<Response, Error>,
) -> bool {
    if h.spec_is_error() {
        match res {
            Err(Error::Server(c, m)) => c == h.spec_error_code() as u32 && spec_parse_error(b, pos)
                == Some(m@),
            _ => false,
        }
    } else {
        match k {
            RequestKind::Ping => res == Ok::<Response, Error>(Response::Empty),
            RequestKind::Call | RequestKind::Eval => match res {
                Ok(Response::Row(Some(t))) => spec_parse_call(b, pos) == Some(Some(t@)),
                Ok(Response::Row(None)) => spec_parse_call(b, pos) == Some(None::<Seq<u8>>),
                _ => false,
            },
            RequestKind::Select | RequestKind::Execute => match res {
                Ok(Response::Rows(rows)) => spec_parse_rows(b, pos) == Some(tuple_views(rows@)),
                _ => false,
            },
        }
    }
}

/// Whether the body of a frame with header `h` decodes for kind `k`: when
/// it does not, the frame is a framing error and drives reconnection.
pub open spec fn spec_body_decodes(k: RequestKind, h: ResponseHeader, b: Seq<u8>, pos: int) -> bool {
    if h.spec_is_error() {
        spec_parse_error(b, pos) is Some
    } else {
        match k {
            RequestKind::Ping => true,
            RequestKind::Call | RequestKind::Eval => spec_parse_call(b, pos) is Some,
            RequestKind::Select | RequestKind::Execute => spec_parse_rows(b, pos) is Some,
        }
    }
}

/// Every id bound stays in force when an entry is removed.
proof fn lemma_sync_bound_remove(entries: Seq<PendingEntry>, sync: u64, bound: u64)
    requires
        forall|i: int| 0 <= i < entries.len() ==> (#[trigger] entries[i]).sync < bound,
    ensures
        forall|i: int|
            0 <= i < spec_remove(entries, sync).len() ==> (#[trigger] spec_remove(entries, sync)[i]).sync
                < bound,
{
    match spec_index_of(entries, sync) {
        None => {},
        Some(i) => {
            crate::recv_queue::lemma_index_of_some(entries, sync);
            let removed = entries.remove(i);
            assert forall|j: int| 0 <= j < removed.len() implies (#[trigger] removed[j]).sync
                < bound by {
                if j < i {
                    assert(removed[j] == entries[j]);
                } else {
                    assert(removed[j] == entries[j + 1]);
                }
            }
        },
    }
}

/// Every id bound stays in force when a result is delivered.
proof fn lemma_sync_bound_deliver(
    entries: Seq<PendingEntry>,
    sync: u64,
    res: Result<Response, Error>,
    bound: u64,
)
    requires
        forall|i: int| 0 <= i < entries.len() ==> (#[trigger] entries[i]).sync < bound,
    ensures
        forall|i: int|
            0 <= i < spec_deliver(entries, sync, res).len() ==> (#[trigger] spec_deliver(
                entries,
                sync,
                res,
            )[i]).sync < bound,
{
    match spec_index_of(entries, sync) {
        None => {},
        Some(i) => {
            crate::recv_queue::lemma_index_of_some(entries, sync);
        },
    }
}

/// Closing twice is a no-op: the state a close leaves is a fixed point of
/// closing, and the second pass over the table finds nothing pending, so
/// every request that was pending at the first close fails exactly once.
pub proof fn lemma_close_twice(
    state: ConnState,
    entries: Seq<PendingEntry>,
    has_auth: bool,
)
    ensures
        spec_step(spec_step(state, ConnEvent::Close, has_auth), ConnEvent::Close, has_auth)
            == spec_step(state, ConnEvent::Close, has_auth),
        spec_fail_all(spec_fail_all(entries, Error::NotConnected), Error::NotConnected)
            == spec_fail_all(entries, Error::NotConnected),
{
    crate::state::lemma_close_idempotent(state, has_auth);
    crate::recv_queue::lemma_fail_all_idempotent(entries, Error::NotConnected);
}

/// Connection to one remote server over one reconnectable socket.
#[derive(Debug, Clone, PartialEq, Eq)]
pub struct Conn {
    /// Lifecycle state.
    pub state: ConnState,
    /// Configuration the connection was constructed with.
    pub options: ConnOptions,
    /// The destination address set, canonicalized by the driver.
    pub addrs: Vec<Addr>,
    /// Slot of the shared schema cache in the registry the connection was
    /// constructed against.
    pub schema_id: usize,
    /// Outgoing frames and the correlation-id counter.
    pub send: SendQueue,
    /// In-flight requests by correlation id.
    pub pending: RecvQueue,
    /// Reconnect attempts made since the last successful connect.
    pub reconnect_attempts: u32,
    /// The newest schema version observed in a response header.
    pub last_seen_version: Option<u64>,
}

impl Conn {
    /// Ids are unique and every registered id is below the counter, so a
    /// fresh id never collides with an in-flight request.
    pub open spec fn wf(self) -> bool {
        &&& self.pending.wf()
        &&& forall|i: int|
            0 <= i < self.pending.entries@.len() ==> (#[trigger] self.pending.entries@[i]).sync
                < self.send.next_sync
    }

    /// Everything but the state machine, the queues and the observed
    /// version is fixed at construction.
    pub open spec fn spec_same_config(self, other: Conn) -> bool {
        &&& self.options == other.options
        &&& self.addrs == other.addrs
        &&& self.schema_id == other.schema_id
    }

    /// A new connection: the worker is considered spawned, so the state
    /// machine starts connecting.  The schema cache slot is acquired from
    /// the registry, shared with every connection to an overlapping
    /// address set.
    pub fn new(addrs: Vec<Addr>, options: ConnOptions, registry: &mut SchemaRegistry) -> (r: Conn)
        requires
            old(registry).wf(),
        ensures
            final(registry).wf(),
            r.wf(),
            r.state == ConnState::Connecting,
            r.schema_id < final(registry).schemas@.len(),
            spec_find_any(old(registry).bindings@, addrs@) matches Some(s) ==> r.schema_id == s
                && *final(registry) == *old(registry),
            spec_find_any(old(registry).bindings@, addrs@) is None ==> r.schema_id == old(registry).schemas@.len() && final(registry).schemas@.len() == old(registry).schemas@.len()
                + 1,
            r.send.next_sync == 0,
            r.send.buf@.len() == 0,
            r.pending.entries@.len() == 0,
            r.reconnect_attempts == 0,
            r.last_seen_version is None,
            r.options == options,
            r.addrs == addrs,
    {
        let schema_id = registry.acquire(&addrs);
        let has_auth = options.user.is_some();
        Conn {
            state: step(ConnState::Initial, ConnEvent::Construct, has_auth),
            options,
            addrs,
            schema_id,
            send: SendQueue::new(),
            pending: RecvQueue::new(),
            reconnect_attempts: 0,
            last_seen_version: None,
        }
    }

    /// Whether the connection is active.
    pub fn is_connected(&self) -> (r: bool)
        ensures
            r == (self.state is Active),
    {
        matches!(self.state, ConnState::Active)
    }

    /// Whether waiting for the connection is over: `Some(true)` once
    /// active, `Some(false)` once terminally closed or failed, and `None`
    /// while the driver must keep driving the connect sequence.
    pub fn wait_connected(&self) -> (r: Option<bool>)
        ensures
            self.state is Active ==> r == Some(true),
            self.state is Closed || self.state is Error ==> r == Some(false),
            !(self.state is Active || self.state is Closed || self.state is Error) ==> r is None,
    {
        match self.state {
            ConnState::Active => Some(true),
            ConnState::Closed => Some(false),
            ConnState::Error => Some(false),
            _ => None,
        }
    }

    /// Close the connection: every still-pending request fails with a
    /// not-connected error exactly once, and the state becomes closed.
    /// Closing an already-failed connection changes its state no further;
    /// closing twice is a no-op.
    pub fn close(&mut self)
        ensures
            final(self).state == spec_step(
                old(self).state,
                ConnEvent::Close,
                old(self).options.spec_has_auth(),
            ),
            final(self).pending.entries@ == spec_fail_all(
                old(self).pending.entries@,
                Error::NotConnected,
            ),
            final(self).send == old(self).send,
            final(self).reconnect_attempts == old(self).reconnect_attempts,
            final(self).last_seen_version == old(self).last_seen_version,
            final(self).spec_same_config(*old(self)),
            old(self).wf() ==> final(self).wf(),
    {
        let has_auth = self.options.user.is_some();
        self.state = step(self.state, ConnEvent::Close, has_auth);
        self.pending.fail_all();
    }

    /// An unrecoverable I/O or framing error observed by the driver: every
    /// pending request fails with a not-connected error and the state
    /// machine moves to its reconnect path.
    pub fn on_io_error(&mut self)
        ensures
            final(self).state == spec_step(
                old(self).state,
                ConnEvent::IoError,
                old(self).options.spec_has_auth(),
            ),
            final(self).pending.entries@ == spec_fail_all(
                old(self).pending.entries@,
                Error::NotConnected,
            ),
            final(self).send == old(self).send,
            final(self).reconnect_attempts == old(self).reconnect_attempts,
            final(self).last_seen_version == old(self).last_seen_version,
            final(self).spec_same_config(*old(self)),
            old(self).wf() ==> final(self).wf(),
    {
        let has_auth = self.options.user.is_some();
        self.state = step(self.state, ConnEvent::IoError, has_auth);
        self.pending.fail_all();
    }

    /// Advance the state machine on a connect-path event the driver
    /// observed: the socket came up, authentication succeeded, the schema
    /// was loaded, or a response header showed the schema stale.
    pub fn advance(&mut self, event: ConnEvent)
        ensures
            final(self).state == spec_step(
                old(self).state,
                event,
                old(self).options.spec_has_auth(),
            ),
            final(self).pending == old(self).pending,
            final(self).send == old(self).send,
            final(self).reconnect_attempts == old(self).reconnect_attempts,
            final(self).last_seen_version == old(self).last_seen_version,
            final(self).spec_same_config(*old(self)),
            old(self).wf() ==> final(self).wf(),
    {
        let has_auth = self.options.user.is_some();
        self.state = step(self.state, event, has_auth);
    }

    /// Decide the next reconnect attempt while in the reconnect-wait
    /// state: `Some(delay)` moves back to connecting after that delay and
    /// drops the stale outgoing bytes of the dead socket; `None` means the
    /// policy allows no further attempt and the connection fails
    /// terminally.
    ///
    /// The correlation-id counter starts over with the new socket
    /// generation once no request is registered any more; while failed
    /// requests still await pickup it stays monotonic instead, so that an
    /// id is never reused while an entry could still be redeemed under it.
    pub fn reconnect_tick(&mut self) -> (r: Option<u64>)
        requires
            old(self).state is ErrorReconnect,
            old(self).reconnect_attempts < u32::MAX,
        ensures
            r == old(self).options.reconnect.spec_next_delay(old(self).reconnect_attempts),
            r is Some ==> final(self).state == ConnState::Connecting
                && final(self).reconnect_attempts == old(self).reconnect_attempts + 1,
            r is None ==> final(self).state == ConnState::Error
                && final(self).reconnect_attempts == old(self).reconnect_attempts,
            final(self).send.buf@.len() == 0,
            old(self).pending.entries@.len() == 0 ==> final(self).send.next_sync == 0,
            old(self).pending.entries@.len() > 0 ==> final(self).send.next_sync == old(self).send.next_sync,
            final(self).pending == old(self).pending,
            final(self).last_seen_version == old(self).last_seen_version,
            final(self).spec_same_config(*old(self)),
            old(self).wf() ==> final(self).wf(),
    {
        let has_auth = self.options.user.is_some();
        if self.pending.len() == 0 {
            self.send = SendQueue::new();
        }
        let _ = self.send.take_output();
        match self.options.reconnect.next_delay(self.reconnect_attempts) {
            Some(delay) => {
                self.state = step(self.state, ConnEvent::ReconnectDelayElapsed, has_auth);
                self.reconnect_attempts = self.reconnect_attempts + 1;
                Some(delay)
            },
            None => {
                self.state = step(self.state, ConnEvent::ReconnectExhausted, has_auth);
                None
            },
        }
    }

    /// A successful connect: the attempt counter starts over.
    pub fn on_connected(&mut self)
        requires
            old(self).state is Connecting,
        ensures
            final(self).state == spec_step(
                old(self).state,
                ConnEvent::SocketEstablished,
                old(self).options.spec_has_auth(),
            ),
            final(self).reconnect_attempts == 0,
            final(self).pending == old(self).pending,
            final(self).send == old(self).send,
            final(self).last_seen_version == old(self).last_seen_version,
            final(self).spec_same_config(*old(self)),
            old(self).wf() ==> final(self).wf(),
    {
        let has_auth = self.options.user.is_some();
        self.state = step(self.state, ConnEvent::SocketEstablished, has_auth);
        self.reconnect_attempts = 0;
    }

    /// What every request method leaves unchanged.
    pub open spec fn spec_request_frame(
        self,
        old_conn: Conn,
        tok: SyncToken,
        kind: RequestKind,
        frame: Seq<u8>,
    ) -> bool {
        &&& tok.sync == old_conn.send.next_sync
        &&& self.send.next_sync == old_conn.send.next_sync + 1
        &&& self.send.buf@ == old_conn.send.buf@ + frame
        &&& self.pending.entries@ == old_conn.pending.entries@.push(
            PendingEntry { sync: tok.sync, kind, state: Promise::Pending },
        )
        &&& self.state == old_conn.state
        &&& self.reconnect_attempts == old_conn.reconnect_attempts
        &&& self.last_seen_version == old_conn.last_seen_version
        &&& self.spec_same_config(old_conn)
    }

    /// The fresh id for the next request, with its table registration.
    fn begin_request(&mut self, kind: RequestKind) -> (r: u64)
        requires
            old(self).wf(),
            old(self).send.next_sync < u64::MAX,
        ensures
            final(self).wf(),
            r == old(self).send.next_sync,
            final(self).send.next_sync == old(self).send.next_sync + 1,
            final(self).send.buf == old(self).send.buf,
            final(self).pending.entries@ == old(self).pending.entries@.push(
                PendingEntry { sync: r, kind, state: Promise::Pending },
            ),
            final(self).state == old(self).state,
            final(self).reconnect_attempts == old(self).reconnect_attempts,
            final(self).last_seen_version == old(self).last_seen_version,
            final(self).spec_same_config(*old(self)),
    {
        let sync = self.send.alloc_sync();
        proof {
            lemma_index_of_none(self.pending.entries@, sync);
        }
        self.pending.register(sync, kind);
        sync
    }

    /// Enqueue a ping request.  In a terminal state it fails at once with
    /// a not-connected error; otherwise the encoded frame joins the send
    /// queue under a fresh correlation id and the returned token redeems
    /// the response, which decodes no body.
    pub fn ping(&mut self, _options: &Options) -> (r: Result<SyncToken, Error>)
        requires
            old(self).wf(),
            old(self).send.next_sync < u64::MAX,
        ensures
            final(self).wf(),
            !old(self).state.spec_is_usable() ==> r == Err::<SyncToken, Error>(
                Error::NotConnected,
            ) && *final(self) == *old(self),
            old(self).state.spec_is_usable() ==> (r matches Ok(tok) && final(self).spec_request_frame(
                *old(self),
                tok,
                RequestKind::Ping,
                spec_ping_request(old(self).send.next_sync),
            )),
    {
        if !self.state.is_usable() {
            return Err(Error::NotConnected);
        }
        let sync = self.begin_request(RequestKind::Ping);
        encode_ping(&mut self.send.buf, sync);
        Ok(SyncToken { sync })
    }

    /// Enqueue a call of the remote stored procedure `function_name` with
    /// `args`.  The response carries whatever the procedure returns, as at
    /// most one row.
    pub fn call(&mut self, function_name: &str, args: &Vec<Value>, _options: &Options) -> (r:
        Result<SyncToken, Error>)
        requires
            old(self).wf(),
            old(self).send.next_sync < u64::MAX,
            encode_utf8(function_name@).len() < 0x100000000,
            values_ok(args@),
        ensures
            final(self).wf(),
            !old(self).state.spec_is_usable() ==> r == Err::<SyncToken, Error>(
                Error::NotConnected,
            ) && *final(self) == *old(self),
            old(self).state.spec_is_usable() ==> (r matches Ok(tok) && final(self).spec_request_frame(
                *old(self),
                tok,
                RequestKind::Call,
                spec_call_request(old(self).send.next_sync, function_name@, args@),
            )),
    {
        if !self.state.is_usable() {
            return Err(Error::NotConnected);
        }
        let sync = self.begin_request(RequestKind::Call);
        encode_call(&mut self.send.buf, sync, function_name, args);
        Ok(SyncToken { sync })
    }

    /// The non-blocking form of [`Conn::call`]: the same enqueue and
    /// registration, with the default options; the token is the promise
    /// the response will keep.
    pub fn call_async(&mut self, func: &str, args: &Vec<Value>) -> (r: Result<SyncToken, Error>)
        requires
            old(self).wf(),
            old(self).send.next_sync < u64::MAX,
            encode_utf8(func@).len() < 0x100000000,
            values_ok(args@),
        ensures
            final(self).wf(),
            !old(self).state.spec_is_usable() ==> r == Err::<SyncToken, Error>(
                Error::NotConnected,
            ) && *final(self) == *old(self),
            old(self).state.spec_is_usable() ==> (r matches Ok(tok) && final(self).spec_request_frame(
                *old(self),
                tok,
                RequestKind::Call,
                spec_call_request(old(self).send.next_sync, func@, args@),
            )),
    {
        let options = Options { timeout_ms: None };
        self.call(func, args, &options)
    }

    /// Enqueue an eval of `expression` with `args` on the remote server.
    pub fn eval(&mut self, expression: &str, args: &Vec<Value>, _options: &Options) -> (r: Result<
        SyncToken,
        Error,
    >)
        requires
            old(self).wf(),
            old(self).send.next_sync < u64::MAX,
            encode_utf8(expression@).len() < 0x100000000,
            values_ok(args@),
        ensures
            final(self).wf(),
            !old(self).state.spec_is_usable() ==> r == Err::<SyncToken, Error>(
                Error::NotConnected,
            ) && *final(self) == *old(self),
            old(self).state.spec_is_usable() ==> (r matches Ok(tok) && final(self).spec_request_frame(
                *old(self),
                tok,
                RequestKind::Eval,
                spec_eval_request(old(self).send.next_sync, expression@, args@),
            )),
    {
        if !self.state.is_usable() {
            return Err(Error::NotConnected);
        }
        let sync = self.begin_request(RequestKind::Eval);
        encode_eval(&mut self.send.buf, sync, expression, args);
        Ok(SyncToken { sync })
    }

    /// The non-blocking form of [`Conn::eval`].
    pub fn eval_async(&mut self, expr: &str, args: &Vec<Value>) -> (r: Result<SyncToken, Error>)
        requires
            old(self).wf(),
            old(self).send.next_sync < u64::MAX,
            encode_utf8(expr@).len() < 0x100000000,
            values_ok(args@),
        ensures
            final(self).wf(),
            !old(self).state.spec_is_usable() ==> r == Err::<SyncToken, Error>(
                Error::NotConnected,
            ) && *final(self) == *old(self),
            old(self).state.spec_is_usable() ==> (r matches Ok(tok) && final(self).spec_request_frame(
                *old(self),
                tok,
                RequestKind::Eval,
                spec_eval_request(old(self).send.next_sync, expr@, args@),
            )),
    {
        let options = Options { timeout_ms: None };
        self.eval(expr, args, &options)
    }

    /// Enqueue a select against `space_id` and `index_id`: rows matching
    /// `key` under the scan order, at most `limit` of them, skipping
    /// `offset`.
    pub fn select(
        &mut self,
        space_id: u32,
        index_id: u32,
        key: &Vec<Value>,
        limit: u32,
        offset: u32,
        iterator: IteratorType,
    ) -> (r: Result<SyncToken, Error>)
        requires
            old(self).wf(),
            old(self).send.next_sync < u64::MAX,
            values_ok(key@),
        ensures
            final(self).wf(),
            !old(self).state.spec_is_usable() ==> r == Err::<SyncToken, Error>(
                Error::NotConnected,
            ) && *final(self) == *old(self),
            old(self).state.spec_is_usable() ==> (r matches Ok(tok) && final(self).spec_request_frame(
                *old(self),
                tok,
                RequestKind::Select,
                spec_select_request(
                    old(self).send.next_sync,
                    space_id,
                    index_id,
                    limit,
                    offset,
                    iterator,
                    key@,
                ),
            )),
    {
        if !self.state.is_usable() {
            return Err(Error::NotConnected);
        }
        let sync = self.begin_request(RequestKind::Select);
        encode_select(&mut self.send.buf, sync, space_id, index_id, limit, offset, iterator, key);
        Ok(SyncToken { sync })
    }

    /// Enqueue a remote execution of the statement `sql` with bound
    /// parameters.  The response carries the resulting rows.
    pub fn execute(&mut self, sql: &str, bind_params: &Vec<Value>, _options: &Options) -> (r:
        Result<SyncToken, Error>)
        requires
            old(self).wf(),
            old(self).send.next_sync < u64::MAX,
            encode_utf8(sql@).len() < 0x100000000,
            values_ok(bind_params@),
        ensures
            final(self).wf(),
            !old(self).state.spec_is_usable() ==> r == Err::<SyncToken, Error>(
                Error::NotConnected,
            ) && *final(self) == *old(self),
            old(self).state.spec_is_usable() ==> (r matches Ok(tok) && final(self).spec_request_frame(
                *old(self),
                tok,
                RequestKind::Execute,
                spec_execute_request(old(self).send.next_sync, sql@, bind_params@),
            )),
    {
        if !self.state.is_usable() {
            return Err(Error::NotConnected);
        }
        let sync = self.begin_request(RequestKind::Execute);
        encode_execute(&mut self.send.buf, sync, sql, bind_params);
        Ok(SyncToken { sync })
    }

    /// Process one response frame the driver read (header and body, the
    /// length prefix already stripped).  The header is decoded; the
    /// observed schema version is recorded; the pending request under the
    /// header's correlation id is fulfilled with the decoded result, a
    /// server error going only to that caller.  A frame for an unknown id
    /// is discarded whole.  A malformed frame changes nothing and is
    /// returned as the protocol error that drives reconnection.
    pub fn process_frame(&mut self, frame: &Vec<u8>) -> (r: Result<FrameOutcome, Error>)
        ensures
            r is Ok <==> (spec_parse_header(frame@, 0) matches Some((h, p))
                && match spec_index_of(old(self).pending.entries@, h.sync) {
                None => true,
                Some(i) => spec_body_decodes(
                    old(self).pending.entries@[i].kind,
                    h,
                    frame@,
                    p,
                ),
            }),
            r matches Err(e) ==> *final(self) == *old(self) && e == Error::Protocol(
                ProtocolError::Malformed,
            ),
            r matches Ok(o) ==> (spec_parse_header(frame@, 0) matches Some((h, p)) && {
                &&& o.sync == h.sync
                &&& o.schema_version == h.schema_version
                &&& final(self).last_seen_version == Some(h.schema_version)
                &&& final(self).state == old(self).state
                &&& final(self).send == old(self).send
                &&& final(self).reconnect_attempts == old(self).reconnect_attempts
                &&& final(self).spec_same_config(*old(self))
                &&& match spec_index_of(old(self).pending.entries@, h.sync) {
                    None => !o.delivered && final(self).pending.entries@ == old(self).pending.entries@,
                    Some(i) => {
                        &&& exists|res: Result<Response, Error>|
                            #![auto]
                            final(self).pending.entries@ == spec_deliver(
                                old(self).pending.entries@,
                                h.sync,
                                res,
                            ) && spec_result_matches(
                                old(self).pending.entries@[i].kind,
                                h,
                                frame@,
                                p,
                                res,
                            )
                        &&& o.delivered == (old(self).pending.entries@[i].state is Pending)
                    },
                }
            }),
            old(self).wf() ==> final(self).wf(),
    {
        let (header, body_pos) = match decode_header(frame, 0) {
            Ok(hp) => hp,
            Err(_) => {
                return Err(Error::Protocol(ProtocolError::Malformed));
            },
        };
        match self.pending.kind_of(header.sync) {
            None => {
                self.last_seen_version = Some(header.schema_version);
                Ok(
                    FrameOutcome {
                        sync: header.sync,
                        schema_version: header.schema_version,
                        delivered: false,
                    },
                )
            },
            Some(kind) => {
                let res: Result<Response, Error> = if header.is_error() {
                    match decode_error(frame, body_pos) {
                        Ok(msg) => {
                            let code = header.error_code();
                            Err(Error::Server(code as u32, msg))
                        },
                        Err(_) => {
                            return Err(Error::Protocol(ProtocolError::Malformed));
                        },
                    }
                } else {
                    match decode_body(kind, frame, body_pos) {
                        Ok(resp) => Ok(resp),
                        Err(_) => {
                            return Err(Error::Protocol(ProtocolError::Malformed));
                        },
                    }
                };
                let ghost res_ghost: Result<Response, Error> = res;
                self.last_seen_version = Some(header.schema_version);
                let delivered = self.pending.deliver(header.sync, res);
                proof {
                    assert(final(self).pending.entries@ == spec_deliver(
                        old(self).pending.entries@,
                        header.sync,
                        res_ghost,
                    ));
                    if old(self).wf() {
                        lemma_sync_bound_deliver(
                            old(self).pending.entries@,
                            header.sync,
                            res_ghost,
                            old(self).send.next_sync,
                        );
                    }
                }
                Ok(
                    FrameOutcome {
                        sync: header.sync,
                        schema_version: header.schema_version,
                        delivered,
                    },
                )
            },
        }
    }

    /// Redeem a token: the fulfilled result of that request, removing its
    /// entry; nothing while the response is still outstanding.
    pub fn try_result(&mut self, token: &SyncToken) -> (r: Option<Result<Response, Error>>)
        ensures
            match spec_index_of(old(self).pending.entries@, token.sync) {
                None => r is None && final(self).pending.entries@ == old(self).pending.entries@,
                Some(i) => match old(self).pending.entries@[i].state {
                    Promise::Pending => r is None && final(self).pending.entries@ == old(self).pending.entries@,
                    Promise::Kept(v) => r == Some(Ok::<Response, Error>(v)) && final(self).pending.entries@ == old(self).pending.entries@.remove(i),
                    Promise::Failed(e) => r == Some(Err::<Response, Error>(e)) && final(self).pending.entries@ == old(self).pending.entries@.remove(i),
                },
            },
            final(self).state == old(self).state,
            final(self).send == old(self).send,
            final(self).reconnect_attempts == old(self).reconnect_attempts,
            final(self).last_seen_version == old(self).last_seen_version,
            final(self).spec_same_config(*old(self)),
            old(self).wf() ==> final(self).wf(),
    {
        let r = self.pending.take_result(token.sync);
        proof {
            if old(self).wf() {
                lemma_sync_bound_remove(
                    old(self).pending.entries@,
                    token.sync,
                    old(self).send.next_sync,
                );
                match spec_index_of(old(self).pending.entries@, token.sync) {
                    None => {},
                    Some(i) => {
                        match old(self).pending.entries@[i].state {
                            Promise::Pending => {},
                            _ => {
                                assert(final(self).pending.entries@ == spec_remove(
                                    old(self).pending.entries@,
                                    token.sync,
                                ));
                            },
                        }
                    },
                }
            }
        }
        r
    }

    /// Abandon a timed-out request: its entry leaves the table, so the
    /// caller can fail with a timeout error while a late response for the
    /// same id finds nothing and is discarded.
    pub fn abandon(&mut self, token: &SyncToken)
        ensures
            final(self).pending.entries@ == spec_remove(old(self).pending.entries@, token.sync),
            final(self).state == old(self).state,
            final(self).send == old(self).send,
            final(self).reconnect_attempts == old(self).reconnect_attempts,
            final(self).last_seen_version == old(self).last_seen_version,
            final(self).spec_same_config(*old(self)),
            old(self).wf() ==> final(self).wf(),
    {
        self.pending.deregister(token.sync);
        proof {
            if old(self).wf() {
                lemma_sync_bound_remove(
                    old(self).pending.entries@,
                    token.sync,
                    old(self).send.next_sync,
                );
            }
        }
    }

    /// The id of the space `name` in the shared cache: a miss may mean the
    /// cache is stale, so the driver refreshes once and retries before
    /// concluding the space does not exist.
    pub fn space(&self, schema: &ConnSchema, name: &str) -> (r: Option<u32>)
        ensures
            r == spec_lookup_space(schema.space_ids@, name.spec_bytes()),
    {
        schema.lookup_space(name)
    }

    /// The id of the index `name` of space `space_id` in the shared cache.
    pub fn index(&self, schema: &ConnSchema, name: &str, space_id: u32) -> (r: Option<u32>)
        ensures
            r == spec_lookup_index(schema.index_ids@, space_id, name.spec_bytes()),
    {
        schema.lookup_index(name, space_id)
    }

    /// Whether the newest schema version observed in a response header is
    /// ahead of the shared cache, so that the driver must refresh before
    /// trusting a lookup miss.  No caller has to force a refresh: the
    /// engine records every version the server reports.
    pub fn schema_needs_refresh(&self, schema: &ConnSchema) -> (r: bool)
        ensures
            r == schema.spec_is_outdated(self.last_seen_version),
    {
        schema.is_outdated(self.last_seen_version)
    }

    /// Whether a failed request is retried after a transparent schema
    /// refresh: only when no retry has happened yet and the engine has
    /// observed a version ahead of the shared cache — so the
    /// refresh-and-retry happens exactly once before any error surfaces.
    pub fn should_retry_after_refresh(&self, schema: &ConnSchema, already_retried: bool) -> (r:
        bool)
        ensures
            r == (!already_retried && schema.spec_is_outdated(self.last_seen_version)),
    {
        !already_retried && schema.is_outdated(self.last_seen_version)
    }

    /// Hand the driver the bytes awaiting the socket write, in enqueue
    /// order, leaving the queue empty.
    pub fn take_output(&mut self) -> (r: Vec<u8>)
        ensures
            r@ == old(self).send.buf@,
            final(self).send.buf@.len() == 0,
            final(self).send.next_sync == old(self).send.next_sync,
            final(self).state == old(self).state,
            final(self).pending == old(self).pending,
            final(self).reconnect_attempts == old(self).reconnect_attempts,
            final(self).last_seen_version == old(self).last_seen_version,
            final(self).spec_same_config(*old(self)),
            old(self).wf() ==> final(self).wf(),
    {
        self.send.take_output()
    }
}

} // verus!
