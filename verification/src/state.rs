//! The connection state machine: explicit states, explicit events, and one
//! transition function, plus the bounded reconnect policy.

use vstd::prelude::*;

verus! {

/// The lifecycle states of a connection.
#[derive(Debug, Clone, Copy, PartialEq, Eq, Structural)]
pub enum ConnState {
    /// Constructed, worker not yet started.
    Initial,
    /// The worker is establishing the socket.
    Connecting,
    /// The socket is up; credentials are being presented.
    Auth,
    /// The schema is being loaded or reloaded.
    FetchSchema,
    /// Ready: requests flow.
    Active,
    /// An I/O error occurred; waiting out the reconnect delay.
    ErrorReconnect,
    /// Terminal failure: reconnection disabled or attempts exhausted.
    Error,
    /// Terminal: closed explicitly or by dropping the last owning handle.
    Closed,
}

/// The events that drive the state machine.
#[derive(Debug, Clone, Copy, PartialEq, Eq, Structural)]
pub enum ConnEvent {
    /// The worker was spawned.
    Construct,
    /// The socket was established.
    SocketEstablished,
    /// The server accepted the credentials.
    AuthSucceeded,
    /// The schema cache was (re)loaded.
    SchemaLoaded,
    /// A response header reported a schema version newer than the cache.
    SchemaOutdated,
    /// An unrecoverable I/O or framing error.
    IoError,
    /// The configured reconnect delay elapsed.
    ReconnectDelayElapsed,
    /// Reconnection is disabled or its attempts are exhausted.
    ReconnectExhausted,
    /// Explicit close.
    Close,
}

impl ConnState {
    /// Whether a request may be issued or stay pending in this state; in
    /// the two terminal failure states every request fails immediately.
    pub open spec fn spec_is_usable(self) -> bool {
        !(self is Error || self is Closed)
    }

    /// Whether a request may be issued in this state.
    pub fn is_usable(&self) -> (r: bool)
        ensures
            r == self.spec_is_usable(),
    {
        match self {
            ConnState::Error => false,
            ConnState::Closed => false,
            _ => true,
        }
    }
}

/// The next state after `event` in state `s`.  `has_auth` tells whether
/// credentials are configured, which decides the stop after the socket is
/// established.  An event that does not apply in a state leaves the state
/// as it is.
pub open spec fn spec_step(s: ConnState, event: ConnEvent, has_auth: bool) -> ConnState {
    match (s, event) {
        (ConnState::Initial, ConnEvent::Construct) => ConnState::Connecting,
        (ConnState::Connecting, ConnEvent::SocketEstablished) => if has_auth {
            ConnState::Auth
        } else {
            ConnState::FetchSchema
        },
        (ConnState::Auth, ConnEvent::AuthSucceeded) => ConnState::FetchSchema,
        (ConnState::FetchSchema, ConnEvent::SchemaLoaded) => ConnState::Active,
        (ConnState::Active, ConnEvent::SchemaOutdated) => ConnState::FetchSchema,
        (ConnState::ErrorReconnect, ConnEvent::ReconnectDelayElapsed) => ConnState::Connecting,
        (ConnState::ErrorReconnect, ConnEvent::ReconnectExhausted) => ConnState::Error,
        (_, ConnEvent::IoError) => if s is Closed || s is Error {
            s
        } else {
            ConnState::ErrorReconnect
        },
        (_, ConnEvent::Close) => if s is Error {
            s
        } else {
            ConnState::Closed
        },
        _ => s,
    }
}

/// The next state after `event` in state `s`.
pub fn step(s: ConnState, event: ConnEvent, has_auth: bool) -> (r: ConnState)
    ensures
        r == spec_step(s, event, has_auth),
{
    match (s, event) {
        (ConnState::Initial, ConnEvent::Construct) => ConnState::Connecting,
        (ConnState::Connecting, ConnEvent::SocketEstablished) => if has_auth {
            ConnState::Auth
        } else {
            ConnState::FetchSchema
        },
        (ConnState::Auth, ConnEvent::AuthSucceeded) => ConnState::FetchSchema,
        (ConnState::FetchSchema, ConnEvent::SchemaLoaded) => ConnState::Active,
        (ConnState::Active, ConnEvent::SchemaOutdated) => ConnState::FetchSchema,
        (ConnState::ErrorReconnect, ConnEvent::ReconnectDelayElapsed) => ConnState::Connecting,
        (ConnState::ErrorReconnect, ConnEvent::ReconnectExhausted) => ConnState::Error,
        (_, ConnEvent::IoError) => if matches!(s, ConnState::Closed) || matches!(
            s,
            ConnState::Error,
        ) {
            s
        } else {
            ConnState::ErrorReconnect
        },
        (_, ConnEvent::Close) => if matches!(s, ConnState::Error) {
            s
        } else {
            ConnState::Closed
        },
        _ => s,
    }
}

/// Closing is idempotent: a second close changes nothing, whatever state
/// the first one found.
pub proof fn lemma_close_idempotent(s: ConnState, has_auth: bool)
    ensures
        spec_step(spec_step(s, ConnEvent::Close, has_auth), ConnEvent::Close, has_auth)
            == spec_step(s, ConnEvent::Close, has_auth),
{
}

/// Bounded reconnect policy: the fixed delay between attempts and the cap
/// on how many are made.  No interval disables reconnection entirely.
#[derive(Debug, Clone, Copy, PartialEq, Eq, Structural)]
pub struct ReconnectPolicy {
    /// Delay before each reconnect attempt; `None` disables reconnection.
    pub interval_ms: Option<u64>,
    /// Cap on attempts; `None` means unbounded.
    pub max_attempts: Option<u32>,
}

impl ReconnectPolicy {
    /// The delay before the next attempt, or `None` when no further
    /// attempt is allowed.
    pub open spec fn spec_next_delay(self, attempts_made: u32) -> Option<u64> {
        match self.interval_ms {
            None => None,
            Some(iv) => match self.max_attempts {
                None => Some(iv),
                Some(max) => if attempts_made < max {
                    Some(iv)
                } else {
                    None
                },
            },
        }
    }

    /// The delay before the next attempt, or `None` when no further
    /// attempt is allowed.
    pub fn next_delay(&self, attempts_made: u32) -> (r: Option<u64>)
        ensures
            r == self.spec_next_delay(attempts_made),
    {
        match self.interval_ms {
            None => None,
            Some(iv) => match self.max_attempts {
                None => Some(iv),
                Some(max) => if attempts_made < max {
                    Some(iv)
                } else {
                    None
                },
            },
        }
    }
}

} // verus!
