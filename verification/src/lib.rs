//! Client for a remote database server speaking a binary, length-prefixed,
//! MessagePack-encoded request/response protocol over one reconnectable
//! stream socket.
//!
//! The crate is the protocol engine: it encodes typed requests, decodes
//! typed responses, multiplexes many logical requests over one socket by
//! correlation id, keeps a schema cache of name-to-id mappings, and drives
//! the connection state machine.  All socket I/O is performed by a driver
//! outside the crate: the engine hands it encoded bytes to write and is fed
//! the frames it reads back.

pub mod conn;
pub mod datetime;
pub mod error;
pub mod msgpack;
pub mod promise;
pub mod protocol;
pub mod recv_queue;
pub mod schema;
pub mod send_queue;
pub mod state;
pub mod util;
