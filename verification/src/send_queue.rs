//! Send queue: allocates correlation ids and buffers encoded frames in
//! enqueue order until the driver writes them to the socket.
//!
//! Correlation ids come from a counter scoped to the current socket
//! generation; it never hands out the same id twice within a generation, so
//! an id is never reused while a response is outstanding.

use vstd::prelude::*;

verus! {

/// The outgoing side of a connection: the id counter and the bytes not yet
/// written to the socket.
#[derive(Debug, Clone, PartialEq, Eq)]
pub struct SendQueue {
    /// The next correlation id to hand out; strictly above every id handed
    /// out before in this socket generation.
    pub next_sync: u64,
    /// Encoded frames in enqueue order, awaiting the socket write.
    pub buf: Vec<u8>,
}

impl SendQueue {
    /// An empty queue starting a fresh socket generation.
    pub fn new() -> (r: SendQueue)
        ensures
            r.next_sync == 0,
            r.buf@.len() == 0,
    {
        SendQueue { next_sync: 0, buf: Vec::new() }
    }

    /// Hand out the next correlation id.
    pub fn alloc_sync(&mut self) -> (r: u64)
        requires
            old(self).next_sync < u64::MAX,
        ensures
            r == old(self).next_sync,
            final(self).next_sync == old(self).next_sync + 1,
            final(self).buf == old(self).buf,
    {
        let s = self.next_sync;
        self.next_sync = self.next_sync + 1;
        s
    }

    /// Hand the buffered bytes to the driver for writing, leaving the
    /// queue empty.  Frames come out exactly in enqueue order.
    pub fn take_output(&mut self) -> (r: Vec<u8>)
        ensures
            r@ == old(self).buf@,
            final(self).buf@.len() == 0,
            final(self).next_sync == old(self).next_sync,
    {
        let mut out: Vec<u8> = Vec::new();
        std::mem::swap(&mut out, &mut self.buf);
        out
    }
}

} // verus!
