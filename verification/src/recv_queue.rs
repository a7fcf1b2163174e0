//! Pending-request table of the receive path.
//!
//! Each in-flight request is registered under its correlation id with the
//! decoder kind its response needs and a completion cell.  The receive path
//! looks a response up by the correlation id of its header and fulfills
//! exactly that entry; a response bearing an unknown id is discarded.  The
//! table owns the delivery model: delivery to one id never touches another
//! entry, and the order in which responses for different ids arrive does
//! not matter.

use vstd::prelude::*;

use crate::error::Error;
use crate::promise::Promise;
use crate::protocol::{RequestKind, Response};

verus! {

/// One in-flight request: its correlation id, how to decode its response,
/// and the completion cell its caller reads.
#[derive(Debug, Clone, PartialEq, Eq)]
pub struct PendingEntry {
    pub sync: u64,
    pub kind: RequestKind,
    pub state: Promise<Response>,
}

/// The index of the entry registered under `sync`, later entries shadowing
/// earlier ones (the table never holds two live entries with one id).
pub open spec fn spec_index_of(entries: Seq<PendingEntry>, sync: u64) -> Option<int>
    decreases entries.len(),
{
    if entries.len() == 0 {
        None
    } else if entries.last().sync == sync {
        Some(entries.len() - 1)
    } else {
        spec_index_of(entries.drop_last(), sync)
    }
}

/// Whether an entry is registered under `sync`.
pub open spec fn spec_contains_sync(entries: Seq<PendingEntry>, sync: u64) -> bool {
    spec_index_of(entries, sync) is Some
}

/// The completion state a delivery writes.
pub open spec fn spec_done(result: Result<Response, Error>) -> Promise<Response> {
    match result {
        Ok(v) => Promise::Kept(v),
        Err(e) => Promise::Failed(e),
    }
}

/// The table after delivering `result` to the entry under `sync`: that
/// entry's pending cell is fulfilled; every other entry, and any entry
/// already fulfilled, is untouched; an unknown id changes nothing.
pub open spec fn spec_deliver(
    entries: Seq<PendingEntry>,
    sync: u64,
    result: Result<Response, Error>,
) -> Seq<PendingEntry> {
    match spec_index_of(entries, sync) {
        None => entries,
        Some(i) => if entries[i].state is Pending {
            entries.update(i, PendingEntry { state: spec_done(result), ..entries[i] })
        } else {
            entries
        },
    }
}

/// The table after failing every still-pending entry with `err`, exactly
/// once each: entries already fulfilled are untouched.
pub open spec fn spec_fail_all(entries: Seq<PendingEntry>, err: Error) -> Seq<PendingEntry> {
    Seq::new(
        entries.len(),
        |i: int|
            if entries[i].state is Pending {
                PendingEntry { state: Promise::Failed(err), ..entries[i] }
            } else {
                entries[i]
            },
    )
}

/// The table after dropping the entry under `sync`, if any.
pub open spec fn spec_remove(entries: Seq<PendingEntry>, sync: u64) -> Seq<PendingEntry> {
    match spec_index_of(entries, sync) {
        None => entries,
        Some(i) => entries.remove(i),
    }
}

/// An absent id means no entry bears it.
pub proof fn lemma_index_of_none(entries: Seq<PendingEntry>, sync: u64)
    ensures
        spec_index_of(entries, sync) is None <==> forall|i: int|
            0 <= i < entries.len() ==> (#[trigger] entries[i]).sync != sync,
    decreases entries.len(),
{
    if entries.len() > 0 {
        lemma_index_of_none(entries.drop_last(), sync);
        assert(forall|i: int|
            0 <= i < entries.len() - 1 ==> entries.drop_last()[i] == #[trigger] entries[i]);
    }
}

/// A found index is in range and bears the id.
pub proof fn lemma_index_of_some(entries: Seq<PendingEntry>, sync: u64)
    requires
        spec_index_of(entries, sync) is Some,
    ensures
        spec_index_of(entries, sync) matches Some(i) ==> 0 <= i < entries.len()
            && entries[i].sync == sync,
    decreases entries.len(),
{
    if entries.len() > 0 && entries.last().sync != sync {
        lemma_index_of_some(entries.drop_last(), sync);
    }
}

/// Which entry an id resolves to depends only on the ids: fulfilling a
/// cell moves no entry.
pub proof fn lemma_index_of_update_state(
    entries: Seq<PendingEntry>,
    i: int,
    st: Promise<Response>,
    sync: u64,
)
    requires
        0 <= i < entries.len(),
    ensures
        spec_index_of(entries.update(i, PendingEntry { state: st, ..entries[i] }), sync)
            == spec_index_of(entries, sync),
    decreases entries.len(),
{
    let updated = entries.update(i, PendingEntry { state: st, ..entries[i] });
    if i == entries.len() - 1 {
        assert(updated.drop_last() =~= entries.drop_last());
    } else {
        assert(updated.drop_last() =~= entries.drop_last().update(
            i,
            PendingEntry { state: st, ..entries[i] },
        ));
        assert(entries.drop_last()[i] == entries[i]);
        lemma_index_of_update_state(entries.drop_last(), i, st, sync);
    }
}

/// No cross-delivery: delivering to one id leaves every entry under
/// another id exactly as it was.
pub proof fn lemma_no_cross_delivery(
    entries: Seq<PendingEntry>,
    sync: u64,
    result: Result<Response, Error>,
    i: int,
)
    requires
        0 <= i < entries.len(),
        entries[i].sync != sync,
    ensures
        spec_deliver(entries, sync, result)[i] == entries[i],
{
    match spec_index_of(entries, sync) {
        None => {},
        Some(j) => {
            lemma_index_of_some(entries, sync);
        },
    }
}

/// Deliveries for two different ids land in the same table whichever
/// arrives first: response reordering cannot cross wires.
pub proof fn lemma_delivery_order_immaterial(
    entries: Seq<PendingEntry>,
    s1: u64,
    r1: Result<Response, Error>,
    s2: u64,
    r2: Result<Response, Error>,
)
    requires
        s1 != s2,
    ensures
        spec_deliver(spec_deliver(entries, s1, r1), s2, r2) == spec_deliver(
            spec_deliver(entries, s2, r2),
            s1,
            r1,
        ),
{
    let i1 = spec_index_of(entries, s1);
    let i2 = spec_index_of(entries, s2);
    if i1 is Some {
        lemma_index_of_some(entries, s1);
    }
    if i2 is Some {
        lemma_index_of_some(entries, s2);
    }
    match (i1, i2) {
        (Some(a), Some(b)) => {
            let e1 = PendingEntry { state: spec_done(r1), ..entries[a] };
            let e2 = PendingEntry { state: spec_done(r2), ..entries[b] };
            lemma_index_of_update_state(entries, a, spec_done(r1), s2);
            lemma_index_of_update_state(entries, b, spec_done(r2), s1);
            if entries[a].state is Pending && entries[b].state is Pending {
                assert(entries.update(a, e1)[b] == entries[b]);
                assert(entries.update(b, e2)[a] == entries[a]);
                assert(entries.update(a, e1).update(b, e2) =~= entries.update(b, e2).update(
                    a,
                    e1,
                ));
            } else if entries[a].state is Pending {
                assert(entries.update(a, e1)[b] == entries[b]);
            } else if entries[b].state is Pending {
                assert(entries.update(b, e2)[a] == entries[a]);
            }
        },
        (Some(a), None) => {
            if entries[a].state is Pending {
                lemma_index_of_update_state(entries, a, spec_done(r1), s2);
            }
        },
        (None, Some(b)) => {
            if entries[b].state is Pending {
                lemma_index_of_update_state(entries, b, spec_done(r2), s1);
            }
        },
        (None, None) => {},
    }
}

/// Failing everything twice is the same as failing it once: the second
/// pass finds nothing pending.
pub proof fn lemma_fail_all_idempotent(entries: Seq<PendingEntry>, err: Error)
    ensures
        spec_fail_all(spec_fail_all(entries, err), err) == spec_fail_all(entries, err),
{
    assert(spec_fail_all(spec_fail_all(entries, err), err) =~= spec_fail_all(entries, err));
}

/// A removed id stays unknown: a late response delivered after its request
/// was deregistered changes nothing.
pub proof fn lemma_stray_after_remove(
    entries: Seq<PendingEntry>,
    sync: u64,
    result: Result<Response, Error>,
)
    requires
        forall|i: int, j: int|
            0 <= i < entries.len() && 0 <= j < entries.len() && i != j ==> (#[trigger] entries[i]).sync
                != (#[trigger] entries[j]).sync,
    ensures
        spec_deliver(spec_remove(entries, sync), sync, result) == spec_remove(entries, sync),
{
    match spec_index_of(entries, sync) {
        None => {
            lemma_index_of_none(entries, sync);
        },
        Some(i) => {
            lemma_index_of_some(entries, sync);
            let removed = entries.remove(i);
            assert(forall|k: int|
                0 <= k < removed.len() ==> #[trigger] removed[k] == if k < i {
                    entries[k]
                } else {
                    entries[k + 1]
                });
            assert(forall|k: int| 0 <= k < removed.len() ==> (#[trigger] removed[k]).sync != sync);
            lemma_index_of_none(removed, sync);
        },
    }
}

/// The pending-request table.
#[derive(Debug, Clone, PartialEq, Eq)]
pub struct RecvQueue {
    pub entries: Vec<PendingEntry>,
}

impl RecvQueue {
    /// No two live entries share a correlation id.
    pub open spec fn wf(self) -> bool {
        forall|i: int, j: int|
            0 <= i < self.entries@.len() && 0 <= j < self.entries@.len() && i != j ==> (
            #[trigger] self.entries@[i]).sync != (#[trigger] self.entries@[j]).sync
    }

    /// An empty table.
    pub fn new() -> (r: RecvQueue)
        ensures
            r.entries@.len() == 0,
            r.wf(),
    {
        RecvQueue { entries: Vec::new() }
    }

    /// How many requests are in flight or awaiting pickup.
    pub fn len(&self) -> (r: usize)
        ensures
            r == self.entries@.len(),
    {
        self.entries.len()
    }

    /// Whether an entry is registered under `sync`.
    pub fn has(&self, sync: u64) -> (r: bool)
        ensures
            r == spec_contains_sync(self.entries@, sync),
    {
        match self.index_of(sync) {
            Some(_) => true,
            None => false,
        }
    }

    /// The index of the entry under `sync`.
    fn index_of(&self, sync: u64) -> (r: Option<usize>)
        ensures
            match r {
                Some(i) => spec_index_of(self.entries@, sync) == Some(i as int) && i
                    < self.entries@.len(),
                None => spec_index_of(self.entries@, sync) is None,
            },
    {
        let mut i: usize = self.entries.len();
        assert(self.entries@.subrange(0, i as int) =~= self.entries@);
        while i > 0
            invariant
                i <= self.entries@.len(),
                spec_index_of(self.entries@, sync) == spec_index_of(
                    self.entries@.subrange(0, i as int),
                    sync,
                ),
            decreases i,
        {
            i = i - 1;
            if self.entries[i].sync == sync {
                return Some(i);
            }
            assert(self.entries@.subrange(0, i as int + 1).drop_last() =~= self.entries@.subrange(
                0,
                i as int,
            ));
        }
        None
    }

    /// Register a request under a fresh correlation id.
    pub fn register(&mut self, sync: u64, kind: RequestKind)
        requires
            !spec_contains_sync(old(self).entries@, sync),
        ensures
            final(self).entries@ == old(self).entries@.push(
                PendingEntry { sync, kind, state: Promise::Pending },
            ),
            old(self).wf() ==> final(self).wf(),
    {
        proof {
            lemma_index_of_none(self.entries@, sync);
        }
        self.entries.push(PendingEntry { sync, kind, state: Promise::new() });
    }

    /// The decoder kind registered under `sync`.
    pub fn kind_of(&self, sync: u64) -> (r: Option<RequestKind>)
        ensures
            r == match spec_index_of(self.entries@, sync) {
                None => None::<RequestKind>,
                Some(i) => Some(self.entries@[i].kind),
            },
    {
        match self.index_of(sync) {
            None => None,
            Some(i) => Some(self.entries[i].kind),
        }
    }

    /// Deliver a decoded result to the entry under `sync`, fulfilling its
    /// cell; an unknown or already-fulfilled id leaves the table unchanged.
    /// Returns whether a pending entry was fulfilled.
    pub fn deliver(&mut self, sync: u64, result: Result<Response, Error>) -> (delivered: bool)
        ensures
            final(self).entries@ == spec_deliver(old(self).entries@, sync, result),
            delivered == (match spec_index_of(old(self).entries@, sync) {
                None => false,
                Some(i) => old(self).entries@[i].state is Pending,
            }),
            old(self).wf() ==> final(self).wf(),
    {
        match self.index_of(sync) {
            None => false,
            Some(i) => {
                proof {
                    lemma_index_of_some(self.entries@, sync);
                }
                let e = &mut self.entries[i];
                match &e.state {
                    Promise::Pending => {
                        match result {
                            Ok(v) => e.state.keep(v),
                            Err(err) => e.state.fail(err),
                        }
                        proof {
                            if old(self).wf() {
                                assert(final(self).wf());
                            }
                        }
                        true
                    },
                    _ => {
                        assert(final(self).entries@ =~= old(self).entries@);
                        false
                    },
                }
            },
        }
    }

    /// Take the fulfilled result registered under `sync`, removing the
    /// entry: the caller-side pickup.  A still-pending or unknown id
    /// yields nothing and changes nothing.
    pub fn take_result(&mut self, sync: u64) -> (r: Option<Result<Response, Error>>)
        ensures
            match spec_index_of(old(self).entries@, sync) {
                None => r is None && final(self).entries@ == old(self).entries@,
                Some(i) => match old(self).entries@[i].state {
                    Promise::Pending => r is None && final(self).entries@ == old(self).entries@,
                    Promise::Kept(v) => r == Some(Ok::<Response, Error>(v)) && final(self).entries@ == old(self).entries@.remove(i),
                    Promise::Failed(e) => r == Some(Err::<Response, Error>(e)) && final(self).entries@ == old(self).entries@.remove(i),
                },
            },
            old(self).wf() ==> final(self).wf(),
    {
        match self.index_of(sync) {
            None => None,
            Some(i) => {
                proof {
                    lemma_index_of_some(self.entries@, sync);
                }
                if self.entries[i].state.is_pending() {
                    return None;
                }
                let e = self.entries.remove(i);
                proof {
                    if old(self).wf() {
                        assert forall|a: int, b: int|
                            0 <= a < final(self).entries@.len() && 0 <= b < final(self).entries@.len() && a != b implies (#[trigger] final(self).entries@[a]).sync != (#[trigger] final(self).entries@[b]).sync by {
                            let old_a: int = if a < i { a } else { a + 1 };
                            let old_b: int = if b < i { b } else { b + 1 };
                            assert(final(self).entries@[a] == old(self).entries@[old_a]);
                            assert(final(self).entries@[b] == old(self).entries@[old_b]);
                        }
                    }
                }
                match e.state {
                    Promise::Kept(v) => Some(Ok(v)),
                    Promise::Failed(err) => Some(Err(err)),
                    Promise::Pending => None,
                }
            },
        }
    }

    /// Remove the entry under `sync` whatever its state: the timeout path,
    /// so that a late response finds nothing and is discarded.
    pub fn deregister(&mut self, sync: u64)
        ensures
            final(self).entries@ == spec_remove(old(self).entries@, sync),
            old(self).wf() ==> final(self).wf(),
    {
        match self.index_of(sync) {
            None => {},
            Some(i) => {
                proof {
                    lemma_index_of_some(self.entries@, sync);
                }
                let _ = self.entries.remove(i);
                proof {
                    if old(self).wf() {
                        assert forall|a: int, b: int|
                            0 <= a < final(self).entries@.len() && 0 <= b < final(self).entries@.len() && a != b implies (#[trigger] final(self).entries@[a]).sync != (#[trigger] final(self).entries@[b]).sync by {
                            let old_a: int = if a < i { a } else { a + 1 };
                            let old_b: int = if b < i { b } else { b + 1 };
                            assert(final(self).entries@[a] == old(self).entries@[old_a]);
                            assert(final(self).entries@[b] == old(self).entries@[old_b]);
                        }
                    }
                }
            },
        }
    }

    /// Fail every still-pending entry with a not-connected error, exactly
    /// once each: the close and connection-error path.
    pub fn fail_all(&mut self)
        ensures
            final(self).entries@ == spec_fail_all(old(self).entries@, Error::NotConnected),
            old(self).wf() ==> final(self).wf(),
    {
        let n: usize = self.entries.len();
        let mut i: usize = 0;
        while i < n
            invariant
                n == self.entries@.len(),
                n == old(self).entries@.len(),
                i <= n,
                forall|j: int|
                    0 <= j < i ==> self.entries@[j] == spec_fail_all(
                        old(self).entries@,
                        Error::NotConnected,
                    )[j],
                forall|j: int| i <= j < n ==> self.entries@[j] == old(self).entries@[j],
            decreases n - i,
        {
            let e = &mut self.entries[i];
            match &e.state {
                Promise::Pending => {
                    e.state.fail(Error::NotConnected);
                },
                _ => {},
            }
            i = i + 1;
        }
        assert(final(self).entries@ =~= spec_fail_all(old(self).entries@, Error::NotConnected));
        proof {
            if old(self).wf() {
                assert forall|a: int, b: int|
                    0 <= a < final(self).entries@.len() && 0 <= b < final(self).entries@.len() && a
                        != b implies (#[trigger] final(self).entries@[a]).sync != (#[trigger] final(self).entries@[b]).sync by {
                    assert(final(self).entries@[a].sync == old(self).entries@[a].sync);
                    assert(final(self).entries@[b].sync == old(self).entries@[b].sync);
                }
            }
        }
    }
}

} // verus!
