//! Schema cache: name-to-id mappings for spaces and indexes, keyed by the
//! schema version the server reports.
//!
//! A cache is shared by all connections to the same destination address set
//! through an explicit registry handed to the connection constructor.  The
//! cache is replaced in full by a refresh, which the driver performs as two
//! privileged selects against the system catalog.  Reloads are single
//! flight: `plan_refresh` lets one caller fetch while concurrent observers
//! of the same stale version wait for it, and the double check of
//! `refresh` bounds the reloads to one per actual version bump.  No error
//! path leaves the refresh looking in flight.

use vstd::prelude::*;

use crate::error::{Error, ProtocolError};
use crate::protocol::{
    encode_select, spec_parse_triple, spec_select_request, IteratorType, Tuple,
};
use crate::util::{bytes_eq, Value};
use vstd::string::{StrSliceExecFns, StringSliceAdditionalSpecFns};

verus! {

/// Id of the privileged system table listing every space.
pub const SPACE_CATALOG_ID: u32 = 280;

/// Id of the privileged system table listing every index.
pub const INDEX_CATALOG_ID: u32 = 288;

/// One cached space: its name on the wire and its numeric id.
#[derive(Debug, Clone, PartialEq, Eq)]
pub struct SpaceEntry {
    pub name: Vec<u8>,
    pub id: u32,
}

/// One cached index: the id of its space, its name, and its numeric id.
#[derive(Debug, Clone, PartialEq, Eq)]
pub struct IndexEntry {
    pub space_id: u32,
    pub name: Vec<u8>,
    pub index_id: u32,
}

/// Whether one catalog row decodes as a triple of two ids and a name.
pub open spec fn row_ok(t: Seq<u8>) -> bool {
    match spec_parse_triple(t) {
        Some((a, c, _)) => a <= u32::MAX && c <= u32::MAX,
        None => false,
    }
}

/// Whether every catalog row decodes as a triple.
pub open spec fn rows_ok(rows: Seq<Tuple>) -> bool {
    forall|i: int| 0 <= i < rows.len() ==> row_ok(#[trigger] rows[i]@)
}

/// The id cached for `name`, insertion order deciding between duplicates.
pub open spec fn spec_lookup_space(entries: Seq<SpaceEntry>, name: Seq<u8>) -> Option<u32>
    decreases entries.len(),
{
    if entries.len() == 0 {
        None
    } else if entries.last().name@ == name {
        Some(entries.last().id)
    } else {
        spec_lookup_space(entries.drop_last(), name)
    }
}

/// The id cached for the index `name` of space `space_id`.
pub open spec fn spec_lookup_index(entries: Seq<IndexEntry>, space_id: u32, name: Seq<u8>) -> Option<
    u32,
>
    decreases entries.len(),
{
    if entries.len() == 0 {
        None
    } else if entries.last().space_id == space_id && entries.last().name@ == name {
        Some(entries.last().index_id)
    } else {
        spec_lookup_index(entries.drop_last(), space_id, name)
    }
}

/// A name borne by no entry is not resolved: after a full refresh, a miss
/// means the catalog the cache was read from holds no such space.
pub proof fn lemma_lookup_space_miss(entries: Seq<SpaceEntry>, name: Seq<u8>)
    requires
        forall|i: int| 0 <= i < entries.len() ==> (#[trigger] entries[i]).name@ != name,
    ensures
        spec_lookup_space(entries, name) is None,
    decreases entries.len(),
{
    if entries.len() > 0 {
        assert(forall|i: int|
            0 <= i < entries.len() - 1 ==> entries.drop_last()[i] == #[trigger] entries[i]);
        lemma_lookup_space_miss(entries.drop_last(), name);
    }
}

/// The lookup resolves a name to the id of the last entry bearing it:
/// after a refresh whose catalog rows bind the name to an id, that id is
/// what every observer reads.
pub proof fn lemma_lookup_space_hit(entries: Seq<SpaceEntry>, name: Seq<u8>, k: int)
    requires
        0 <= k < entries.len(),
        entries[k].name@ == name,
        forall|j: int| k < j < entries.len() ==> (#[trigger] entries[j]).name@ != name,
    ensures
        spec_lookup_space(entries, name) == Some(entries[k].id),
    decreases entries.len(),
{
    if k < entries.len() - 1 {
        assert(forall|i: int|
            0 <= i < entries.len() - 1 ==> entries.drop_last()[i] == #[trigger] entries[i]);
        lemma_lookup_space_hit(entries.drop_last(), name, k);
    }
}

/// What a caller must do about the cache for the version it observed.
#[derive(Debug, Clone, Copy, PartialEq, Eq, Structural)]
pub enum RefreshPlan {
    /// The cache already covers the observation: look up and go on.
    Current,
    /// Another caller's refresh is in flight: wait for it and re-check
    /// rather than issuing a redundant reload.
    Wait,
    /// The cache is stale and nobody is refreshing: this caller fetches,
    /// and the in-flight flag is now its.
    Fetch,
}

/// Per-destination cache of space and index ids, with the schema version
/// they were read under.
#[derive(Debug, Clone, PartialEq, Eq)]
pub struct ConnSchema {
    /// The schema version the maps were read under; `None` until the first
    /// refresh.
    pub version: Option<u64>,
    /// Whether a refresh is being performed right now; concurrent callers
    /// that find it set wait for that refresh instead of starting another.
    pub is_updating: bool,
    /// The cached spaces, in catalog row order.
    pub space_ids: Vec<SpaceEntry>,
    /// The cached indexes, in catalog row order.
    pub index_ids: Vec<IndexEntry>,
}

impl ConnSchema {
    /// Whether the cache must be refreshed for a caller that observed
    /// `actual_version` in a response header: yes when the observation
    /// carries no version, when nothing is cached yet, or when the observed
    /// version is strictly newer than the cached one.
    pub open spec fn spec_is_outdated(self, actual_version: Option<u64>) -> bool {
        match actual_version {
            None => true,
            Some(av) => match self.version {
                None => true,
                Some(cv) => av > cv,
            },
        }
    }

    /// An empty cache: no version, nothing mapped, no refresh running.
    pub fn new() -> (r: ConnSchema)
        ensures
            r.version is None,
            !r.is_updating,
            r.space_ids@.len() == 0,
            r.index_ids@.len() == 0,
    {
        ConnSchema { version: None, is_updating: false, space_ids: Vec::new(), index_ids: Vec::new() }
    }

    /// The shared cache slot for a destination address set: the slot of
    /// the first address already known to the registry, or a fresh empty
    /// cache bound to every address of the set.
    pub fn acquire(registry: &mut SchemaRegistry, addrs: &Vec<Addr>) -> (r: usize)
        requires
            old(registry).wf(),
        ensures
            final(registry).wf(),
            r < final(registry).schemas@.len(),
            spec_find_any(old(registry).bindings@, addrs@) matches Some(s) ==> r == s && *final(registry) == *old(registry),
            spec_find_any(old(registry).bindings@, addrs@) is None ==> r == old(registry).schemas@.len() && final(registry).schemas@.len() == old(registry).schemas@.len() + 1,
    {
        registry.acquire(addrs)
    }

    /// Whether the cache must be refreshed for a caller that observed
    /// `actual_version`.
    pub fn is_outdated(&self, actual_version: Option<u64>) -> (r: bool)
        ensures
            r == self.spec_is_outdated(actual_version),
    {
        match actual_version {
            None => true,
            Some(av) => match self.version {
                None => true,
                Some(cv) => av > cv,
            },
        }
    }

    /// What a caller that observed `actual_version` does about the cache:
    /// nothing when it is current; wait for the refresh already in flight,
    /// sharing its result instead of issuing a redundant one; or fetch,
    /// which marks the refresh as this caller's.  After a wait the caller
    /// re-evaluates, so the staleness condition is double-checked.
    pub fn plan_refresh(&mut self, actual_version: Option<u64>) -> (r: RefreshPlan)
        ensures
            !old(self).spec_is_outdated(actual_version) ==> r == RefreshPlan::Current && *final(self) == *old(self),
            old(self).spec_is_outdated(actual_version) && old(self).is_updating ==> r
                == RefreshPlan::Wait && *final(self) == *old(self),
            old(self).spec_is_outdated(actual_version) && !old(self).is_updating ==> r
                == RefreshPlan::Fetch && *final(self) == (ConnSchema {
                is_updating: true,
                ..*old(self)
            }),
    {
        if !self.is_outdated(actual_version) {
            RefreshPlan::Current
        } else if self.is_updating {
            RefreshPlan::Wait
        } else {
            self.is_updating = true;
            RefreshPlan::Fetch
        }
    }

    /// Give up a refresh this caller had marked, clearing the in-flight
    /// flag so that no failure leaves the cache looking busy forever.
    pub fn abort_refresh(&mut self)
        ensures
            *final(self) == (ConnSchema { is_updating: false, ..*old(self) }),
    {
        self.is_updating = false;
    }

    /// The cached id of the space `name`, without blocking: a miss may mean
    /// the cache is stale, so callers refresh and retry once before
    /// treating it as absent.
    pub fn lookup_space(&self, name: &str) -> (r: Option<u32>)
        ensures
            r == spec_lookup_space(self.space_ids@, name.spec_bytes()),
    {
        let nb: Vec<u8> = name.as_bytes_vec();
        lookup_space_entries(&self.space_ids, &nb)
    }

    /// The cached id of the index `name` of space `space_id`.
    pub fn lookup_index(&self, name: &str, space_id: u32) -> (r: Option<u32>)
        ensures
            r == spec_lookup_index(self.index_ids@, space_id, name.spec_bytes()),
    {
        let nb: Vec<u8> = name.as_bytes_vec();
        lookup_index_entries(&self.index_ids, space_id, &nb)
    }

    /// Replace both maps in full from freshly fetched catalog rows and
    /// record the version they were read under.  On a row that does not
    /// decode, the error is returned, the maps and version are left
    /// exactly as they were, and the in-flight flag is cleared: no error
    /// leaves the cache inconsistent.
    pub fn update(
        &mut self,
        spaces_rows: &Vec<Tuple>,
        index_rows: &Vec<Tuple>,
        actual_schema_version: u64,
    ) -> (r: Result<(), Error>)
        ensures
            r is Ok <==> rows_ok(spaces_rows@) && rows_ok(index_rows@),
            r is Err ==> *final(self) == (ConnSchema { is_updating: false, ..*old(self) }) && (
            r matches Err(e) ==> e == Error::Protocol(ProtocolError::Malformed)),
            r is Ok ==> {
                &&& final(self).version == Some(actual_schema_version)
                &&& !final(self).is_updating
                &&& final(self).space_ids@.len() == spaces_rows@.len()
                &&& forall|i: int|
                    0 <= i < spaces_rows@.len() ==> (#[trigger] spec_parse_triple(
                        spaces_rows@[i]@,
                    ) matches Some((id, _, name)) ==> final(self).space_ids@[i].id == id
                        && final(self).space_ids@[i].name@ == name)
                &&& final(self).index_ids@.len() == index_rows@.len()
                &&& forall|i: int|
                    0 <= i < index_rows@.len() ==> (#[trigger] spec_parse_triple(
                        index_rows@[i]@,
                    ) matches Some((sid, iid, name)) ==> final(self).index_ids@[i].space_id == sid
                        && final(self).index_ids@[i].index_id == iid
                        && final(self).index_ids@[i].name@ == name)
            },
    {
        let spaces = match decode_space_rows(spaces_rows) {
            Ok(s) => s,
            Err(e) => {
                self.is_updating = false;
                return Err(e);
            },
        };
        let indexes = match decode_index_rows(index_rows) {
            Ok(s) => s,
            Err(e) => {
                self.is_updating = false;
                return Err(e);
            },
        };
        self.space_ids = spaces;
        self.index_ids = indexes;
        self.version = Some(actual_schema_version);
        self.is_updating = false;
        Ok(())
    }

    /// Double-checked refresh: re-evaluate the staleness condition, and only
    /// when it still holds replace the maps from the fetched rows, read
    /// under `new_version`.  Returns whether a refresh occurred.  A caller
    /// that waited on a concurrent refresh finds the condition gone and
    /// refreshes nothing, so one reload serves every observer of the same
    /// version bump.
    pub fn refresh(
        &mut self,
        actual_version: Option<u64>,
        spaces_rows: &Vec<Tuple>,
        index_rows: &Vec<Tuple>,
        new_version: u64,
    ) -> (r: Result<bool, Error>)
        ensures
            !old(self).spec_is_outdated(actual_version) ==> r == Ok::<bool, Error>(false)
                && *final(self) == *old(self),
            old(self).spec_is_outdated(actual_version) && rows_ok(spaces_rows@) && rows_ok(
                index_rows@,
            ) ==> r == Ok::<bool, Error>(true) && final(self).version == Some(new_version)
                && !final(self).is_updating,
            old(self).spec_is_outdated(actual_version) && !(rows_ok(spaces_rows@) && rows_ok(
                index_rows@,
            )) ==> r is Err && *final(self) == (ConnSchema {
                is_updating: false,
                ..*old(self)
            }),
    {
        if self.is_outdated(actual_version) {
            match self.update(spaces_rows, index_rows, new_version) {
                Ok(()) => Ok(true),
                Err(e) => Err(e),
            }
        } else {
            Ok(false)
        }
    }

    /// Append the privileged select that reads the system table of
    /// spaces: every row with id above zero, in ascending id order.
    pub fn fetch_schema_spaces(buf: &mut Vec<u8>, sync: u64)
        ensures
            final(buf)@ == old(buf)@ + spec_select_request(
                sync,
                SPACE_CATALOG_ID,
                0,
                u32::MAX,
                0,
                IteratorType::Gt,
                seq![Value::Num(0)],
            ),
    {
        let mut key: Vec<Value> = Vec::new();
        key.push(Value::Num(0));
        encode_select(buf, sync, SPACE_CATALOG_ID, 0, u32::MAX, 0, IteratorType::Gt, &key);
    }

    /// Append the privileged select that reads the whole system table of
    /// indexes.
    pub fn fetch_schema_indexes(buf: &mut Vec<u8>, sync: u64)
        ensures
            final(buf)@ == old(buf)@ + spec_select_request(
                sync,
                INDEX_CATALOG_ID,
                0,
                u32::MAX,
                0,
                IteratorType::All,
                Seq::<Value>::empty(),
            ),
    {
        let key: Vec<Value> = Vec::new();
        encode_select(buf, sync, INDEX_CATALOG_ID, 0, u32::MAX, 0, IteratorType::All, &key);
    }
}

/// A refresh that recorded version `v` satisfies every caller whose
/// observation was at or below `v`: their double-check finds the cache
/// current and performs no second reload.
pub proof fn lemma_refresh_satisfies_observers(s: ConnSchema, observed: u64, v: u64)
    requires
        s.version == Some(v),
        observed <= v,
    ensures
        !s.spec_is_outdated(Some(observed)),
{
}

/// One destination address in canonical form: host bytes and port.
#[derive(Debug, Clone, PartialEq, Eq)]
pub struct Addr {
    pub host: Vec<u8>,
    pub port: u16,
}

impl View for Addr {
    type V = (Seq<u8>, u16);

    open spec fn view(&self) -> (Seq<u8>, u16) {
        (self.host@, self.port)
    }
}

/// One address bound to a cache slot of the registry.
#[derive(Debug, Clone, PartialEq, Eq)]
pub struct AddrBinding {
    pub addr: Addr,
    pub schema: usize,
}

/// The slot bound to `addr`, later bindings shadowing earlier ones.
pub open spec fn spec_find_binding(bindings: Seq<AddrBinding>, addr: (Seq<u8>, u16)) -> Option<
    usize,
>
    decreases bindings.len(),
{
    if bindings.len() == 0 {
        None
    } else if bindings.last().addr@ == addr {
        Some(bindings.last().schema)
    } else {
        spec_find_binding(bindings.drop_last(), addr)
    }
}

/// The slot bound to the first of `addrs` that has a binding.
pub open spec fn spec_find_any(bindings: Seq<AddrBinding>, addrs: Seq<Addr>) -> Option<usize>
    decreases addrs.len(),
{
    if addrs.len() == 0 {
        None
    } else {
        match spec_find_binding(bindings, addrs[0]@) {
            Some(s) => Some(s),
            None => spec_find_any(bindings, addrs.drop_first()),
        }
    }
}

/// Registry of schema caches, keyed by destination address: every
/// connection constructed against an address set that shares an address
/// with an earlier one shares that one's cache slot.  The registry is
/// handed to the connection constructor instead of living in hidden
/// process-wide state.
#[derive(Debug, Clone, PartialEq, Eq)]
pub struct SchemaRegistry {
    pub bindings: Vec<AddrBinding>,
    pub schemas: Vec<ConnSchema>,
}

impl SchemaRegistry {
    /// Every binding points at an existing cache slot.
    pub open spec fn wf(self) -> bool {
        forall|i: int|
            0 <= i < self.bindings@.len() ==> (#[trigger] self.bindings@[i]).schema
                < self.schemas@.len()
    }

    /// An empty registry.
    pub fn new() -> (r: SchemaRegistry)
        ensures
            r.wf(),
            r.bindings@.len() == 0,
            r.schemas@.len() == 0,
    {
        SchemaRegistry { bindings: Vec::new(), schemas: Vec::new() }
    }

    /// The cache slot for a destination address set: the slot of the first
    /// address that is already bound, or a fresh empty cache bound to every
    /// address of the set.
    #[verifier::loop_isolation(false)]
    pub fn acquire(&mut self, addrs: &Vec<Addr>) -> (r: usize)
        requires
            old(self).wf(),
        ensures
            final(self).wf(),
            r < final(self).schemas@.len(),
            match spec_find_any(old(self).bindings@, addrs@) {
                Some(s) => r == s && *final(self) == *old(self),
                None => {
                    &&& r == old(self).schemas@.len()
                    &&& final(self).schemas@.len() == old(self).schemas@.len() + 1
                    &&& forall|j: int|
                        0 <= j < old(self).schemas@.len() ==> final(self).schemas@[j] == old(self).schemas@[j]
                    &&& final(self).schemas@.last().version is None
                    &&& !final(self).schemas@.last().is_updating
                    &&& final(self).schemas@.last().space_ids@.len() == 0
                    &&& final(self).schemas@.last().index_ids@.len() == 0
                    &&& final(self).bindings@.len() == old(self).bindings@.len() + addrs@.len()
                    &&& forall|j: int|
                        0 <= j < old(self).bindings@.len() ==> final(self).bindings@[j] == old(self).bindings@[j]
                    &&& forall|j: int|
                        0 <= j < addrs@.len() ==> (#[trigger] final(self).bindings@[old(self).bindings@.len() + j]).addr@ == addrs@[j]@ && final(self).bindings@[old(self).bindings@.len() + j].schema == r
                },
            },
    {
        let n: usize = addrs.len();
        assert(addrs@.skip(0) =~= addrs@);
        let mut i: usize = 0;
        while i < n
            invariant
                n == addrs@.len(),
                i <= n,
                spec_find_any(self.bindings@, addrs@) == spec_find_any(
                    self.bindings@,
                    addrs@.skip(i as int),
                ),
            decreases n - i,
        {
            match find_binding(&self.bindings, &addrs[i]) {
                Some(s) => {
                    assert(addrs@.skip(i as int)[0] == addrs@[i as int]);
                    assert(spec_find_any(self.bindings@, addrs@.skip(i as int)) == Some(s));
                    proof {
                        lemma_find_binding_in_range(
                            self.bindings@,
                            addrs@[i as int]@,
                            self.schemas@.len() as int,
                        );
                    }
                    return s;
                },
                None => {
                    assert(addrs@.skip(i as int)[0] == addrs@[i as int]);
                    assert(addrs@.skip(i as int).drop_first() =~= addrs@.skip(i as int + 1));
                    i = i + 1;
                },
            }
        }
        assert(addrs@.skip(n as int).len() == 0);
        let id: usize = self.schemas.len();
        self.schemas.push(ConnSchema::new());
        let ghost mid_bindings: Seq<AddrBinding> = self.bindings@;
        let ghost mid_schemas: Seq<ConnSchema> = self.schemas@;
        let mut j: usize = 0;
        while j < n
            invariant
                n == addrs@.len(),
                j <= n,
                id < self.schemas@.len(),
                self.schemas@ == mid_schemas,
                self.bindings@.len() == mid_bindings.len() + j,
                forall|k: int| 0 <= k < mid_bindings.len() ==> self.bindings@[k] == mid_bindings[k],
                forall|k: int|
                    0 <= k < j ==> (#[trigger] self.bindings@[mid_bindings.len() + k]).addr@
                        == addrs@[k]@ && self.bindings@[mid_bindings.len() + k].schema == id,
                forall|k: int|
                    0 <= k < self.bindings@.len() ==> (#[trigger] self.bindings@[k]).schema
                        < self.schemas@.len(),
            decreases n - j,
        {
            let a = addr_dup(&addrs[j]);
            self.bindings.push(AddrBinding { addr: a, schema: id });
            j = j + 1;
        }
        id
    }

    /// The cache in slot `id`, for lookups.
    pub fn get(&self, id: usize) -> (r: &ConnSchema)
        requires
            id < self.schemas@.len(),
        ensures
            *r == self.schemas@[id as int],
    {
        &self.schemas[id]
    }

    /// Whether the cache in slot `id` must be refreshed for a caller that
    /// observed `actual_version`.
    pub fn is_outdated(&self, id: usize, actual_version: Option<u64>) -> (r: bool)
        requires
            id < self.schemas@.len(),
        ensures
            r == self.schemas@[id as int].spec_is_outdated(actual_version),
    {
        self.schemas[id].is_outdated(actual_version)
    }

    /// Decide a caller's refresh plan for the cache in slot `id`: see
    /// [`ConnSchema::plan_refresh`].
    pub fn plan_refresh(&mut self, id: usize, actual_version: Option<u64>) -> (r: RefreshPlan)
        requires
            id < old(self).schemas@.len(),
        ensures
            final(self).bindings == old(self).bindings,
            final(self).schemas@.len() == old(self).schemas@.len(),
            forall|j: int|
                0 <= j < old(self).schemas@.len() && j != id ==> final(self).schemas@[j] == old(self).schemas@[j],
            old(self).wf() ==> final(self).wf(),
            !old(self).schemas@[id as int].spec_is_outdated(actual_version) ==> r
                == RefreshPlan::Current && final(self).schemas@[id as int] == old(self).schemas@[id as int],
            old(self).schemas@[id as int].spec_is_outdated(actual_version) && old(self).schemas@[id as int].is_updating ==> r == RefreshPlan::Wait && final(self).schemas@[id as int]
                == old(self).schemas@[id as int],
            old(self).schemas@[id as int].spec_is_outdated(actual_version) && !old(self).schemas@[id as int].is_updating ==> r == RefreshPlan::Fetch && final(self).schemas@[id as int]
                == (ConnSchema { is_updating: true, ..old(self).schemas@[id as int] }),
    {
        let s = &mut self.schemas[id];
        s.plan_refresh(actual_version)
    }

    /// Clear the in-flight flag of the cache in slot `id` after a failed
    /// fetch: see [`ConnSchema::abort_refresh`].
    pub fn abort_refresh(&mut self, id: usize)
        requires
            id < old(self).schemas@.len(),
        ensures
            final(self).bindings == old(self).bindings,
            final(self).schemas@ == old(self).schemas@.update(
                id as int,
                ConnSchema { is_updating: false, ..old(self).schemas@[id as int] },
            ),
            old(self).wf() ==> final(self).wf(),
    {
        let s = &mut self.schemas[id];
        s.abort_refresh();
    }

    /// Double-checked refresh of the cache in slot `id`: see
    /// [`ConnSchema::refresh`].
    pub fn refresh(
        &mut self,
        id: usize,
        actual_version: Option<u64>,
        spaces_rows: &Vec<Tuple>,
        index_rows: &Vec<Tuple>,
        new_version: u64,
    ) -> (r: Result<bool, Error>)
        requires
            id < old(self).schemas@.len(),
        ensures
            final(self).bindings == old(self).bindings,
            final(self).schemas@.len() == old(self).schemas@.len(),
            forall|j: int|
                0 <= j < old(self).schemas@.len() && j != id ==> final(self).schemas@[j] == old(self).schemas@[j],
            old(self).wf() ==> final(self).wf(),
            !old(self).schemas@[id as int].spec_is_outdated(actual_version) ==> r == Ok::<
                bool,
                Error,
            >(false) && final(self).schemas@[id as int] == old(self).schemas@[id as int],
            old(self).schemas@[id as int].spec_is_outdated(actual_version) && rows_ok(spaces_rows@)
                && rows_ok(index_rows@) ==> r == Ok::<bool, Error>(true) && final(self).schemas@[id as int].version == Some(new_version) && !final(self).schemas@[id as int].is_updating,
            old(self).schemas@[id as int].spec_is_outdated(actual_version) && !(rows_ok(
                spaces_rows@,
            ) && rows_ok(index_rows@)) ==> r is Err && final(self).schemas@[id as int] == (
            ConnSchema { is_updating: false, ..old(self).schemas@[id as int] }),
    {
        let s = &mut self.schemas[id];
        s.refresh(actual_version, spaces_rows, index_rows, new_version)
    }
}

/// A binding found among bindings that all point below `bound` points
/// below `bound`.
proof fn lemma_find_binding_in_range(bindings: Seq<AddrBinding>, addr: (Seq<u8>, u16), bound: int)
    requires
        forall|k: int| 0 <= k < bindings.len() ==> (#[trigger] bindings[k]).schema < bound,
        spec_find_binding(bindings, addr) is Some,
    ensures
        spec_find_binding(bindings, addr) matches Some(s) ==> s < bound,
    decreases bindings.len(),
{
    if bindings.len() == 0 {
    } else if bindings.last().addr@ == addr {
    } else {
        lemma_find_binding_in_range(bindings.drop_last(), addr, bound);
    }
}

/// A fresh address holding the same host bytes and port.
fn addr_dup(a: &Addr) -> (r: Addr)
    ensures
        r@ == a@,
{
    let n: usize = a.host.len();
    let host = crate::msgpack::copy_range(&a.host, 0, n);
    assert(host@ =~= a.host@);
    Addr { host, port: a.port }
}

/// Scan the bindings for `addr`, later bindings shadowing earlier ones.
fn find_binding(bindings: &Vec<AddrBinding>, addr: &Addr) -> (r: Option<usize>)
    ensures
        r == spec_find_binding(bindings@, addr@),
{
    let mut i: usize = bindings.len();
    assert(bindings@.subrange(0, i as int) =~= bindings@);
    while i > 0
        invariant
            i <= bindings@.len(),
            spec_find_binding(bindings@, addr@) == spec_find_binding(
                bindings@.subrange(0, i as int),
                addr@,
            ),
        decreases i,
    {
        i = i - 1;
        if bindings[i].addr.port == addr.port && bytes_eq(&bindings[i].addr.host, &addr.host) {
            return Some(bindings[i].schema);
        }
        assert(bindings@.subrange(0, i as int + 1).drop_last() =~= bindings@.subrange(0, i as int));
    }
    None
}

/// Scan the space entries for `name`, later entries shadowing earlier ones.
fn lookup_space_entries(entries: &Vec<SpaceEntry>, name: &Vec<u8>) -> (r: Option<u32>)
    ensures
        r == spec_lookup_space(entries@, name@),
{
    let mut i: usize = entries.len();
    assert(entries@.subrange(0, i as int) =~= entries@);
    while i > 0
        invariant
            i <= entries@.len(),
            spec_lookup_space(entries@, name@) == spec_lookup_space(
                entries@.subrange(0, i as int),
                name@,
            ),
        decreases i,
    {
        i = i - 1;
        if bytes_eq(&entries[i].name, name) {
            return Some(entries[i].id);
        }
        assert(entries@.subrange(0, i as int + 1).drop_last() =~= entries@.subrange(0, i as int));
    }
    None
}

/// Scan the index entries for `(space_id, name)`.
fn lookup_index_entries(entries: &Vec<IndexEntry>, space_id: u32, name: &Vec<u8>) -> (r: Option<
    u32,
>)
    ensures
        r == spec_lookup_index(entries@, space_id, name@),
{
    let mut i: usize = entries.len();
    assert(entries@.subrange(0, i as int) =~= entries@);
    while i > 0
        invariant
            i <= entries@.len(),
            spec_lookup_index(entries@, space_id, name@) == spec_lookup_index(
                entries@.subrange(0, i as int),
                space_id,
                name@,
            ),
        decreases i,
    {
        i = i - 1;
        if entries[i].space_id == space_id && bytes_eq(&entries[i].name, name) {
            return Some(entries[i].index_id);
        }
        assert(entries@.subrange(0, i as int + 1).drop_last() =~= entries@.subrange(0, i as int));
    }
    None
}

/// Decode every catalog row as a space entry, in order.
fn decode_space_rows(rows: &Vec<Tuple>) -> (r: Result<Vec<SpaceEntry>, Error>)
    ensures
        r is Ok <==> rows_ok(rows@),
        r matches Ok(entries) ==> entries@.len() == rows@.len() && forall|i: int|
            0 <= i < rows@.len() ==> (#[trigger] spec_parse_triple(rows@[i]@) matches Some(
                (id, _, name),
            ) ==> entries@[i].id == id && entries@[i].name@ == name),
        r matches Err(e) ==> e == Error::Protocol(ProtocolError::Malformed),
{
    let mut entries: Vec<SpaceEntry> = Vec::new();
    let n: usize = rows.len();
    let mut i: usize = 0;
    while i < n
        invariant
            n == rows@.len(),
            i <= n,
            entries@.len() == i,
            forall|j: int| 0 <= j < i ==> row_ok(#[trigger] rows@[j]@),
            forall|j: int|
                0 <= j < i ==> (#[trigger] spec_parse_triple(rows@[j]@) matches Some(
                    (id, _, name),
                ) ==> entries@[j].id == id && entries@[j].name@ == name),
        decreases n - i,
    {
        match rows[i].decode_triple() {
            Ok((id, _owner, name)) => {
                entries.push(SpaceEntry { name, id });
            },
            Err(_) => {
                return Err(Error::Protocol(ProtocolError::Malformed));
            },
        }
        i = i + 1;
    }
    Ok(entries)
}

/// Decode every catalog row as an index entry, in order.
fn decode_index_rows(rows: &Vec<Tuple>) -> (r: Result<Vec<IndexEntry>, Error>)
    ensures
        r is Ok <==> rows_ok(rows@),
        r matches Ok(entries) ==> entries@.len() == rows@.len() && forall|i: int|
            0 <= i < rows@.len() ==> (#[trigger] spec_parse_triple(rows@[i]@) matches Some(
                (sid, iid, name),
            ) ==> entries@[i].space_id == sid && entries@[i].index_id == iid && entries@[i].name@
                == name),
        r matches Err(e) ==> e == Error::Protocol(ProtocolError::Malformed),
{
    let mut entries: Vec<IndexEntry> = Vec::new();
    let n: usize = rows.len();
    let mut i: usize = 0;
    while i < n
        invariant
            n == rows@.len(),
            i <= n,
            entries@.len() == i,
            forall|j: int| 0 <= j < i ==> row_ok(#[trigger] rows@[j]@),
            forall|j: int|
                0 <= j < i ==> (#[trigger] spec_parse_triple(rows@[j]@) matches Some(
                    (sid, iid, name),
                ) ==> entries@[j].space_id == sid && entries@[j].index_id == iid
                    && entries@[j].name@ == name),
        decreases n - i,
    {
        match rows[i].decode_triple() {
            Ok((space_id, index_id, name)) => {
                entries.push(IndexEntry { space_id, name, index_id });
            },
            Err(_) => {
                return Err(Error::Protocol(ProtocolError::Malformed));
            },
        }
        i = i + 1;
    }
    Ok(entries)
}

} // verus!
