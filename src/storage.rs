//! Stable-memory regions and the tables and cell that live in them.
//!
//! The backing store is split by a region manager into independently growable
//! regions, each named by a small tag. A table is an ordered map from keys to
//! encoded records bound to one region; a cell holds one encoded record in a
//! region of its own. What each of them holds is modelled by a mathematical
//! map or sequence, and every operation states how it changes that model.
//! Those statements take each table to be alone in its region: regions are
//! handed out only to the storage engine, each under a tag of its own, and
//! the engine is to be opened once per process (see `Store::open`).
use ic_stable_structures::memory_manager::{MemoryId, MemoryManager, VirtualMemory};
use ic_stable_structures::{DefaultMemoryImpl, StableBTreeMap, StableCell};
use vstd::prelude::*;

verus! {

/// Ascending order on keys made of bytes, as `Ord` orders `Vec<u8>`:
/// lexicographically, a proper prefix first.
pub open spec fn bytes_lt(a: Seq<u8>, b: Seq<u8>) -> bool
    decreases a.len(),
{
    if a.len() == 0 {
        b.len() > 0
    } else if b.len() == 0 {
        false
    } else if a[0] != b[0] {
        a[0] < b[0]
    } else {
        bytes_lt(a.drop_first(), b.drop_first())
    }
}

/// The region layout of the backing store.
#[verifier::external_body]
pub struct RegionManager {
    inner: MemoryManager<DefaultMemoryImpl>,
}

/// One region of the backing store, named by its tag.
#[verifier::external_body]
pub struct Region {
    inner: VirtualMemory<DefaultMemoryImpl>,
}

/// A table from numeric identifiers to encoded records, bound to one region.
#[verifier::external_body]
pub struct IdTable {
    inner: StableBTreeMap<u64, Vec<u8>, VirtualMemory<DefaultMemoryImpl>>,
}

/// A table from identity bytes to encoded records, bound to one region.
#[verifier::external_body]
pub struct KeyTable {
    inner: StableBTreeMap<Vec<u8>, Vec<u8>, VirtualMemory<DefaultMemoryImpl>>,
}

/// One encoded record held in a region of its own.
#[verifier::external_body]
pub struct RecordCell {
    inner: StableCell<Vec<u8>, VirtualMemory<DefaultMemoryImpl>>,
}

/// What an identifier table holds.
pub uninterp spec fn id_table_contents(t: IdTable) -> Map<u64, Seq<u8>>;

/// What an identity-keyed table holds.
pub uninterp spec fn key_table_contents(t: KeyTable) -> Map<Seq<u8>, Seq<u8>>;

/// What a cell holds.
pub uninterp spec fn cell_contents(c: RecordCell) -> Seq<u8>;

impl View for IdTable {
    type V = Map<u64, Seq<u8>>;

    open spec fn view(&self) -> Map<u64, Seq<u8>> {
        id_table_contents(*self)
    }
}

impl View for KeyTable {
    type V = Map<Seq<u8>, Seq<u8>>;

    open spec fn view(&self) -> Map<Seq<u8>, Seq<u8>> {
        key_table_contents(*self)
    }
}

impl View for RecordCell {
    type V = Seq<u8>;

    open spec fn view(&self) -> Seq<u8> {
        cell_contents(*self)
    }
}

impl RegionManager {
    /// Relies on `MemoryManager::init` over the default stable memory: it
    /// loads the region layout persisted there, or lays out a fresh one when
    /// the memory holds none. It traps when the persisted layout has a
    /// version it does not support, which no caller can rule out.
    #[verifier::external_body]
    pub(crate) fn init() -> (r: RegionManager) {
        RegionManager { inner: MemoryManager::init(DefaultMemoryImpl::default()) }
    }

    /// Relies on `MemoryManager::get`: the region named `tag`; asking twice
    /// for one tag gives the same region. `MemoryId::new` refuses the tag
    /// 255, which the manager reserves.
    #[verifier::external_body]
    pub(crate) fn region(&self, tag: u8) -> (r: Region)
        requires
            tag < 255,
    {
        Region { inner: self.inner.get(MemoryId::new(tag)) }
    }
}

impl IdTable {
    /// Relies on `StableBTreeMap::init`: the table persisted in `region`,
    /// or a new empty one when the region is empty.
    #[verifier::external_body]
    pub(crate) fn open(region: Region) -> (r: IdTable) {
        IdTable { inner: StableBTreeMap::init(region.inner) }
    }

    /// Relies on `StableBTreeMap::get`: the value stored under `key`, if any.
    #[verifier::external_body]
    pub fn get(&self, key: u64) -> (r: Option<Vec<u8>>)
        ensures
            r is Some <==> id_table_contents(*self).contains_key(key),
            r matches Some(v) ==> v@ == id_table_contents(*self)[key],
    {
        self.inner.get(&key)
    }

    /// Relies on `StableBTreeMap::insert`: stores `value` under `key`,
    /// replacing and returning the previous value. It traps when stable
    /// memory cannot grow, which no caller can rule out.
    #[verifier::external_body]
    pub(crate) fn insert(&mut self, key: u64, value: Vec<u8>) -> (r: Option<Vec<u8>>)
        ensures
            id_table_contents(*final(self)) == id_table_contents(*old(self)).insert(
                key,
                value@,
            ),
            r is Some <==> id_table_contents(*old(self)).contains_key(key),
            r matches Some(v) ==> v@ == id_table_contents(*old(self))[key],
    {
        self.inner.insert(key, value)
    }

    /// Relies on `StableBTreeMap::iter`: every entry once, in ascending key
    /// order.
    #[verifier::external_body]
    pub fn entries(&self) -> (r: Vec<(u64, Vec<u8>)>)
        ensures
            forall|i: int|
                0 <= i < r@.len() ==> id_table_contents(*self).contains_key(#[trigger] r@[i].0)
                    && id_table_contents(*self)[r@[i].0] == r@[i].1@,
            forall|k: u64| #[trigger]
                id_table_contents(*self).contains_key(k) ==> exists|i: int|
                    0 <= i < r@.len() && r@[i].0 == k,
            forall|i: int, j: int| 0 <= i < j < r@.len() ==> r@[i].0 < r@[j].0,
    {
        self.inner.iter().collect()
    }
}

impl KeyTable {
    /// Relies on `StableBTreeMap::init`: the table persisted in `region`,
    /// or a new empty one when the region is empty.
    #[verifier::external_body]
    pub(crate) fn open(region: Region) -> (r: KeyTable) {
        KeyTable { inner: StableBTreeMap::init(region.inner) }
    }

    /// Relies on `StableBTreeMap::get`: the value stored under `key`, if any.
    #[verifier::external_body]
    pub fn get(&self, key: &Vec<u8>) -> (r: Option<Vec<u8>>)
        ensures
            r is Some <==> key_table_contents(*self).contains_key(key@),
            r matches Some(v) ==> v@ == key_table_contents(*self)[key@],
    {
        self.inner.get(key)
    }

    /// Relies on `StableBTreeMap::insert`: stores `value` under `key`,
    /// replacing and returning the previous value. It traps when stable
    /// memory cannot grow, which no caller can rule out.
    #[verifier::external_body]
    pub(crate) fn insert(&mut self, key: Vec<u8>, value: Vec<u8>) -> (r: Option<Vec<u8>>)
        ensures
            key_table_contents(*final(self)) == key_table_contents(*old(self)).insert(
                key@,
                value@,
            ),
            r is Some <==> key_table_contents(*old(self)).contains_key(key@),
            r matches Some(v) ==> v@ == key_table_contents(*old(self))[key@],
    {
        self.inner.insert(key, value)
    }

    /// Relies on `StableBTreeMap::iter`: every entry once, in ascending key
    /// order.
    #[verifier::external_body]
    pub fn entries(&self) -> (r: Vec<(Vec<u8>, Vec<u8>)>)
        ensures
            forall|i: int|
                0 <= i < r@.len() ==> key_table_contents(*self).contains_key(#[trigger] r@[i].0@)
                    && key_table_contents(*self)[r@[i].0@] == r@[i].1@,
            forall|k: Seq<u8>| #[trigger]
                key_table_contents(*self).contains_key(k) ==> exists|i: int|
                    0 <= i < r@.len() && r@[i].0@ == k,
            forall|i: int, j: int| 0 <= i < j < r@.len() ==> bytes_lt(r@[i].0@, r@[j].0@),
    {
        self.inner.iter().collect()
    }
}

impl RecordCell {
    /// Relies on `StableCell::init`: the value persisted in `region`, or
    /// `default` written there when the region holds no cell. It fails on a
    /// cell of an unknown layout version or when the memory cannot grow.
    #[verifier::external_body]
    pub(crate) fn open(region: Region, default: Vec<u8>) -> (r: Option<RecordCell>) {
        match StableCell::init(region.inner, default) {
            Ok(inner) => Some(RecordCell { inner }),
            Err(_) => None,
        }
    }

    /// Relies on `StableCell::get`: the current value.
    #[verifier::external_body]
    pub fn get(&self) -> (r: Vec<u8>)
        ensures
            r@ == cell_contents(*self),
    {
        self.inner.get().clone()
    }

    /// Relies on `StableCell::set`: on success the cell holds `value`; when
    /// the memory cannot grow to hold it, the cell is left unchanged.
    #[verifier::external_body]
    pub(crate) fn set(&mut self, value: Vec<u8>) -> (r: bool)
        ensures
            r ==> cell_contents(*final(self)) == value@,
            !r ==> cell_contents(*final(self)) == cell_contents(*old(self)),
    {
        self.inner.set(value).is_ok()
    }
}

} // verus!
