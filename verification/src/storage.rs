//! The stable structures that hold the records and the identifier counter.
//!
//! Nothing in this file is proved: each function states what the stable
//! structure it calls does, and the rest of the library builds on that.

use vstd::prelude::*;
use ic_stable_structures::memory_manager::{MemoryId, MemoryManager, VirtualMemory};
use ic_stable_structures::storable::Blob;
use ic_stable_structures::{Cell, DefaultMemoryImpl, StableBTreeMap};

verus! {

/// The greatest number of bytes that a stored record may take.
pub const MAX_RECORD_SIZE: usize = 1024;

/// A `StableBTreeMap` from identifiers to records of at most
/// `MAX_RECORD_SIZE` bytes, in a memory of its own.
#[verifier::external_body]
pub struct RecordMap {
    inner: StableBTreeMap<u64, Blob<MAX_RECORD_SIZE>, VirtualMemory<DefaultMemoryImpl>>,
}

/// A stable `Cell` that holds the next identifier, in a memory of its own.
#[verifier::external_body]
pub struct IdCounter {
    inner: Cell<u64, VirtualMemory<DefaultMemoryImpl>>,
}

/// The counter and the three maps of a supply chain.
pub struct Stores {
    pub(crate) counter: IdCounter,
    pub(crate) clients: RecordMap,
    pub(crate) suppliers: RecordMap,
    pub(crate) orders: RecordMap,
}

/// The records that a map holds, by identifier.
pub uninterp spec fn records(map: RecordMap) -> Map<u64, Seq<u8>>;

/// A map's records when it holds none.
pub open spec fn no_records() -> Map<u64, Seq<u8>> {
    Map::empty()
}

/// The number that a counter holds.
pub uninterp spec fn counter_value(counter: IdCounter) -> u64;

/// Four distinct memory slots, none of them the one slot number that a
/// `MemoryId` refuses.
pub open spec fn slots_usable(a: u8, b: u8, c: u8, d: u8) -> bool {
    &&& a != b && a != c && a != d && b != c && b != d && c != d
    &&& a != 255 && b != 255 && c != 255 && d != 255
}

/// `MemoryManager::init` on the default memory, then `Cell::new` and three
/// times `StableBTreeMap::new`, each in the memory of its slot. Both write
/// over what their memory held: the counter holds `start` and the maps are
/// empty. Stops the program where stable memory cannot grow.
#[verifier::external_body]
pub(crate) fn create_stores(a: u8, b: u8, c: u8, d: u8, start: u64) -> (stores: Stores)
    requires
        slots_usable(a, b, c, d),
    ensures
        counter_value(stores.counter) == start,
        records(stores.clients) == no_records(),
        records(stores.suppliers) == no_records(),
        records(stores.orders) == no_records(),
{
    let manager = MemoryManager::init(DefaultMemoryImpl::default());
    let counter =
        Cell::new(manager.get(MemoryId::new(a)), start).expect("Cannot create a counter");
    Stores {
        counter: IdCounter { inner: counter },
        clients: RecordMap { inner: StableBTreeMap::new(manager.get(MemoryId::new(b))) },
        suppliers: RecordMap { inner: StableBTreeMap::new(manager.get(MemoryId::new(c))) },
        orders: RecordMap { inner: StableBTreeMap::new(manager.get(MemoryId::new(d))) },
    }
}

/// `MemoryManager::init` on the default memory, then `Cell::init` and three
/// times `StableBTreeMap::init`, each in the memory of its slot. They take
/// up what their memory holds, and start a counter at `start` and a map
/// empty only where it holds none: so nothing is known of the counter or of
/// the maps. Stops the program where a memory holds a structure of another
/// layout, or where stable memory cannot grow.
#[verifier::external_body]
pub(crate) fn load_stores(a: u8, b: u8, c: u8, d: u8, start: u64) -> (stores: Stores)
    requires
        slots_usable(a, b, c, d),
{
    let manager = MemoryManager::init(DefaultMemoryImpl::default());
    let counter =
        Cell::init(manager.get(MemoryId::new(a)), start).expect("Cannot create a counter");
    Stores {
        counter: IdCounter { inner: counter },
        clients: RecordMap { inner: StableBTreeMap::init(manager.get(MemoryId::new(b))) },
        suppliers: RecordMap { inner: StableBTreeMap::init(manager.get(MemoryId::new(c))) },
        orders: RecordMap { inner: StableBTreeMap::init(manager.get(MemoryId::new(d))) },
    }
}

/// `Cell::get`: the number that the counter holds.
#[verifier::external_body]
pub(crate) fn counter_get(counter: &IdCounter) -> (value: u64)
    ensures
        value == counter_value(*counter),
{
    *counter.inner.get()
}

/// `Cell::set`: the counter holds `value` from now on. Stops the program
/// where the counter's memory cannot take the value.
#[verifier::external_body]
pub(crate) fn counter_set(counter: &mut IdCounter, value: u64)
    ensures
        counter_value(*final(counter)) == value,
{
    counter.inner.set(value).expect("Cannot increment Ids");
}

/// `StableBTreeMap::get`: the record under `id`, if there is one.
#[verifier::external_body]
pub(crate) fn map_get(map: &RecordMap, id: u64) -> (found: Option<Vec<u8>>)
    ensures
        match found {
            Some(bytes) => records(*map).contains_key(id) && records(*map)[id] == bytes@,
            None => !records(*map).contains_key(id),
        },
{
    map.inner.get(&id).map(|blob| blob.as_slice().to_vec())
}

/// `StableBTreeMap::insert`: `bytes` is the record under `id` from now on,
/// and every other record stays. Stops the program where stable memory
/// cannot grow.
#[verifier::external_body]
pub(crate) fn map_insert(map: &mut RecordMap, id: u64, bytes: &Vec<u8>)
    requires
        bytes@.len() <= MAX_RECORD_SIZE,
    ensures
        records(*final(map)) == records(*old(map)).insert(id, bytes@),
{
    map.inner.insert(id, Blob::try_from(bytes.as_slice()).unwrap());
}

/// `StableBTreeMap::remove`: no record is under `id` from now on, and
/// every other record stays. Returns the record that was there.
#[verifier::external_body]
pub(crate) fn map_remove(map: &mut RecordMap, id: u64) -> (removed: Option<Vec<u8>>)
    ensures
        records(*final(map)) == records(*old(map)).remove(id),
        match removed {
            Some(bytes) => records(*old(map)).contains_key(id) && records(*old(map))[id]
                == bytes@,
            None => !records(*old(map)).contains_key(id),
        },
{
    map.inner.remove(&id).map(|blob| blob.as_slice().to_vec())
}

/// `entries` holds every record of `raw` with its identifier, once each,
/// by ascending identifier.
pub open spec fn lists_records(entries: Seq<(u64, Vec<u8>)>, raw: Map<u64, Seq<u8>>) -> bool {
    &&& forall|i: int, j: int| 0 <= i < j < entries.len() ==> entries[i].0 < entries[j].0
    &&& forall|i: int|
        0 <= i < entries.len() ==> raw.contains_key((#[trigger] entries[i]).0) && raw[entries[i].0]
            == entries[i].1@
    &&& forall|id: u64| #[trigger]
        raw.contains_key(id) ==> exists|i: int|
            0 <= i < entries.len() && (#[trigger] entries[i]).0 == id
}

/// `StableBTreeMap::iter`, collected: every record with its identifier,
/// once each, by ascending identifier.
#[verifier::external_body]
pub(crate) fn map_entries(map: &RecordMap) -> (entries: Vec<(u64, Vec<u8>)>)
    ensures
        lists_records(entries@, records(*map)),
{
    map.inner.iter().map(|(id, blob)| (id, blob.as_slice().to_vec())).collect()
}

} // verus!
