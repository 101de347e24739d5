//! The durable table behind the proposal store.
//!
//! The table is a `StableBTreeMap` of the crate `ic_stable_structures`, keyed
//! by proposal id; a value is one record of at most
//! [`MAX_RECORD_SIZE`] bytes. Nothing in this module is proved: the
//! contracts below restate what the map's own documentation and source say,
//! and the rest of the library is verified against them.

use vstd::prelude::*;
use ic_stable_structures::memory_manager::{MemoryId, MemoryManager, VirtualMemory};
use ic_stable_structures::storable::Blob;
use ic_stable_structures::{DefaultMemoryImpl, StableBTreeMap};
use crate::record::MAX_RECORD_SIZE;

verus! {

/// A `StableBTreeMap` from proposal ids to records, in the first virtual
/// memory of the default stable memory.
#[verifier::external_body]
pub struct RecordTable {
    inner: StableBTreeMap<u64, Blob<MAX_RECORD_SIZE>, VirtualMemory<DefaultMemoryImpl>>,
}

/// The records that a table holds, by key.
pub uninterp spec fn table_records(table: RecordTable) -> Map<u64, Seq<u8>>;

/// The table without records.
pub open spec fn no_records() -> Map<u64, Seq<u8>> {
    Map::empty()
}

/// `StableBTreeMap::new` on the memory with id 0 of a `MemoryManager` over
/// `DefaultMemoryImpl::default()`: the map starts without a root node and
/// with length 0, so it holds nothing, whatever the memory held before.
#[verifier::external_body]
pub(crate) fn table_new() -> (table: RecordTable)
    ensures
        table_records(table) == no_records(),
{
    let manager = MemoryManager::init(DefaultMemoryImpl::default());
    RecordTable { inner: StableBTreeMap::new(manager.get(MemoryId::new(0))) }
}

/// Whether `records` are `n` in number.
pub open spec fn counted(records: Map<u64, Seq<u8>>, n: u64) -> bool {
    records.dom().finite() && records.dom().len() == n
}

/// `StableBTreeMap::init` on the memory with id 0 of a `MemoryManager` over
/// `DefaultMemoryImpl::default()`: the map that the memory holds, or an empty
/// one if it holds none. What comes back depends on what was written to the
/// memory before, so nothing is claimed of it. The memory is taken to be
/// this table's own: on a memory that something else wrote to, the map may
/// abort this call or a later one.
#[verifier::external_body]
pub(crate) fn table_open() -> (table: RecordTable) {
    let manager = MemoryManager::init(DefaultMemoryImpl::default());
    RecordTable { inner: StableBTreeMap::init(manager.get(MemoryId::new(0))) }
}

/// `StableBTreeMap::len`: the number of entries, which the map keeps as a
/// 64-bit counter.
#[verifier::external_body]
pub(crate) fn table_len(table: &RecordTable) -> (n: u64)
    ensures
        counted(table_records(*table), n),
{
    table.inner.len()
}

/// `StableBTreeMap::get`: the value stored under `key`, if there is one. The
/// map is left as it was.
#[verifier::external_body]
pub(crate) fn table_get(table: &RecordTable, key: u64) -> (r: Option<Vec<u8>>)
    ensures
        r is Some <==> table_records(*table).contains_key(key),
        r matches Some(bytes) ==> bytes@ == table_records(*table)[key],
{
    match table.inner.get(&key) {
        Some(blob) => Some(blob.as_slice().to_vec()),
        None => None,
    }
}

/// `StableBTreeMap::insert`: stores `bytes` under `key`, replacing the whole
/// value that was there, and returns that earlier value if there was one.
/// Other keys keep their values. `Blob::try_from` refuses more than
/// [`MAX_RECORD_SIZE`] bytes, which the precondition rules out. The map
/// aborts the call when stable memory cannot grow any further.
#[verifier::external_body]
pub(crate) fn table_insert(table: &mut RecordTable, key: u64, bytes: &Vec<u8>) -> (r: Option<
    Vec<u8>,
>)
    requires
        bytes@.len() <= MAX_RECORD_SIZE,
    ensures
        table_records(*final(table)) == table_records(*old(table)).insert(key, bytes@),
        r is Some <==> table_records(*old(table)).contains_key(key),
        r matches Some(prev) ==> prev@ == table_records(*old(table))[key],
{
    let blob = Blob::<MAX_RECORD_SIZE>::try_from(bytes.as_slice()).unwrap();
    match table.inner.insert(key, blob) {
        Some(prev) => Some(prev.as_slice().to_vec()),
        None => None,
    }
}

} // verus!
